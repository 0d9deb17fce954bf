//! The identity of a disc: the blake3 hash of the first bytes of its re-muxed content.
//!
//! `ffmpeg` copies the streams into a Matroska container without encoding them anew, so that the
//! bytes are the same for a drive letter, a device node and an image of one disc.
use vstd::prelude::*;
use vstd::slice::slice_subrange;

use crate::text::{hex_byte, hex_byte_text, push_text, push_texts, texts, words};

verus! {

/// `blake3::Hasher`, the incremental form of the hash function.
#[verifier::external_type_specification]
#[verifier::external_body]
pub struct ExHasher(blake3::Hasher);

/// The bytes that a hasher was given, in order.
pub uninterp spec fn absorbed(hasher: blake3::Hasher) -> Seq<u8>;

/// A hasher was made for the regular hash function, without a key or a context, and its input
/// offset was never set.
pub uninterp spec fn from_start(hasher: blake3::Hasher) -> bool;

/// The blake3 hash of a sequence of bytes.
pub uninterp spec fn blake3_hash(input: Seq<u8>) -> Seq<u8>;

/// `blake3::Hasher::new`: a hasher for the regular hash function, with no input yet.
#[verifier::external_body]
fn new_hasher() -> (r: blake3::Hasher)
    ensures
        absorbed(r) == Seq::<u8>::empty(),
        from_start(r),
{
    blake3::Hasher::new()
}

/// `blake3::Hasher::update`: the bytes are added to the input. It may panic on a hasher whose input
/// offset was set, hence the condition.
#[verifier::external_body]
fn update_hasher(hasher: &mut blake3::Hasher, bytes: &[u8])
    requires
        from_start(*old(hasher)),
    ensures
        absorbed(*final(hasher)) == absorbed(*old(hasher)) + bytes@,
        from_start(*final(hasher)),
{
    hasher.update(bytes);
}

/// `blake3::Hasher::finalize`: the hash of the whole input, which depends on nothing but that
/// input. It panics on a hasher whose input offset was set, hence the condition.
#[verifier::external_body]
fn finalize_hasher(hasher: &blake3::Hasher) -> (r: [u8; 32])
    requires
        from_start(*hasher),
    ensures
        r@ == blake3_hash(absorbed(*hasher)),
{
    *hasher.finalize().as_bytes()
}

/// Bytes that are read at a time.
pub const READ_BYTES: usize = 65_536;

/// The arguments of `ffmpeg` that re-mux a source to its output.
pub fn hash_args(input_flags: &[&str], input_spec: &str) -> (r: Vec<String>)
    ensures
        texts(r@) == words(input_flags@) + seq![
            "-i"@,
            input_spec@,
            "-c"@,
            "copy"@,
            "-map"@,
            "0"@,
            "-f"@,
            "matroska"@,
            "pipe:1"@,
        ],
{
    let mut args: Vec<String> = Vec::new();
    push_texts(&mut args, input_flags);
    push_text(&mut args, "-i");
    push_text(&mut args, input_spec);
    push_text(&mut args, "-c");
    push_text(&mut args, "copy");
    push_text(&mut args, "-map");
    push_text(&mut args, "0");
    push_text(&mut args, "-f");
    push_text(&mut args, "matroska");
    push_text(&mut args, "pipe:1");
    assert(texts(args@) =~= words(input_flags@) + seq![
        "-i"@,
        input_spec@,
        "-c"@,
        "copy"@,
        "-map"@,
        "0"@,
        "-f"@,
        "matroska"@,
        "pipe:1"@,
    ]);
    args
}

/// The smaller of two numbers.
pub open spec fn least(a: int, b: int) -> int {
    if a <= b {
        a
    } else {
        b
    }
}

/// The first `n` bytes of a stream, or all of it where it is shorter.
pub open spec fn first_bytes(stream: Seq<u8>, n: nat) -> Seq<u8> {
    stream.take(least(n as int, stream.len() as int))
}

/// The hash of the first bytes of a stream that arrives in parts.
pub struct MediaHasher {
    hasher: blake3::Hasher,
    remaining: u64,
}

impl MediaHasher {
    /// The bytes hashed so far.
    pub closed spec fn hashed(&self) -> Seq<u8> {
        absorbed(self.hasher)
    }

    /// How many more bytes are to be hashed.
    pub closed spec fn spec_remaining(&self) -> u64 {
        self.remaining
    }

    /// The hasher can be finished.
    pub closed spec fn wf(&self) -> bool {
        from_start(self.hasher)
    }

    /// A hasher for the first `n_bytes` bytes of a stream.
    pub fn new(n_bytes: u64) -> (r: Self)
        ensures
            r.wf(),
            r.hashed() == Seq::<u8>::empty(),
            r.spec_remaining() == n_bytes,
    {
        MediaHasher { hasher: new_hasher(), remaining: n_bytes }
    }

    /// How many bytes to read next: no more than are missing, and no more than fit a read buffer.
    /// Nothing is left to read once it is zero.
    pub fn wanted(&self) -> (r: usize)
        ensures
            r == least(self.spec_remaining() as int, READ_BYTES as int),
    {
        if self.remaining < READ_BYTES as u64 {
            self.remaining as usize
        } else {
            READ_BYTES
        }
    }

    /// Takes the next part of the stream; of one that is longer than what is missing, its start.
    pub fn feed(&mut self, bytes: &[u8])
        requires
            old(self).wf(),
        ensures
            final(self).wf(),
            ({
                let taken = least(old(self).spec_remaining() as int, bytes@.len() as int);
                &&& final(self).hashed() == old(self).hashed() + bytes@.take(taken)
                &&& final(self).spec_remaining() == old(self).spec_remaining() - taken
            }),
    {
        let n: usize = if self.remaining < bytes.len() as u64 {
            self.remaining as usize
        } else {
            bytes.len()
        };
        let part = slice_subrange(bytes, 0, n);
        assert(part@ =~= bytes@.take(n as int));
        update_hasher(&mut self.hasher, part);
        self.remaining = self.remaining - n as u64;
    }

    /// The hash of the bytes taken, whether or not the stream held as many as were asked for.
    pub fn finish(&self) -> (r: [u8; 32])
        requires
            self.wf(),
        ensures
            r@ == blake3_hash(self.hashed()),
    {
        finalize_hasher(&self.hasher)
    }
}

/// The first four bytes of a hash in hexadecimal.
pub fn hex_prefix(b: &[u8; 32]) -> (r: String)
    ensures
        r@ == hex_byte(b@[0]) + hex_byte(b@[1]) + hex_byte(b@[2]) + hex_byte(b@[3]),
{
    let mut out = hex_byte_text(b[0]);
    out.append(hex_byte_text(b[1]).as_str());
    out.append(hex_byte_text(b[2]).as_str());
    out.append(hex_byte_text(b[3]).as_str());
    out
}

/// The identity of a disc does not depend on how its bytes arrive: a hasher that took the first
/// `n` bytes of `stream`, given one more part, has taken the first `n` bytes of both.
pub proof fn law_reads_add_up(stream: Seq<u8>, part: Seq<u8>, n: nat)
    ensures
        ({
            let before = first_bytes(stream, n);
            let missing = n - before.len();
            let taken = least(missing, part.len() as int);
            &&& before + part.take(taken) == first_bytes(stream + part, n)
            &&& missing - taken == n - first_bytes(stream + part, n).len()
        }),
{
    let before = first_bytes(stream, n);
    let taken = least(n - before.len(), part.len() as int);
    assert(before + part.take(taken) =~= first_bytes(stream + part, n));
}

/// What is hashed is the start of the stream, up to `n` bytes, in whatever parts it arrives. `stream`
/// is what has arrived, `hashed` what a hasher has taken and `remaining` what it still takes, before
/// and after each part.
pub proof fn law_the_start_of_the_stream_is_hashed(
    n: int,
    parts: Seq<Seq<u8>>,
    stream: Seq<Seq<u8>>,
    hashed: Seq<Seq<u8>>,
    remaining: Seq<int>,
)
    requires
        n >= 0,
        stream.len() == parts.len() + 1,
        hashed.len() == parts.len() + 1,
        remaining.len() == parts.len() + 1,
        stream[0].len() == 0,
        hashed[0].len() == 0,
        remaining[0] == n,
        forall|i: int|
            0 <= i < parts.len() ==> {
                let taken = least(remaining[i], parts[i].len() as int);
                &&& #[trigger] stream[i + 1] == stream[i] + parts[i]
                &&& hashed[i + 1] == hashed[i] + parts[i].take(taken)
                &&& remaining[i + 1] == remaining[i] - taken
            },
    ensures
        stream.last().len() >= n ==> hashed.last() == stream.last().take(n) && remaining.last() == 0,
        stream.last().len() < n ==> hashed.last() == stream.last() && remaining.last() == n
            - stream.last().len(),
    decreases parts.len(),
{
    if parts.len() == 0 {
        assert(hashed[0] =~= stream[0]);
        assert(stream[0].take(0) =~= hashed[0]);
    } else {
        let k = parts.len() - 1;
        assert forall|i: int| 0 <= i < parts.drop_last().len() implies {
            let taken = least(remaining.drop_last()[i], parts.drop_last()[i].len() as int);
            &&& #[trigger] stream.drop_last()[i + 1] == stream.drop_last()[i] + parts.drop_last()[i]
            &&& hashed.drop_last()[i + 1] == hashed.drop_last()[i] + parts.drop_last()[i].take(taken)
            &&& remaining.drop_last()[i + 1] == remaining.drop_last()[i] - taken
        } by {
            assert(stream[i + 1] == stream[i] + parts[i]);
        }
        law_the_start_of_the_stream_is_hashed(
            n,
            parts.drop_last(),
            stream.drop_last(),
            hashed.drop_last(),
            remaining.drop_last(),
        );
        assert(stream.drop_last().last() == stream[k]);
        assert(hashed.drop_last().last() == hashed[k]);
        assert(remaining.drop_last().last() == remaining[k]);
        assert(stream[k + 1] == stream[k] + parts[k]);
        if stream[k].len() >= n {
            assert(hashed[k + 1] =~= (stream[k] + parts[k]).take(n));
        } else if stream[k + 1].len() >= n {
            assert(hashed[k + 1] =~= (stream[k] + parts[k]).take(n));
        } else {
            assert(hashed[k + 1] =~= stream[k] + parts[k]);
        }
    }
}

/// The smaller of two numbers is one of them, and neither is below it.
pub proof fn law_least_is_the_smaller(a: int, b: int)
    ensures
        least(a, b) <= a,
        least(a, b) <= b,
        least(a, b) == a || least(a, b) == b,
{
}

} // verus!
