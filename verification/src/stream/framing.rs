//! Wire framing and the integrity of stream chunks.
//!
//! A frame is `[4-byte little-endian length][1-byte tag][payload]`. The length covers tag and
//! payload. The tag alone says what the payload holds, so that a reader can dispatch before it
//! deserializes.
//!
//! A stream chunk carries an HMAC-SHA256, keyed on the session id, over its sequence number (eight
//! bytes, little endian) and its payload.
use hmac::{Hmac, Mac};
use sha2::Sha256;
use vstd::prelude::*;
use vstd::slice::slice_subrange;

use crate::protocol::messages::{MessageKind, StreamChunk};
use crate::text::{decimal, decimal_text, hex_byte, hex_byte_text};

verus! {

// ── Tags ──────────────────────────────────────────────────────────────────────
// Stable, never reused. Each phase of the protocol has a range of its own.

pub const TAG_MANIFEST: u8 = 0x01;

pub const TAG_MANIFEST_ACK: u8 = 0x02;

pub const TAG_CAPABILITY_CHALLENGE: u8 = 0x03;

pub const TAG_CAPABILITY_RESPONSE: u8 = 0x04;

pub const TAG_SESSION_ROLES: u8 = 0x05;

pub const TAG_STREAM_READY: u8 = 0x06;

pub const TAG_CHUNK: u8 = 0x10;

pub const TAG_SYNC_BEACON: u8 = 0x11;

pub const TAG_PEER_STATUS: u8 = 0x12;

pub const TAG_PAUSE: u8 = 0x20;

pub const TAG_RESUME: u8 = 0x21;

pub const TAG_SEEK: u8 = 0x22;

pub const TAG_END: u8 = 0x23;

/// The largest frame body that a reader accepts: 16 MiB.
///
/// Two seconds of video at 40 Mbps are about 10 MB. The limit leaves room for that and keeps a
/// corrupt length from claiming any amount of memory.
pub const MAX_FRAME_BYTES: u32 = 16_777_216;

/// The tag of each kind of message.
pub open spec fn tag_of(kind: MessageKind) -> u8 {
    match kind {
        MessageKind::Manifest => TAG_MANIFEST,
        MessageKind::ManifestAck => TAG_MANIFEST_ACK,
        MessageKind::CapabilityChallenge => TAG_CAPABILITY_CHALLENGE,
        MessageKind::CapabilityResponse => TAG_CAPABILITY_RESPONSE,
        MessageKind::SessionRoles => TAG_SESSION_ROLES,
        MessageKind::StreamReady => TAG_STREAM_READY,
        MessageKind::Chunk => TAG_CHUNK,
        MessageKind::SyncBeacon => TAG_SYNC_BEACON,
        MessageKind::PeerStatus => TAG_PEER_STATUS,
        MessageKind::Pause => TAG_PAUSE,
        MessageKind::Resume => TAG_RESUME,
        MessageKind::Seek => TAG_SEEK,
        MessageKind::End => TAG_END,
    }
}

/// Some kind of message has this tag.
pub open spec fn is_tag(tag: u8) -> bool {
    exists|kind: MessageKind| #[trigger] tag_of(kind) == tag
}

/// The tag of a kind of message.
pub fn tag(kind: MessageKind) -> (r: u8)
    ensures
        r == tag_of(kind),
{
    match kind {
        MessageKind::Manifest => TAG_MANIFEST,
        MessageKind::ManifestAck => TAG_MANIFEST_ACK,
        MessageKind::CapabilityChallenge => TAG_CAPABILITY_CHALLENGE,
        MessageKind::CapabilityResponse => TAG_CAPABILITY_RESPONSE,
        MessageKind::SessionRoles => TAG_SESSION_ROLES,
        MessageKind::StreamReady => TAG_STREAM_READY,
        MessageKind::Chunk => TAG_CHUNK,
        MessageKind::SyncBeacon => TAG_SYNC_BEACON,
        MessageKind::PeerStatus => TAG_PEER_STATUS,
        MessageKind::Pause => TAG_PAUSE,
        MessageKind::Resume => TAG_RESUME,
        MessageKind::Seek => TAG_SEEK,
        MessageKind::End => TAG_END,
    }
}

/// The kind of message that a tag stands for.
pub fn kind_of_tag(tag: u8) -> (r: Option<MessageKind>)
    ensures
        r matches Some(kind) ==> tag_of(kind) == tag,
        r is None ==> !is_tag(tag),
{
    if tag == TAG_MANIFEST {
        Some(MessageKind::Manifest)
    } else if tag == TAG_MANIFEST_ACK {
        Some(MessageKind::ManifestAck)
    } else if tag == TAG_CAPABILITY_CHALLENGE {
        Some(MessageKind::CapabilityChallenge)
    } else if tag == TAG_CAPABILITY_RESPONSE {
        Some(MessageKind::CapabilityResponse)
    } else if tag == TAG_SESSION_ROLES {
        Some(MessageKind::SessionRoles)
    } else if tag == TAG_STREAM_READY {
        Some(MessageKind::StreamReady)
    } else if tag == TAG_CHUNK {
        Some(MessageKind::Chunk)
    } else if tag == TAG_SYNC_BEACON {
        Some(MessageKind::SyncBeacon)
    } else if tag == TAG_PEER_STATUS {
        Some(MessageKind::PeerStatus)
    } else if tag == TAG_PAUSE {
        Some(MessageKind::Pause)
    } else if tag == TAG_RESUME {
        Some(MessageKind::Resume)
    } else if tag == TAG_SEEK {
        Some(MessageKind::Seek)
    } else if tag == TAG_END {
        Some(MessageKind::End)
    } else {
        None
    }
}

// ── Little-endian numbers ─────────────────────────────────────────────────────

/// The `width` lowest bytes of `n`, lowest first.
pub open spec fn le_bytes(n: nat, width: nat) -> Seq<u8>
    decreases width,
{
    if width == 0 {
        Seq::empty()
    } else {
        seq![(n % 256) as u8] + le_bytes(n / 256, (width - 1) as nat)
    }
}

/// The number whose bytes, lowest first, are `bytes`.
pub open spec fn le_value(bytes: Seq<u8>) -> nat
    decreases bytes.len(),
{
    if bytes.len() == 0 {
        0
    } else {
        bytes[0] as nat + 256 * le_value(bytes.skip(1))
    }
}

/// Two hundred and fifty-six to the power of `width`.
pub open spec fn pow256(width: nat) -> nat
    decreases width,
{
    if width == 0 {
        1
    } else {
        256 * pow256((width - 1) as nat)
    }
}

/// A number that fits reads back from its bytes.
pub proof fn lemma_le_round_trip(n: nat, width: nat)
    requires
        n < pow256(width),
    ensures
        le_bytes(n, width).len() == width,
        le_value(le_bytes(n, width)) == n,
    decreases width,
{
    if width > 0 {
        lemma_le_round_trip(n / 256, (width - 1) as nat);
        assert(le_bytes(n, width).skip(1) =~= le_bytes(n / 256, (width - 1) as nat));
    }
}

/// Appends the `width` lowest bytes of `n`, lowest first.
fn push_le(out: &mut Vec<u8>, n: u64, width: usize)
    ensures
        final(out)@ == old(out)@ + le_bytes(n as nat, width as nat),
    decreases width,
{
    let ghost before = out@;
    if width > 0 {
        out.push((n % 256) as u8);
        push_le(out, n / 256, width - 1);
    }
    assert(out@ =~= before + le_bytes(n as nat, width as nat));
}

// ── Frames ────────────────────────────────────────────────────────────────────

/// Why a frame is refused.
#[derive(Debug, Clone, Copy, PartialEq, Eq, Structural)]
pub enum FrameError {
    /// The length is zero: there is not even a tag.
    Empty,
    /// The length is larger than `MAX_FRAME_BYTES`.
    TooLarge(u32),
    /// No kind of message has this tag.
    UnknownTag(u8),
}

impl FrameError {
    /// The message for a person.
    pub open spec fn spec_message(&self) -> Seq<char> {
        match *self {
            FrameError::Empty => "received zero-length frame"@,
            FrameError::TooLarge(n) => "frame too large: "@ + decimal(n as nat) + " bytes (max "@
                + decimal(MAX_FRAME_BYTES as nat) + ")"@,
            FrameError::UnknownTag(t) => "unknown wire type tag: 0x"@ + hex_byte(t),
        }
    }

    /// The message for a person.
    pub fn message(&self) -> (r: String)
        ensures
            r@ == self.spec_message(),
    {
        match self {
            FrameError::Empty => "received zero-length frame".to_owned(),
            FrameError::TooLarge(n) => {
                let mut out = "frame too large: ".to_owned();
                out.append(decimal_text(*n as u64).as_str());
                out.append(" bytes (max ");
                out.append(decimal_text(MAX_FRAME_BYTES as u64).as_str());
                out.append(")");
                out
            },
            FrameError::UnknownTag(t) => {
                let mut out = "unknown wire type tag: 0x".to_owned();
                out.append(hex_byte_text(*t).as_str());
                out
            },
        }
    }
}

/// The frame of a message. A length beyond 32 bits keeps its 32 lowest bits.
pub open spec fn frame(kind: MessageKind, payload: Seq<u8>) -> Seq<u8> {
    le_bytes(((1 + payload.len()) % 0x1_0000_0000) as nat, 4) + seq![tag_of(kind)] + payload
}

/// What a reader makes of a length: it refuses none and too much.
pub open spec fn accepted_length(n: u32) -> Result<u32, FrameError> {
    if n == 0 {
        Err(FrameError::Empty)
    } else if n > MAX_FRAME_BYTES {
        Err(FrameError::TooLarge(n))
    } else {
        Ok(n)
    }
}

/// The frame of a message, ready to be sent.
pub fn encode_frame(kind: MessageKind, payload: &[u8]) -> (r: Vec<u8>)
    ensures
        r@ == frame(kind, payload@),
{
    let length: u64 = ((payload.len() as u128 + 1) % 0x1_0000_0000) as u64;
    let mut out: Vec<u8> = Vec::new();
    push_le(&mut out, length, 4);
    out.push(tag(kind));
    out.extend_from_slice(payload);
    assert(out@ =~= frame(kind, payload@));
    out
}

/// How many bytes follow the length of a frame.
pub fn frame_length(prefix: [u8; 4]) -> (r: Result<u32, FrameError>)
    ensures
        le_value(prefix@) <= u32::MAX,
        r == accepted_length(le_value(prefix@) as u32),
{
    let n: u32 = prefix[0] as u32 + 256 * (prefix[1] as u32) + 65_536 * (prefix[2] as u32)
        + 16_777_216 * (prefix[3] as u32);
    proof {
        reveal_with_fuel(le_value, 5);
        assert(prefix@.skip(1).skip(1) =~= prefix@.skip(2));
        assert(prefix@.skip(2).skip(1) =~= prefix@.skip(3));
        assert(prefix@.skip(3).skip(1) =~= Seq::<u8>::empty());
        assert(le_value(prefix@) == n);
    }
    if n == 0 {
        Err(FrameError::Empty)
    } else if n > MAX_FRAME_BYTES {
        Err(FrameError::TooLarge(n))
    } else {
        Ok(n)
    }
}

/// The kind and the payload of a frame body.
pub fn decode_frame(body: &[u8]) -> (r: Result<(MessageKind, &[u8]), FrameError>)
    requires
        body.len() > 0,
    ensures
        r matches Ok((kind, payload)) ==> tag_of(kind) == body@[0] && payload@ == body@.skip(1),
        r matches Err(e) ==> e == FrameError::UnknownTag(body@[0]),
        r is Ok <==> is_tag(body@[0]),
{
    match kind_of_tag(body[0]) {
        Some(kind) => {
            assert(tag_of(kind) == body@[0]);
            let payload = slice_subrange(body, 1, body.len());
            assert(payload@ =~= body@.skip(1));
            Ok((kind, payload))
        },
        None => Err(FrameError::UnknownTag(body[0])),
    }
}

// ── Integrity ─────────────────────────────────────────────────────────────────

/// HMAC-SHA256 of `message` under `key`.
pub uninterp spec fn hmac_sha256(key: Seq<u8>, message: Seq<u8>) -> Seq<u8>;

/// `Hmac::<Sha256>` of the `hmac` and `sha2` crates: `new_from_slice`, which takes a key of any
/// length, `update` with each part in turn, `finalize`. The code is that of the two parts put
/// together; it depends on nothing but key and parts.
#[verifier::external_body]
fn hmac_of(key: &[u8], head: &[u8], tail: &[u8]) -> (r: [u8; 32])
    ensures
        r@ == hmac_sha256(key@, head@ + tail@),
{
    let mut mac = Hmac::<Sha256>::new_from_slice(key).expect("HMAC takes a key of any length");
    mac.update(head);
    mac.update(tail);
    mac.finalize().into_bytes().into()
}

/// `Mac::verify_slice` of the `hmac` crate, fed as in `hmac_of`: it accepts a code exactly if that
/// is the one that `finalize` would give, and compares in constant time.
#[verifier::external_body]
fn hmac_accepts(key: &[u8], head: &[u8], tail: &[u8], code: &[u8]) -> (r: bool)
    ensures
        r == (code@ == hmac_sha256(key@, head@ + tail@)),
{
    let mut mac = Hmac::<Sha256>::new_from_slice(key).expect("HMAC takes a key of any length");
    mac.update(head);
    mac.update(tail);
    mac.verify_slice(code).is_ok()
}

/// What the code of a chunk covers: its sequence number and its payload.
pub open spec fn authenticated(sequence: u64, payload: Seq<u8>) -> Seq<u8> {
    le_bytes(sequence as nat, 8) + payload
}

/// The code that a chunk has to carry.
pub open spec fn chunk_code(session_id: Seq<u8>, sequence: u64, payload: Seq<u8>) -> Seq<u8> {
    hmac_sha256(session_id, authenticated(sequence, payload))
}

/// A chunk carries the code of its sequence number and payload.
pub open spec fn authentic(chunk: StreamChunk, session_id: Seq<u8>) -> bool {
    chunk.hmac@ == chunk_code(session_id, chunk.sequence, chunk.payload@)
}

/// The authentication code of a chunk.
pub fn compute_hmac(session_id: &[u8; 32], sequence: u64, payload: &[u8]) -> (r: [u8; 32])
    ensures
        r@ == chunk_code(session_id@, sequence, payload@),
{
    let mut head: Vec<u8> = Vec::new();
    push_le(&mut head, sequence, 8);
    assert(head@ =~= le_bytes(sequence as nat, 8));
    hmac_of(session_id.as_slice(), head.as_slice(), payload)
}

/// Whether a received chunk carries the code of its sequence number and payload.
pub fn verify_hmac(chunk: &StreamChunk, session_id: &[u8; 32]) -> (r: bool)
    ensures
        r == authentic(*chunk, session_id@),
{
    let mut head: Vec<u8> = Vec::new();
    push_le(&mut head, chunk.sequence, 8);
    assert(head@ =~= le_bytes(chunk.sequence as nat, 8));
    hmac_accepts(
        session_id.as_slice(),
        head.as_slice(),
        chunk.payload.as_slice(),
        chunk.hmac.as_slice(),
    )
}

// ── Laws ──────────────────────────────────────────────────────────────────────

/// No two kinds of messages share a tag.
pub proof fn law_tags_are_distinct(a: MessageKind, b: MessageKind)
    requires
        tag_of(a) == tag_of(b),
    ensures
        a == b,
{
}

/// A reader gets back what a writer sent: from the first four bytes of a frame that length of the
/// rest, and from the rest the kind and the payload.
pub proof fn law_frame_reads_back(kind: MessageKind, payload: Seq<u8>)
    requires
        1 + payload.len() <= MAX_FRAME_BYTES,
    ensures
        ({
            let f = frame(kind, payload);
            let body = f.skip(4);
            &&& f.len() >= 5
            &&& accepted_length(le_value(f.take(4)) as u32) == Ok::<u32, FrameError>(
                body.len() as u32,
            )
            &&& body.len() == 1 + payload.len()
            &&& body[0] == tag_of(kind)
            &&& body.skip(1) == payload
        }),
{
    let n = 1 + payload.len();
    assert(pow256(4) == 0x1_0000_0000) by {
        reveal_with_fuel(pow256, 5);
    }
    lemma_le_round_trip(n, 4);
    let f = frame(kind, payload);
    assert(f.take(4) =~= le_bytes(n, 4));
    assert(f.skip(4) =~= seq![tag_of(kind)] + payload);
    assert(f.skip(4).skip(1) =~= payload);
}

/// A frame whose content is too large for a reader is refused by its length alone, as long as its
/// length fits the four bytes.
pub proof fn law_oversized_frame_is_refused(kind: MessageKind, payload: Seq<u8>)
    requires
        MAX_FRAME_BYTES < 1 + payload.len() <= u32::MAX,
    ensures
        accepted_length(le_value(frame(kind, payload).take(4)) as u32) == Err::<u32, FrameError>(
            FrameError::TooLarge((1 + payload.len()) as u32),
        ),
{
    let n = 1 + payload.len();
    assert(pow256(4) == 0x1_0000_0000) by {
        reveal_with_fuel(pow256, 5);
    }
    lemma_le_round_trip(n, 4);
    assert(frame(kind, payload).take(4) =~= le_bytes(n, 4));
}

/// The code of a chunk covers sequence number and payload without confusion: two chunks with the
/// same authenticated bytes are the same in both. A chunk replayed under another number is other
/// data.
pub proof fn law_authenticated_data_is_unambiguous(
    sequence_a: u64,
    payload_a: Seq<u8>,
    sequence_b: u64,
    payload_b: Seq<u8>,
)
    requires
        authenticated(sequence_a, payload_a) == authenticated(sequence_b, payload_b),
    ensures
        sequence_a == sequence_b,
        payload_a == payload_b,
{
    assert(pow256(8) == 0x1_0000_0000_0000_0000) by {
        reveal_with_fuel(pow256, 9);
    }
    lemma_le_round_trip(sequence_a as nat, 8);
    lemma_le_round_trip(sequence_b as nat, 8);
    let a = authenticated(sequence_a, payload_a);
    let b = authenticated(sequence_b, payload_b);
    assert(a.take(8) =~= le_bytes(sequence_a as nat, 8));
    assert(b.take(8) =~= le_bytes(sequence_b as nat, 8));
    assert(a.skip(8) =~= payload_a);
    assert(b.skip(8) =~= payload_b);
}

/// A chunk whose code was changed is refused.
pub proof fn law_changed_code_is_refused(chunk: StreamChunk, changed: StreamChunk, session_id: Seq<u8>)
    requires
        authentic(chunk, session_id),
        changed.sequence == chunk.sequence,
        changed.payload@ == chunk.payload@,
        changed.hmac@ != chunk.hmac@,
    ensures
        !authentic(changed, session_id),
{
}

/// A chunk whose sequence number or payload was changed passes under the old code only if HMAC
/// gives that code for two different messages.
pub proof fn law_tampering_takes_a_collision(
    chunk: StreamChunk,
    tampered: StreamChunk,
    session_id: Seq<u8>,
)
    requires
        authentic(chunk, session_id),
        authentic(tampered, session_id),
        tampered.hmac@ == chunk.hmac@,
        tampered.sequence != chunk.sequence || tampered.payload@ != chunk.payload@,
    ensures
        ({
            let a = authenticated(chunk.sequence, chunk.payload@);
            let b = authenticated(tampered.sequence, tampered.payload@);
            a != b && hmac_sha256(session_id, a) == hmac_sha256(session_id, b)
        }),
{
    if authenticated(chunk.sequence, chunk.payload@) == authenticated(
        tampered.sequence,
        tampered.payload@,
    ) {
        law_authenticated_data_is_unambiguous(
            chunk.sequence,
            chunk.payload@,
            tampered.sequence,
            tampered.payload@,
        );
    }
}

/// A length of four bytes is read lowest byte first. It is taken if it is neither zero nor more than
/// 16 MiB, and refused for what it is otherwise.
pub proof fn law_lengths_are_read_and_bounded(a: u8, b: u8, c: u8, d: u8, n: u32)
    ensures
        le_value(seq![a, b, c, d]) == a + 256 * b + 65_536 * c + 16_777_216 * d,
        accepted_length(n) == Ok::<u32, FrameError>(n) <==> 1 <= n <= 16_777_216,
        accepted_length(n) == Err::<u32, FrameError>(FrameError::Empty) <==> n == 0,
        accepted_length(n) == Err::<u32, FrameError>(FrameError::TooLarge(n)) <==> n > 16_777_216,
{
    let s = seq![a, b, c, d];
    reveal_with_fuel(le_value, 5);
    assert(s.skip(1).skip(1) =~= s.skip(2));
    assert(s.skip(2).skip(1) =~= s.skip(3));
    assert(s.skip(3).skip(1) =~= Seq::<u8>::empty());
}

/// What a chunk is authenticated by: HMAC-SHA256 under the session id of the eight bytes of its
/// sequence number, lowest first, and its whole payload behind them.
pub proof fn law_code_covers_number_and_payload(chunk: StreamChunk, session_id: Seq<u8>, i: int)
    requires
        0 <= i < 8,
    ensures
        ({
            let message = authenticated(chunk.sequence, chunk.payload@);
            &&& authentic(chunk, session_id) <==> chunk.hmac@ == hmac_sha256(session_id, message)
            &&& message.len() == 8 + chunk.payload@.len()
            &&& message.skip(8) == chunk.payload@
            &&& message[i] == chunk.sequence as nat / pow256(i as nat) % 256
            &&& pow256(0) == 1
            &&& i > 0 ==> pow256(i as nat) == 256 * pow256((i - 1) as nat)
        }),
{
    let message = authenticated(chunk.sequence, chunk.payload@);
    lemma_le_byte(chunk.sequence as nat, 8, i);
    assert(message.skip(8) =~= chunk.payload@);
}

proof fn lemma_le_byte(n: nat, width: nat, i: int)
    requires
        0 <= i < width,
    ensures
        le_bytes(n, width).len() == width,
        le_bytes(n, width)[i] == n / pow256(i as nat) % 256,
    decreases width,
{
    lemma_le_length(n, width);
    if i > 0 {
        lemma_le_byte(n / 256, (width - 1) as nat, i - 1);
        assert(le_bytes(n, width)[i] == le_bytes(n / 256, (width - 1) as nat)[i - 1]);
        lemma_pow256_positive((i - 1) as nat);
        vstd::arithmetic::div_mod::lemma_div_denominator(
            n as int,
            256,
            pow256((i - 1) as nat) as int,
        );
    } else {
        assert(n / pow256(0) == n) by (nonlinear_arith)
            requires
                pow256(0) == 1,
        ;
    }
}

proof fn lemma_le_length(n: nat, width: nat)
    ensures
        le_bytes(n, width).len() == width,
    decreases width,
{
    if width > 0 {
        lemma_le_length(n / 256, (width - 1) as nat);
    }
}

proof fn lemma_pow256_positive(n: nat)
    ensures
        pow256(n) > 0,
    decreases n,
{
    if n > 0 {
        lemma_pow256_positive((n - 1) as nat);
    }
}

/// A refusal names what was received: the length that is too large, or the tag that is not known.
pub proof fn law_refusals_name_what_was_received(n: u32, t: u8)
    ensures
        FrameError::TooLarge(n).spec_message() == "frame too large: "@ + decimal(n as nat)
            + " bytes (max "@ + decimal(16_777_216) + ")"@,
        FrameError::UnknownTag(t).spec_message() == "unknown wire type tag: 0x"@ + hex_byte(t),
        FrameError::Empty.spec_message() == "received zero-length frame"@,
{
}

} // verus!
