//! One chunk of the stream: what `ffmpeg` is asked for, and what becomes of its output.
//!
//! Each chunk is a run of `ffmpeg` of its own, which seeks to the boundary, copies the streams
//! without encoding them anew, and writes MPEG-TS. Segments of it can be put one behind the other
//! as a single stream, and keep the timestamps of the source.
use vstd::prelude::*;

use crate::disc::chunk_map::{is_chunk_map, law_chunks_meet};
use crate::number::{decimal_number, law_position_reads_back};
use crate::protocol::config::StreamConfig;
use crate::protocol::manifest::ChunkBoundary;
use crate::protocol::messages::StreamChunk;
use crate::stream::framing::{authentic, chunk_code, compute_hmac};
use crate::text::{duration_text, position_text, push_text, push_texts, seconds, texts, words};

verus! {

/// The output of `ffmpeg` for one chunk.
#[derive(Debug)]
pub struct EncodedChunk {
    /// Zero-based position of the chunk.
    pub sequence: u64,
    /// Where the chunk starts, in microseconds.
    pub pts_us: i64,
    /// How long the chunk is, in microseconds.
    pub duration_us: u64,
    /// Whether the chunk starts on a keyframe.
    pub keyframe_snapped: bool,
    /// The chapter that starts here, or 0.
    pub chapter_index: u16,
    /// The segment.
    pub data: Vec<u8>,
}

/// Why a chunk could not be encoded.
#[derive(Debug, Clone, Copy, PartialEq, Eq, Structural)]
pub enum EncodeError {
    /// `ffmpeg` wrote nothing.
    NoOutput { sequence: u64, pts_us: i64 },
}

/// The arguments of `ffmpeg` for one chunk.
pub open spec fn encode_command(
    input_flags: Seq<Seq<char>>,
    input_spec: Seq<char>,
    boundary: ChunkBoundary,
) -> Seq<Seq<char>> {
    seq!["-ss"@, seconds(boundary.pts_us as int)] + input_flags + seq![
        "-i"@,
        input_spec,
        "-t"@,
        seconds(boundary.duration_us as int),
        "-c"@,
        "copy"@,
        "-map"@,
        "0"@,
        "-f"@,
        "mpegts"@,
        "-mpegts_copyts"@,
        "1"@,
        "pipe:1"@,
    ]
}

/// The arguments of `ffmpeg` for one chunk.
pub fn encode_args(input_flags: &[&str], input_spec: &str, boundary: &ChunkBoundary) -> (r: Vec<
    String,
>)
    ensures
        texts(r@) == encode_command(words(input_flags@), input_spec@, *boundary),
{
    let mut args: Vec<String> = Vec::new();
    push_text(&mut args, "-ss");
    push_text(&mut args, position_text(boundary.pts_us).as_str());
    push_texts(&mut args, input_flags);
    push_text(&mut args, "-i");
    push_text(&mut args, input_spec);
    push_text(&mut args, "-t");
    push_text(&mut args, duration_text(boundary.duration_us).as_str());
    push_text(&mut args, "-c");
    push_text(&mut args, "copy");
    push_text(&mut args, "-map");
    push_text(&mut args, "0");
    push_text(&mut args, "-f");
    push_text(&mut args, "mpegts");
    push_text(&mut args, "-mpegts_copyts");
    push_text(&mut args, "1");
    push_text(&mut args, "pipe:1");
    assert(texts(args@) =~= encode_command(words(input_flags@), input_spec@, *boundary));
    args
}

/// The chunk that follows from what `ffmpeg` wrote for a boundary.
///
/// Output counts whatever the exit status: at the end of a disc `ffmpeg` may fail after it wrote
/// everything. No output is an error.
pub fn encode_chunk(boundary: &ChunkBoundary, data: Vec<u8>) -> (r: Result<
    EncodedChunk,
    EncodeError,
>)
    ensures
        r == (if data@.len() == 0 {
            Err::<EncodedChunk, EncodeError>(
                EncodeError::NoOutput { sequence: boundary.sequence, pts_us: boundary.pts_us },
            )
        } else {
            Ok(
                EncodedChunk {
                    sequence: boundary.sequence,
                    pts_us: boundary.pts_us,
                    duration_us: boundary.duration_us,
                    keyframe_snapped: boundary.keyframe_snapped,
                    chapter_index: match boundary.chapter_index {
                        Some(c) => c,
                        None => 0,
                    },
                    data,
                },
            )
        }),
{
    if data.len() == 0 {
        Err(EncodeError::NoOutput { sequence: boundary.sequence, pts_us: boundary.pts_us })
    } else {
        Ok(
            EncodedChunk {
                sequence: boundary.sequence,
                pts_us: boundary.pts_us,
                duration_us: boundary.duration_us,
                keyframe_snapped: boundary.keyframe_snapped,
                chapter_index: match boundary.chapter_index {
                    Some(c) => c,
                    None => 0,
                },
                data,
            },
        )
    }
}

/// `r` is the message that carries `chunk` in the session `session_id`.
pub open spec fn packs(r: StreamChunk, chunk: EncodedChunk, session_id: [u8; 32]) -> bool {
    &&& r.session_id == session_id
    &&& r.sequence == chunk.sequence
    &&& r.chapter_index == chunk.chapter_index
    &&& r.pts_us == chunk.pts_us
    &&& r.keyframe == chunk.keyframe_snapped
    &&& r.payload == chunk.data
    &&& r.hmac@ == chunk_code(session_id@, chunk.sequence, chunk.data@)
}

/// The message that carries a chunk, with its authentication code.
pub fn make_stream_chunk(chunk: EncodedChunk, session_id: &[u8; 32]) -> (r: StreamChunk)
    ensures
        packs(r, chunk, *session_id),
{
    let hmac = compute_hmac(session_id, chunk.sequence, chunk.data.as_slice());
    StreamChunk {
        session_id: *session_id,
        sequence: chunk.sequence,
        chapter_index: chunk.chapter_index,
        pts_us: chunk.pts_us,
        keyframe: chunk.keyframe_snapped,
        payload: chunk.data,
        hmac,
    }
}

/// Every chunk that a host packs is accepted by the peers of its session.
pub proof fn law_packed_chunk_is_authentic(
    message: StreamChunk,
    chunk: EncodedChunk,
    session_id: [u8; 32],
)
    requires
        packs(message, chunk, session_id),
    ensures
        authentic(message, session_id@),
        authentic(message, message.session_id@),
{
}

/// `ffmpeg` is asked for the chunk and nothing else: the position behind `-ss` reads as where the chunk
/// starts, and the one behind `-t` as how long it is, to the microsecond. The source stands between
/// them behind its own flags, and all streams of it are copied into MPEG-TS that keeps its
/// timestamps.
pub proof fn law_command_asks_for_the_chunk(
    input_flags: Seq<Seq<char>>,
    input_spec: Seq<char>,
    boundary: ChunkBoundary,
)
    requires
        boundary.pts_us > i64::MIN,
        boundary.duration_us <= i64::MAX,
    ensures
        ({
            let args = encode_command(input_flags, input_spec, boundary);
            let n = input_flags.len() as int;
            &&& args.len() == n + 15
            &&& args[0] == "-ss"@
            &&& decimal_number(args[1]) == Some(boundary.pts_us as int)
            &&& forall|i: int| 0 <= i < n ==> #[trigger] args[i + 2] == input_flags[i]
            &&& args[n + 2] == "-i"@
            &&& args[n + 3] == input_spec
            &&& args[n + 4] == "-t"@
            &&& decimal_number(args[n + 5]) == Some(boundary.duration_us as int)
            &&& args.skip(n + 6) == seq![
                "-c"@,
                "copy"@,
                "-map"@,
                "0"@,
                "-f"@,
                "mpegts"@,
                "-mpegts_copyts"@,
                "1"@,
                "pipe:1"@,
            ]
        }),
{
    law_position_reads_back(boundary.pts_us);
    law_position_reads_back(boundary.duration_us as i64);
}

/// The ranges that are asked for cover the media without a gap: what is asked for behind `-t` reaches
/// from the position of one chunk to that of the next.
#[verifier::spinoff_prover]
pub proof fn law_commands_leave_no_gap(
    input_flags: Seq<Seq<char>>,
    input_spec: Seq<char>,
    map: Seq<ChunkBoundary>,
    duration_us: int,
    keyframes: Seq<i64>,
    config: StreamConfig,
    i: int,
)
    requires
        is_chunk_map(map, duration_us, keyframes, config),
        forall|a: int, b: int|
            0 <= a <= b < keyframes.len() ==> #[trigger] keyframes[a] <= #[trigger] keyframes[b],
        0 <= i < map.len() - 1,
        map[i].pts_us > i64::MIN,
        map[i].duration_us <= i64::MAX,
    ensures
        ({
            let here = encode_command(input_flags, input_spec, map[i]);
            let next = encode_command(input_flags, input_spec, map[i + 1]);
            let n = input_flags.len() as int;
            decimal_number(here[1])->0 + decimal_number(here[n + 5])->0 == decimal_number(next[1])->0
        }),
{
    let n = input_flags.len() as int;
    let here = encode_command(input_flags, input_spec, map[i]);
    let next = encode_command(input_flags, input_spec, map[i + 1]);
    assert(map[i].pts_us + map[i].duration_us == map[i + 1].pts_us) by {
        law_chunks_meet(map, duration_us, keyframes, config, i);
    }
    assert(decimal_number(here[1]) == Some(map[i].pts_us as int) && decimal_number(here[n + 5])
        == Some(map[i].duration_us as int)) by {
        law_command_asks_for_the_chunk(input_flags, input_spec, map[i]);
    }
    assert(decimal_number(next[1]) == Some(map[i + 1].pts_us as int)) by {
        lemma_position_argument(input_flags, input_spec, map[i + 1]);
    }
}

proof fn lemma_position_argument(
    input_flags: Seq<Seq<char>>,
    input_spec: Seq<char>,
    boundary: ChunkBoundary,
)
    requires
        boundary.pts_us > i64::MIN,
    ensures
        decimal_number(encode_command(input_flags, input_spec, boundary)[1]) == Some(
            boundary.pts_us as int,
        ),
{
    law_position_reads_back(boundary.pts_us);
    assert(encode_command(input_flags, input_spec, boundary)[1] == seconds(boundary.pts_us as int));
}

/// A message carries the chunk as it is, under its own number and session.
pub proof fn law_message_carries_the_chunk(
    message: StreamChunk,
    chunk: EncodedChunk,
    session_id: [u8; 32],
)
    requires
        packs(message, chunk, session_id),
    ensures
        message.session_id == session_id,
        message.sequence == chunk.sequence,
        message.chapter_index == chunk.chapter_index,
        message.pts_us == chunk.pts_us,
        message.keyframe == chunk.keyframe_snapped,
        message.payload@ == chunk.data@,
{
}

} // verus!
