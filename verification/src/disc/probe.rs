//! Container and stream metadata, as `ffprobe` reports it.
use vstd::prelude::*;

use crate::number::{
    decimal_number, has_nonzero_digit, is_nonzero, parse_millionths, parse_u64, whole_number,
};
use crate::protocol::manifest::{copy_text, copy_tracks, AudioTrack, FrameRate};
use crate::text::{
    find_char, is_text, lemma_position_of, position_of, push_text, push_texts, texts, words,
    MICROS_PER_SEC,
};

verus! {

/// What is known of a source after probing.
#[derive(Debug, Clone)]
pub struct ProbeResult {
    pub video: VideoStreamInfo,
    pub audio_tracks: Vec<AudioTrack>,
    /// Total duration in microseconds; `None` for live sources and unknown durations.
    pub duration_us: Option<i64>,
    /// Name of the container format.
    pub format_name: String,
    /// Average bitrate of the container in kilobits per second, if reported.
    pub avg_bitrate_kbps: Option<u32>,
}

/// The video stream of a source.
#[derive(Debug, Clone)]
pub struct VideoStreamInfo {
    /// Short name of the codec, such as `h264`.
    pub codec: String,
    pub width: u16,
    pub height: u16,
    /// Frames per second.
    pub framerate: FrameRate,
    /// Average bitrate of the stream in kilobits per second, if reported.
    pub avg_bitrate_kbps: Option<u32>,
}

/// Two results say the same, field for field.
pub open spec fn same_probe(a: ProbeResult, b: ProbeResult) -> bool {
    &&& a.video == b.video
    &&& a.audio_tracks@ == b.audio_tracks@
    &&& a.duration_us == b.duration_us
    &&& a.format_name == b.format_name
    &&& a.avg_bitrate_kbps == b.avg_bitrate_kbps
}

/// A copy of a result.
pub fn copy_probe(probe: &ProbeResult) -> (r: ProbeResult)
    ensures
        same_probe(r, *probe),
{
    ProbeResult {
        video: VideoStreamInfo {
            codec: probe.video.codec.clone(),
            width: probe.video.width,
            height: probe.video.height,
            framerate: probe.video.framerate,
            avg_bitrate_kbps: probe.video.avg_bitrate_kbps,
        },
        audio_tracks: copy_tracks(&probe.audio_tracks),
        duration_us: probe.duration_us,
        format_name: probe.format_name.clone(),
        avg_bitrate_kbps: probe.avg_bitrate_kbps,
    }
}

/// The report of `ffprobe`, field by field.
#[derive(Debug)]
pub struct FfprobeOutput {
    pub streams: Vec<FfprobeStream>,
    pub format: FfprobeFormat,
}

/// One stream of the report.
#[derive(Debug)]
pub struct FfprobeStream {
    pub codec_type: Option<String>,
    pub codec_name: Option<String>,
    pub width: Option<u16>,
    pub height: Option<u16>,
    pub r_frame_rate: Option<String>,
    pub avg_frame_rate: Option<String>,
    pub bit_rate: Option<String>,
    pub channels: Option<u8>,
    pub tags: Option<FfprobeTags>,
}

/// The tags of a stream.
#[derive(Debug)]
pub struct FfprobeTags {
    pub language: Option<String>,
}

/// The container in the report.
#[derive(Debug)]
pub struct FfprobeFormat {
    pub duration: Option<String>,
    pub bit_rate: Option<String>,
    pub format_name: Option<String>,
}

/// Why a report is of no use.
#[derive(Debug, Clone, Copy, PartialEq, Eq, Structural)]
pub enum ProbeError {
    NoVideoStream,
    NoCodecName,
    NoWidth,
    NoHeight,
}

impl ProbeError {
    /// The message for a person.
    pub fn message(&self) -> (r: &'static str)
        ensures
            r@ == (match *self {
                ProbeError::NoVideoStream => "no video stream found in media"@,
                ProbeError::NoCodecName => "video stream has no codec_name"@,
                ProbeError::NoWidth => "video stream has no width"@,
                ProbeError::NoHeight => "video stream has no height"@,
            }),
    {
        match self {
            ProbeError::NoVideoStream => "no video stream found in media",
            ProbeError::NoCodecName => "video stream has no codec_name",
            ProbeError::NoWidth => "video stream has no width",
            ProbeError::NoHeight => "video stream has no height",
        }
    }
}

// ── The command ───────────────────────────────────────────────────────────────

/// The arguments of `ffprobe` for a report.
pub fn probe_args(input_flags: &[&str], input_spec: &str) -> (r: Vec<String>)
    ensures
        texts(r@) == seq![
            "-v"@,
            "quiet"@,
            "-print_format"@,
            "json"@,
            "-show_streams"@,
            "-show_format"@,
        ] + words(input_flags@) + seq![input_spec@],
{
    let mut args: Vec<String> = Vec::new();
    push_text(&mut args, "-v");
    push_text(&mut args, "quiet");
    push_text(&mut args, "-print_format");
    push_text(&mut args, "json");
    push_text(&mut args, "-show_streams");
    push_text(&mut args, "-show_format");
    push_texts(&mut args, input_flags);
    push_text(&mut args, input_spec);
    assert(texts(args@) =~= seq![
        "-v"@,
        "quiet"@,
        "-print_format"@,
        "json"@,
        "-show_streams"@,
        "-show_format"@,
    ] + words(input_flags@) + seq![input_spec@]);
    args
}

// ── Rates ─────────────────────────────────────────────────────────────────────

/// A decimal in millionths, or `default` where the text is no number.
pub open spec fn decimal_or(s: Seq<char>, default: int) -> int {
    match decimal_number(s) {
        Some(v) => v,
        None => default,
    }
}

/// What a rate such as `24000/1001` stands for. A missing or unreadable numerator counts as zero, a
/// missing or unreadable denominator as one, and a rate over zero as zero.
pub open spec fn frame_rate(s: Seq<char>) -> FrameRate {
    let slash = position_of(s, '/', 0);
    let num = decimal_or(s.subrange(0, slash), 0);
    let den = if slash < s.len() {
        decimal_or(s.subrange(slash + 1, s.len() as int), MICROS_PER_SEC as int)
    } else {
        MICROS_PER_SEC as int
    };
    if den == 0 {
        FrameRate { num: 0, den: MICROS_PER_SEC }
    } else {
        FrameRate { num: num as i64, den: den as i64 }
    }
}

/// The rate that `ffprobe` writes as a fraction: `24000/1001`, `30/1`, `0/0`.
pub fn parse_rate(s: &str) -> (r: FrameRate)
    ensures
        r == frame_rate(s@),
        r.den != 0,
{
    let slash = find_char(s, '/');
    let num: i64 = match parse_millionths(s.substring_char(0, slash)) {
        Some(v) => v,
        None => 0,
    };
    let len = s.unicode_len();
    let den: i64 = if slash < len {
        match parse_millionths(s.substring_char(slash + 1, len)) {
            Some(v) => v,
            None => MICROS_PER_SEC,
        }
    } else {
        MICROS_PER_SEC
    };
    if den == 0 {
        FrameRate { num: 0, den: MICROS_PER_SEC }
    } else {
        FrameRate { num, den }
    }
}

// ── The report ────────────────────────────────────────────────────────────────

/// A stream is of the given type.
pub open spec fn is_type(stream: FfprobeStream, kind: Seq<char>) -> bool {
    stream.codec_type matches Some(t) && t@ == kind
}

/// The streams of a type, in order.
pub open spec fn of_type(streams: Seq<FfprobeStream>, kind: Seq<char>) -> Seq<FfprobeStream>
    decreases streams.len(),
{
    if streams.len() == 0 {
        Seq::empty()
    } else if is_type(streams.last(), kind) {
        of_type(streams.drop_last(), kind).push(streams.last())
    } else {
        of_type(streams.drop_last(), kind)
    }
}

/// Kilobits per second of a bitrate in bits per second; the 32 lowest bits of it.
pub open spec fn kbps(bit_rate: Option<String>) -> Option<u32> {
    match bit_rate {
        Some(t) => match whole_number(t@) {
            Some(bps) => Some(((bps / 1000) % 0x1_0000_0000) as u32),
            None => None,
        },
        None => None,
    }
}

/// The frame rate text of a stream: the average rate if there is one, else the base rate.
pub open spec fn rate_text(stream: FfprobeStream) -> Seq<char> {
    match stream.avg_frame_rate {
        Some(t) => t@,
        None => match stream.r_frame_rate {
            Some(t) => t@,
            None => "0/1"@,
        },
    }
}

/// `v` describes the video stream `stream`.
pub open spec fn describes_video(v: VideoStreamInfo, stream: FfprobeStream) -> bool {
    &&& stream.codec_name == Some(v.codec)
    &&& stream.width == Some(v.width)
    &&& stream.height == Some(v.height)
    &&& v.framerate == frame_rate(rate_text(stream))
    &&& v.avg_bitrate_kbps == kbps(stream.bit_rate)
}

/// `track` describes the audio stream `stream`, the one at `i` among the audio streams.
pub open spec fn describes_audio(track: AudioTrack, stream: FfprobeStream, i: int) -> bool {
    &&& track.index == i % 65_536
    &&& track.codec@ == (match stream.codec_name {
        Some(c) => c@,
        None => "unknown"@,
    })
    &&& track.language == (match stream.tags {
        Some(t) => t.language,
        None => None,
    })
    &&& track.channels == (match stream.channels {
        Some(c) => c,
        None => 2,
    })
}

/// `tracks` are the audio tracks of the streams, in order.
pub open spec fn describes_tracks(tracks: Seq<AudioTrack>, streams: Seq<FfprobeStream>) -> bool {
    let audio = of_type(streams, "audio"@);
    &&& tracks.len() == audio.len()
    &&& forall|i: int| 0 <= i < tracks.len() ==> describes_audio(#[trigger] tracks[i], audio[i], i)
}

/// A duration that is known is a positive number of microseconds. One that is positive but rounds to
/// none counts as one microsecond.
pub open spec fn known_duration(text: Option<String>) -> Option<int> {
    match text {
        Some(t) => match decimal_number(t@) {
            Some(us) => if us > 0 {
                Some(us)
            } else if us == 0 && t@[0] != '-' && is_nonzero(t@) {
                Some(1)
            } else {
                None
            },
            None => None,
        },
        None => None,
    }
}

/// Why a report is refused, the first reason that holds.
pub open spec fn refusal(raw: FfprobeOutput) -> Option<ProbeError> {
    let video = of_type(raw.streams@, "video"@);
    if video.len() == 0 {
        Some(ProbeError::NoVideoStream)
    } else if video[0].codec_name is None {
        Some(ProbeError::NoCodecName)
    } else if video[0].width is None {
        Some(ProbeError::NoWidth)
    } else if video[0].height is None {
        Some(ProbeError::NoHeight)
    } else {
        None
    }
}

/// `p` is what the report says.
pub open spec fn describes(p: ProbeResult, raw: FfprobeOutput) -> bool {
    &&& describes_video(p.video, of_type(raw.streams@, "video"@)[0])
    &&& describes_tracks(p.audio_tracks@, raw.streams@)
    &&& match p.duration_us {
        Some(us) => known_duration(raw.format.duration) == Some(us as int),
        None => known_duration(raw.format.duration) is None,
    }
    &&& p.avg_bitrate_kbps == kbps(raw.format.bit_rate)
    &&& p.format_name@ == (match raw.format.format_name {
        Some(n) => n@,
        None => "unknown"@,
    })
}

/// `r` is what comes of reading a report.
pub open spec fn is_reading_of(r: Result<ProbeResult, ProbeError>, raw: FfprobeOutput) -> bool {
    match r {
        Ok(p) => refusal(raw) is None && describes(p, raw),
        Err(e) => refusal(raw) == Some(e),
    }
}

proof fn lemma_of_type_grows(streams: Seq<FfprobeStream>, kind: Seq<char>, n: int)
    requires
        0 <= n <= streams.len(),
    ensures
        of_type(streams.take(n), kind).len() <= of_type(streams, kind).len(),
        of_type(streams.take(n), kind) =~= of_type(streams, kind).take(
            of_type(streams.take(n), kind).len() as int,
        ),
    decreases streams.len(),
{
    if n < streams.len() {
        lemma_of_type_grows(streams.drop_last(), kind, n);
        assert(streams.drop_last().take(n) =~= streams.take(n));
    } else {
        assert(streams.take(n) =~= streams);
    }
}

/// The position of the first video stream.
fn find_video(streams: &Vec<FfprobeStream>) -> (r: Option<usize>)
    ensures
        match r {
            Some(i) => {
                &&& i < streams.len()
                &&& of_type(streams@, "video"@).len() > 0
                &&& of_type(streams@, "video"@)[0] == streams@[i as int]
            },
            None => of_type(streams@, "video"@).len() == 0,
        },
{
    let mut i: usize = 0;
    while i < streams.len()
        invariant
            i <= streams.len(),
            of_type(streams@.take(i as int), "video"@).len() == 0,
        decreases streams.len() - i,
    {
        assert(streams@.take(i + 1).drop_last() =~= streams@.take(i as int));
        assert(streams@.take(i + 1).last() == streams@[i as int]);
        if is_text(&streams[i].codec_type, "video") {
            proof {
                lemma_of_type_grows(streams@, "video"@, i + 1);
                let found = of_type(streams@.take(i + 1), "video"@);
                assert(found == of_type(streams@.take(i as int), "video"@).push(streams@[i as int]));
                assert(found[0] == streams@[i as int]);
                assert(of_type(streams@, "video"@).take(found.len() as int)[0] == found[0]);
            }
            return Some(i);
        }
        i = i + 1;
    }
    assert(streams@.take(streams@.len() as int) =~= streams@);
    None
}

fn parse_kbps(bit_rate: &Option<String>) -> (r: Option<u32>)
    ensures
        r == kbps(*bit_rate),
{
    match bit_rate {
        Some(t) => match parse_u64(t.as_str()) {
            Some(bps) => Some(((bps / 1000) % 0x1_0000_0000) as u32),
            None => None,
        },
        None => None,
    }
}

fn parse_duration(text: &Option<String>) -> (r: Option<i64>)
    ensures
        match r {
            Some(us) => known_duration(*text) == Some(us as int),
            None => known_duration(*text) is None,
        },
{
    match text {
        Some(t) => match parse_millionths(t.as_str()) {
            Some(us) => if us > 0 {
                Some(us)
            } else if us == 0 && find_char(t.as_str(), '-') != 0 && has_nonzero_digit(t.as_str()) {
                Some(1)
            } else {
                None
            },
            None => None,
        },
        None => None,
    }
}

fn parse_stream_rate(stream: &FfprobeStream) -> (r: FrameRate)
    ensures
        r == frame_rate(rate_text(*stream)),
{
    match &stream.avg_frame_rate {
        Some(t) => parse_rate(t.as_str()),
        None => match &stream.r_frame_rate {
            Some(t) => parse_rate(t.as_str()),
            None => parse_rate("0/1"),
        },
    }
}

fn parse_track(stream: &FfprobeStream, i: usize) -> (r: AudioTrack)
    ensures
        describes_audio(r, *stream, i as int),
{
    AudioTrack {
        index: (i % 65_536) as u16,
        codec: match &stream.codec_name {
            Some(c) => c.clone(),
            None => "unknown".to_owned(),
        },
        language: match &stream.tags {
            Some(t) => copy_text(&t.language),
            None => None,
        },
        channels: match stream.channels {
            Some(c) => c,
            None => 2,
        },
    }
}

fn parse_tracks(streams: &Vec<FfprobeStream>) -> (r: Vec<AudioTrack>)
    ensures
        describes_tracks(r@, streams@),
{
    let mut tracks: Vec<AudioTrack> = Vec::new();
    let mut i: usize = 0;
    while i < streams.len()
        invariant
            i <= streams.len(),
            describes_tracks(tracks@, streams@.take(i as int)),
        decreases streams.len() - i,
    {
        let ghost before = of_type(streams@.take(i as int), "audio"@);
        assert(streams@.take(i + 1).drop_last() =~= streams@.take(i as int));
        assert(streams@.take(i + 1).last() == streams@[i as int]);
        if is_text(&streams[i].codec_type, "audio") {
            let n = tracks.len();
            tracks.push(parse_track(&streams[i], n));
            assert(of_type(streams@.take(i + 1), "audio"@) == before.push(streams@[i as int]));
        }
        i = i + 1;
    }
    assert(streams@.take(streams@.len() as int) =~= streams@);
    tracks
}

/// What a report of `ffprobe` says of a source.
pub fn parse_output(raw: &FfprobeOutput) -> (r: Result<ProbeResult, ProbeError>)
    ensures
        is_reading_of(r, *raw),
{
    let at = match find_video(&raw.streams) {
        Some(i) => i,
        None => {
            return Err(ProbeError::NoVideoStream);
        },
    };
    let stream = &raw.streams[at];
    let codec = match &stream.codec_name {
        Some(c) => c.clone(),
        None => {
            return Err(ProbeError::NoCodecName);
        },
    };
    let width = match stream.width {
        Some(w) => w,
        None => {
            return Err(ProbeError::NoWidth);
        },
    };
    let height = match stream.height {
        Some(h) => h,
        None => {
            return Err(ProbeError::NoHeight);
        },
    };
    let video = VideoStreamInfo {
        codec,
        width,
        height,
        framerate: parse_stream_rate(stream),
        avg_bitrate_kbps: parse_kbps(&stream.bit_rate),
    };
    Ok(
        ProbeResult {
            video,
            audio_tracks: parse_tracks(&raw.streams),
            duration_us: parse_duration(&raw.format.duration),
            format_name: match &raw.format.format_name {
                Some(n) => n.clone(),
                None => "unknown".to_owned(),
            },
            avg_bitrate_kbps: parse_kbps(&raw.format.bit_rate),
        },
    )
}

// ── Laws ──────────────────────────────────────────────────────────────────────

proof fn lemma_none_of_type(streams: Seq<FfprobeStream>, kind: Seq<char>)
    requires
        forall|j: int|
            0 <= j < streams.len() ==> !((#[trigger] streams[j]).codec_type matches Some(t) && t@
                == kind),
    ensures
        of_type(streams, kind).len() == 0,
    decreases streams.len(),
{
    if streams.len() > 0 {
        assert(!is_type(streams[streams.len() - 1], kind));
        assert forall|j: int| 0 <= j < streams.drop_last().len() implies !((
        #[trigger] streams.drop_last()[j]).codec_type matches Some(t) && t@ == kind) by {
            assert(streams.drop_last()[j] == streams[j]);
        }
        lemma_none_of_type(streams.drop_last(), kind);
    }
}

proof fn lemma_first_of_type(streams: Seq<FfprobeStream>, kind: Seq<char>, i: int)
    requires
        0 <= i < streams.len(),
        streams[i].codec_type matches Some(t) && t@ == kind,
        forall|j: int|
            0 <= j < i ==> !((#[trigger] streams[j]).codec_type matches Some(t) && t@ == kind),
    ensures
        of_type(streams, kind).len() > 0,
        of_type(streams, kind)[0] == streams[i],
{
    let upto = streams.take(i + 1);
    assert(upto.drop_last() =~= streams.take(i));
    assert(upto.last() == streams[i]);
    lemma_none_of_type(streams.take(i), kind);
    assert(of_type(upto, kind) == of_type(streams.take(i), kind).push(streams[i]));
    lemma_of_type_grows(streams, kind, i + 1);
    assert(of_type(streams, kind).take(of_type(upto, kind).len() as int)[0] == of_type(upto, kind)[0]);
}

/// The first video stream decides: a report that has one gives its codec, size, rate and bitrate, and
/// fails exactly for what this stream lacks, whatever streams follow.
pub proof fn law_first_video_stream_decides(
    r: Result<ProbeResult, ProbeError>,
    raw: FfprobeOutput,
    i: int,
)
    requires
        is_reading_of(r, raw),
        0 <= i < raw.streams@.len(),
        raw.streams@[i].codec_type matches Some(t) && t@ == "video"@,
        forall|j: int|
            0 <= j < i ==> !((#[trigger] raw.streams@[j]).codec_type matches Some(t) && t@
                == "video"@),
    ensures
        ({
            let stream = raw.streams@[i];
            &&& r == Err::<ProbeResult, ProbeError>(ProbeError::NoCodecName)
                <==> stream.codec_name is None
            &&& r == Err::<ProbeResult, ProbeError>(ProbeError::NoWidth)
                <==> stream.codec_name is Some && stream.width is None
            &&& r == Err::<ProbeResult, ProbeError>(ProbeError::NoHeight)
                <==> stream.codec_name is Some && stream.width is Some && stream.height is None
            &&& r is Ok <==> stream.codec_name is Some && stream.width is Some
                && stream.height is Some
            &&& r matches Ok(p) ==> {
                &&& stream.codec_name == Some(p.video.codec)
                &&& stream.width == Some(p.video.width)
                &&& stream.height == Some(p.video.height)
                &&& stream.avg_frame_rate matches Some(t) ==> p.video.framerate == frame_rate(t@)
                &&& stream.avg_frame_rate is None ==> (stream.r_frame_rate matches Some(t)
                    ==> p.video.framerate == frame_rate(t@))
                &&& stream.avg_frame_rate is None && stream.r_frame_rate is None
                    ==> p.video.framerate == frame_rate("0/1"@)
            }
        }),
{
    lemma_first_of_type(raw.streams@, "video"@, i);
}

/// A report without a video stream is refused for that.
pub proof fn law_media_without_video_is_refused(
    r: Result<ProbeResult, ProbeError>,
    raw: FfprobeOutput,
)
    requires
        is_reading_of(r, raw),
    ensures
        r == Err::<ProbeResult, ProbeError>(ProbeError::NoVideoStream) <==> forall|j: int|
            0 <= j < raw.streams@.len() ==> !((#[trigger] raw.streams@[j]).codec_type matches Some(t)
                && t@ == "video"@),
{
    if forall|j: int|
        0 <= j < raw.streams@.len() ==> !((#[trigger] raw.streams@[j]).codec_type matches Some(t)
            && t@ == "video"@) {
        lemma_none_of_type(raw.streams@, "video"@);
    } else {
        let some = choose|j: int|
            0 <= j < raw.streams@.len() && ((#[trigger] raw.streams@[j]).codec_type matches Some(t)
                && t@ == "video"@);
        lemma_has_of_type(raw.streams@, "video"@, some);
    }
}

proof fn lemma_has_of_type(streams: Seq<FfprobeStream>, kind: Seq<char>, i: int)
    requires
        0 <= i < streams.len(),
        streams[i].codec_type matches Some(t) && t@ == kind,
    ensures
        of_type(streams, kind).len() > 0,
    decreases streams.len(),
{
    if i < streams.len() - 1 {
        assert(streams.drop_last()[i] == streams[i]);
        lemma_has_of_type(streams.drop_last(), kind, i);
    }
}

/// Every audio stream becomes one track, in order: a report with one more stream at its end has one
/// more track at its end if that is an audio stream, with what the stream says, and the same tracks
/// if it is not. A report without audio streams has none.
pub proof fn law_audio_streams_become_tracks(
    r: Result<ProbeResult, ProbeError>,
    raw: FfprobeOutput,
    longer_r: Result<ProbeResult, ProbeError>,
    longer: FfprobeOutput,
    stream: FfprobeStream,
)
    requires
        is_reading_of(r, raw),
        is_reading_of(longer_r, longer),
        longer.streams@ == raw.streams@.push(stream),
    ensures
        (r matches Ok(p) && longer_r matches Ok(q)) ==> {
            let before = r->Ok_0.audio_tracks@;
            let after = longer_r->Ok_0.audio_tracks@;
            let audio = stream.codec_type matches Some(t) && t@ == "audio"@;
            &&& after.len() == before.len() + if audio {
                1int
            } else {
                0int
            }
            &&& forall|k: int|
                0 <= k < before.len() ==> {
                    &&& (#[trigger] after[k]).index == before[k].index
                    &&& after[k].codec@ == before[k].codec@
                    &&& after[k].language == before[k].language
                    &&& after[k].channels == before[k].channels
                }
            &&& audio ==> {
                let track = after.last();
                &&& track.index == before.len() % 65_536
                &&& track.codec@ == (match stream.codec_name {
                    Some(c) => c@,
                    None => "unknown"@,
                })
                &&& track.language == (match stream.tags {
                    Some(t) => t.language,
                    None => None,
                })
                &&& track.channels == (match stream.channels {
                    Some(c) => c,
                    None => 2,
                })
            }
        },
        (r matches Ok(p) && (forall|j: int|
            0 <= j < raw.streams@.len() ==> !((#[trigger] raw.streams@[j]).codec_type matches Some(t)
                && t@ == "audio"@))) ==> r->Ok_0.audio_tracks@.len() == 0,
{
    assert(longer.streams@.drop_last() =~= raw.streams@);
    assert(longer.streams@.last() == stream);
    if forall|j: int|
        0 <= j < raw.streams@.len() ==> !((#[trigger] raw.streams@[j]).codec_type matches Some(t)
            && t@ == "audio"@) {
        lemma_none_of_type(raw.streams@, "audio"@);
    }
    if r is Ok && longer_r is Ok {
        let before = r->Ok_0.audio_tracks@;
        let after = longer_r->Ok_0.audio_tracks@;
        let short = of_type(raw.streams@, "audio"@);
        let long = of_type(longer.streams@, "audio"@);
        assert(long == short || long == short.push(stream));
        assert forall|k: int| 0 <= k < before.len() implies {
            &&& (#[trigger] after[k]).index == before[k].index
            &&& after[k].codec@ == before[k].codec@
            &&& after[k].language == before[k].language
            &&& after[k].channels == before[k].channels
        } by {
            assert(describes_audio(before[k], short[k], k));
            assert(describes_audio(after[k], long[k], k));
            assert(short[k] == long[k]);
        }
        if is_type(stream, "audio"@) {
            let k = before.len() as int;
            assert(describes_audio(after[k], long[k], k));
        }
    }
}

/// A duration that reads as a positive number is known, as that number of microseconds; none that is
/// missing, unreadable, negative or zero is.
pub proof fn law_positive_durations_are_known(
    r: Result<ProbeResult, ProbeError>,
    raw: FfprobeOutput,
)
    requires
        is_reading_of(r, raw),
    ensures
        r matches Ok(p) ==> {
            &&& raw.format.duration is None ==> p.duration_us is None
            &&& raw.format.duration matches Some(t) ==> match decimal_number(t@) {
                Some(us) => {
                    &&& us > 0 ==> (p.duration_us matches Some(d) && d == us)
                    &&& us < 0 ==> p.duration_us is None
                    &&& us == 0 && (forall|j: int| 0 <= j < t@.len() ==> !('1' <= #[trigger] t@[j]
                        <= '9')) ==> p.duration_us is None
                },
                None => p.duration_us is None,
            }
            &&& p.duration_us matches Some(d) ==> d > 0
        },
{
}

/// A bitrate in bits per second is told in whole kilobits, rounded down, of the container and of the
/// first video stream alike; one that is missing or unreadable is not told. What becomes of more
/// kilobits than a `u32` holds is left open.
pub proof fn law_bitrates_are_told_in_kilobits(
    r: Result<ProbeResult, ProbeError>,
    raw: FfprobeOutput,
    i: int,
)
    requires
        is_reading_of(r, raw),
        0 <= i < raw.streams@.len(),
        raw.streams@[i].codec_type matches Some(t) && t@ == "video"@,
        forall|j: int|
            0 <= j < i ==> !((#[trigger] raw.streams@[j]).codec_type matches Some(t) && t@
                == "video"@),
    ensures
        r matches Ok(p) ==> {
            &&& match raw.format.bit_rate {
                Some(t) => match whole_number(t@) {
                    Some(bps) => p.avg_bitrate_kbps matches Some(k) && (bps < 4_294_967_296_000
                        ==> 1000 * k <= bps < 1000 * k + 1000),
                    None => p.avg_bitrate_kbps is None,
                },
                None => p.avg_bitrate_kbps is None,
            }
            &&& match raw.streams@[i].bit_rate {
                Some(t) => match whole_number(t@) {
                    Some(bps) => p.video.avg_bitrate_kbps matches Some(k) && (bps < 4_294_967_296_000
                        ==> 1000 * k <= bps < 1000 * k + 1000),
                    None => p.video.avg_bitrate_kbps is None,
                },
                None => p.video.avg_bitrate_kbps is None,
            }
            &&& raw.format.format_name matches Some(n) ==> p.format_name@ == n@
            &&& raw.format.format_name is None ==> p.format_name@ == "unknown"@
        },
{
    lemma_first_of_type(raw.streams@, "video"@, i);
}

/// A rate is the quotient that it spells out: `x/y` reads as the number before the slash over the one
/// behind it, and a text without a slash as that number over one. A number that is unreadable counts
/// as zero before the slash and as one behind it, and a rate over zero as zero.
pub proof fn law_rate_is_its_quotient(a: Seq<char>, b: Seq<char>)
    requires
        forall|i: int| 0 <= i < a.len() ==> #[trigger] a[i] != '/',
    ensures
        ({
            let x = match decimal_number(a) {
                Some(v) => v,
                None => 0,
            };
            let y = match decimal_number(b) {
                Some(v) => v,
                None => 1_000_000,
            };
            let rate = frame_rate(a + seq!['/'] + b);
            let plain = frame_rate(a);
            &&& y != 0 ==> rate.num == x && rate.den == y
            &&& y == 0 ==> rate.num == 0 && rate.den != 0
            &&& plain.num == x && plain.den == 1_000_000
        }),
{
    let n = a.len() as int;
    let s = a + seq!['/'] + b;
    assert(s[n] == '/');
    assert forall|i: int| 0 <= i < n implies #[trigger] s[i] != '/' by {
        assert(s[i] == a[i]);
    }
    lemma_position_of(s, '/', 0, n);
    assert(s.subrange(0, n) =~= a);
    assert(s.subrange(n + 1, s.len() as int) =~= b);
    lemma_position_of(a, '/', 0, n);
    assert(a.subrange(0, n) =~= a);
}

} // verus!
