//! What the screen says: every line of it as text with a tone, and the numbers in them.
//!
//! The program lays the lines out and gives each tone a colour.
use vstd::prelude::*;

use crate::disc::keyframes::Fraction;
use crate::disc::optical::DiscPath;
use crate::disc::probe::ProbeResult;
use crate::protocol::manifest::{
    AudioTrack, ChunkBoundary, FrameRate, SessionManifest, VodManifest,
};
use crate::rounding::{
    fixed, law_fixed_decimals_are_nearest, lemma_moderate, lemma_thousandth_to_a_tenth, pow2, product,
    quotient, rounded, whole_part, Float, DOUBLE, SINGLE,
};
use crate::text::{
    all_digits, decimal, decimal_text, digit_char, fixed_digits, fixed_digits_text, is_digit, pow10,
};
use crate::tui::{action_of, App, KeyAction, KeyEvent, TuiState};

verus! {

// ── Numbers ───────────────────────────────────────────────────────────────────

/// A duration in whole seconds: `1h 02m 03s`, or `2m 03s` below an hour.
pub open spec fn duration_label(total: nat) -> Seq<char> {
    let hours = total / 3600;
    let minutes = total % 3600 / 60;
    let seconds = total % 60;
    if hours > 0 {
        decimal(hours) + "h "@ + fixed_digits(minutes, 2) + "m "@ + fixed_digits(seconds, 2)
            + "s"@
    } else {
        decimal(minutes) + "m "@ + fixed_digits(seconds, 2) + "s"@
    }
}

/// The whole seconds of a duration in microseconds; none where it is negative.
pub open spec fn whole_seconds(us: int) -> nat {
    if us < 0 {
        0
    } else {
        (us / 1_000_000) as nat
    }
}

/// A duration in microseconds, shown in whole seconds.
pub fn fmt_duration(us: i64) -> (r: String)
    ensures
        r@ == duration_label(whole_seconds(us as int)),
{
    let total: u64 = if us < 0 {
        0
    } else {
        (us / 1_000_000) as u64
    };
    let h = total / 3600;
    let m = (total % 3600) / 60;
    let s = total % 60;
    if h > 0 {
        let mut out = decimal_text(h);
        out.append("h ");
        out.append(fixed_digits_text(m, 2).as_str());
        out.append("m ");
        out.append(fixed_digits_text(s, 2).as_str());
        out.append("s");
        out
    } else {
        let mut out = decimal_text(m);
        out.append("m ");
        out.append(fixed_digits_text(s, 2).as_str());
        out.append("s");
        out
    }
}

/// A bitrate: kilobits below a thousand of them, else megabits with one decimal, divided in single
/// precision.
pub open spec fn bitrate_label(kbps: nat) -> Seq<char> {
    if kbps >= 1000 {
        fixed(
            quotient(rounded(kbps, 1, SINGLE as nat), rounded(1000, 1, SINGLE as nat), SINGLE as nat),
            1,
        ) + " Mbps"@
    } else {
        decimal(kbps) + " kbps"@
    }
}

/// A bitrate in kilobits per second, as shown.
pub fn fmt_kbps(kbps: u32) -> (r: String)
    ensures
        r@ == bitrate_label(kbps as nat),
{
    if kbps >= 1000 {
        let whole = Float::new(kbps as u64, 1, SINGLE);
        let unit = Float::new(1000, 1, SINGLE);
        proof {
            lemma_moderate(kbps as nat, 1, whole.exponent + SINGLE - 1);
            lemma_moderate(1000, 1, unit.exponent + SINGLE - 1);
        }
        let mut out = whole.divided_by(&unit, SINGLE).fixed_text(1);
        out.append(" Mbps");
        out
    } else {
        let mut out = decimal_text(kbps as u64);
        out.append(" kbps");
        out
    }
}

/// The distance of a number from zero.
pub open spec fn magnitude(n: i64) -> nat {
    if n < 0 {
        (-n) as nat
    } else {
        n as nat
    }
}

/// A frame rate with three decimals: both decimals of the fraction and their quotient in single
/// precision. A rate over zero counts as zero.
pub open spec fn rate_label(rate: FrameRate) -> Seq<char> {
    if rate.den == 0 {
        "0.000"@
    } else {
        let value = fixed(
            quotient(
                rounded(magnitude(rate.num), 1_000_000, SINGLE as nat),
                rounded(magnitude(rate.den), 1_000_000, SINGLE as nat),
                SINGLE as nat,
            ),
            3,
        );
        if (rate.num < 0) != (rate.den < 0) {
            seq!['-'] + value
        } else {
            value
        }
    }
}

fn distance_from_zero(n: i64) -> (r: u64)
    ensures
        r == magnitude(n),
{
    if n < 0 {
        (-(n as i128)) as u64
    } else {
        n as u64
    }
}

/// A frame rate with three decimals.
pub fn fmt_rate(rate: FrameRate) -> (r: String)
    ensures
        r@ == rate_label(rate),
{
    if rate.den == 0 {
        return "0.000".to_owned();
    }
    let num = Float::new(distance_from_zero(rate.num), 1_000_000, SINGLE);
    let den = Float::new(distance_from_zero(rate.den), 1_000_000, SINGLE);
    proof {
        if rate.num != 0 {
            lemma_moderate(magnitude(rate.num), 1_000_000, num.exponent + SINGLE - 1);
        }
        lemma_moderate(magnitude(rate.den), 1_000_000, den.exponent + SINGLE - 1);
    }
    let value = num.divided_by(&den, SINGLE).fixed_text(3);
    if (rate.num < 0) != (rate.den < 0) {
        let mut out = String::new();
        out.push('-');
        out.append(value.as_str());
        assert(out@ =~= rate_label(rate));
        out
    } else {
        value
    }
}

/// A count with a comma between groups of three digits.
pub open spec fn grouped(n: nat) -> Seq<char>
    decreases n,
{
    if n < 1000 {
        decimal(n)
    } else {
        grouped(n / 1000) + ","@ + fixed_digits(n % 1000, 3)
    }
}

/// A count with a comma between groups of three digits.
pub fn fmt_count(n: u64) -> (r: String)
    ensures
        r@ == grouped(n as nat),
    decreases n,
{
    if n < 1000 {
        decimal_text(n)
    } else {
        let mut out = fmt_count(n / 1000);
        out.append(",");
        out.append(fixed_digits_text(n % 1000, 3).as_str());
        out
    }
}

/// An audio track: codec, channels and language.
pub open spec fn track_label(track: AudioTrack) -> Seq<char> {
    track.codec@ + " "@ + decimal(track.channels as nat) + "ch ("@ + (match track.language {
        Some(language) => language@,
        None => "?"@,
    }) + ")"@
}

/// Audio tracks in a row.
pub open spec fn tracks_label(tracks: Seq<AudioTrack>) -> Seq<char>
    decreases tracks.len(),
{
    if tracks.len() == 0 {
        "none"@
    } else if tracks.len() == 1 {
        track_label(tracks[0])
    } else {
        tracks_label(tracks.drop_last()) + "  ·  "@ + track_label(tracks.last())
    }
}

fn push_track(out: &mut String, track: &AudioTrack)
    ensures
        final(out)@ == old(out)@ + track_label(*track),
{
    let ghost before = out@;
    out.append(track.codec.as_str());
    out.append(" ");
    out.append(decimal_text(track.channels as u64).as_str());
    out.append("ch (");
    match &track.language {
        Some(language) => {
            out.append(language.as_str());
        },
        None => {
            out.append("?");
        },
    }
    out.append(")");
    assert(out@ =~= before + track_label(*track));
}

/// Audio tracks in a row.
pub fn fmt_audio_tracks(tracks: &Vec<AudioTrack>) -> (r: String)
    ensures
        r@ == tracks_label(tracks@),
{
    if tracks.len() == 0 {
        return "none".to_owned();
    }
    let mut out = String::new();
    push_track(&mut out, &tracks[0]);
    assert(out@ =~= tracks_label(tracks@.take(1)));
    let mut i: usize = 1;
    while i < tracks.len()
        invariant
            1 <= i <= tracks.len(),
            out@ == tracks_label(tracks@.take(i as int)),
        decreases tracks.len() - i,
    {
        let ghost before = out@;
        out.append("  ·  ");
        push_track(&mut out, &tracks[i]);
        assert(tracks@.take(i + 1).drop_last() =~= tracks@.take(i as int));
        assert(out@ =~= before + "  ·  "@ + track_label(tracks@[i as int]));
        i = i + 1;
    }
    assert(tracks@.take(tracks@.len() as int) =~= tracks@);
    out
}

/// The part of the whole in whole percent. Part and whole are positions in microseconds; their
/// seconds are divided in double precision, and the quotient becomes a percentage in single
/// precision.
pub open spec fn percent_of(fraction: Fraction) -> nat {
    let share = product(
        quotient(
            rounded(fraction.part as nat, 1_000_000, DOUBLE as nat),
            rounded(fraction.whole as nat, 1_000_000, DOUBLE as nat),
            DOUBLE as nat,
        ),
        1,
        SINGLE as nat,
    );
    let percent = whole_part(product(share, 100, SINGLE as nat));
    if percent > u16::MAX {
        u16::MAX as nat
    } else {
        percent
    }
}

/// The part of the whole in whole percent.
pub fn percent(fraction: Fraction) -> (r: u16)
    requires
        fraction.wf(),
    ensures
        r == percent_of(fraction),
{
    let part = Float::new(fraction.part, 1_000_000, DOUBLE);
    let whole = Float::new(fraction.whole, 1_000_000, DOUBLE);
    let ratio = part.divided_by(&whole, DOUBLE);
    let share = ratio.times(1, SINGLE);
    share.times(100, SINGLE).whole()
}

/// A text behind as many blanks as make it `width` characters long.
pub open spec fn right_aligned(s: Seq<char>, width: nat) -> Seq<char>
    decreases width - s.len(),
{
    if s.len() < width {
        right_aligned(seq![' '] + s, width)
    } else {
        s
    }
}

fn align_right(s: &str, width: usize) -> (r: String)
    ensures
        r@ == right_aligned(s@, width as nat),
{
    let mut out = s.to_owned();
    while out.as_str().unicode_len() < width
        invariant
            right_aligned(out@, width as nat) == right_aligned(s@, width as nat),
        decreases width - out@.len(),
    {
        let mut longer = String::new();
        longer.push(' ');
        longer.append(out.as_str());
        assert(longer@ =~= seq![' '] + out@);
        out = longer;
    }
    out
}

/// The label of the progress bar: `{percent}%  {count} keyframes`, in columns.
pub open spec fn gauge_label(fraction: Fraction, keyframes_found: nat) -> Seq<char> {
    right_aligned(decimal(percent_of(fraction)), 3) + "%  "@ + right_aligned(
        grouped(keyframes_found),
        6,
    ) + " keyframes"@
}

/// The label of the progress bar.
pub fn fmt_gauge(fraction: Fraction, keyframes_found: usize) -> (r: String)
    requires
        fraction.wf(),
    ensures
        r@ == gauge_label(fraction, keyframes_found as nat),
{
    let pct = percent(fraction);
    let mut out = align_right(decimal_text(pct as u64).as_str(), 3);
    out.append("%  ");
    out.append(align_right(fmt_count(keyframes_found as u64).as_str(), 6).as_str());
    out.append(" keyframes");
    out
}

// ── Lines ─────────────────────────────────────────────────────────────────────

/// How a piece of text is meant to look.
#[derive(Debug, Clone, Copy, PartialEq, Eq, Structural)]
pub enum Tone {
    /// A heading.
    Title,
    /// The name of a value.
    Label,
    /// A value.
    Value,
    /// Anything that may stand back.
    Dim,
    /// Something to look at.
    Accent,
    /// Success.
    Good,
    /// Failure.
    Error,
    /// A key to press.
    Key,
}

/// A piece of text in one tone.
#[derive(Debug)]
pub struct Span {
    pub text: String,
    pub tone: Tone,
}

impl View for Span {
    type V = (Seq<char>, Tone);

    open spec fn view(&self) -> (Seq<char>, Tone) {
        (self.text@, self.tone)
    }
}

/// The pieces of a line.
pub open spec fn spans(line: Seq<Span>) -> Seq<(Seq<char>, Tone)> {
    Seq::new(line.len(), |i: int| line[i]@)
}

/// The lines of a paragraph.
pub open spec fn paragraph(lines: Seq<Vec<Span>>) -> Seq<Seq<(Seq<char>, Tone)>> {
    Seq::new(lines.len(), |i: int| spans(lines[i]@))
}

fn push_span(line: &mut Vec<Span>, text: &str, tone: Tone)
    ensures
        spans(final(line)@) == spans(old(line)@).push((text@, tone)),
{
    let ghost before = line@;
    line.push(Span { text: text.to_owned(), tone });
    assert(spans(line@) =~= spans(before).push((text@, tone)));
}

fn push_line(lines: &mut Vec<Vec<Span>>, line: Vec<Span>)
    ensures
        paragraph(final(lines)@) == paragraph(old(lines)@).push(spans(line@)),
{
    let ghost before = lines@;
    lines.push(line);
    assert(paragraph(lines@) =~= paragraph(before).push(spans(line@)));
}

fn empty_line() -> (r: Vec<Span>)
    ensures
        spans(r@) == Seq::<(Seq<char>, Tone)>::empty(),
{
    let line: Vec<Span> = Vec::new();
    assert(spans(line@) =~= Seq::<(Seq<char>, Tone)>::empty());
    line
}

fn no_lines() -> (r: Vec<Vec<Span>>)
    ensures
        paragraph(r@) == Seq::<Seq<(Seq<char>, Tone)>>::empty(),
{
    let lines: Vec<Vec<Span>> = Vec::new();
    assert(paragraph(lines@) =~= Seq::<Seq<(Seq<char>, Tone)>>::empty());
    lines
}

/// The header.
pub fn header_line() -> (r: Vec<Span>)
    ensures
        spans(r@) == seq![(" watch-party "@, Tone::Title), ("─── HOST "@, Tone::Dim)],
{
    let mut line = empty_line();
    push_span(&mut line, " watch-party ", Tone::Title);
    push_span(&mut line, "─── HOST ", Tone::Dim);
    assert(spans(line@) =~= seq![(" watch-party "@, Tone::Title), ("─── HOST "@, Tone::Dim)]);
    line
}

/// What is shown before an analysis.
pub open spec fn idle_text(source_path: Option<DiscPath>) -> Seq<Seq<(Seq<char>, Tone)>> {
    match source_path {
        None => seq![
            seq![],
            seq![("  No disc path provided."@, Tone::Dim)],
            seq![],
            seq![
                ("  Run with a path:  "@, Tone::Dim),
                ("watch-party D:\\"@, Tone::Accent),
                ("   or   "@, Tone::Dim),
                ("watch-party /dev/sr0"@, Tone::Accent),
            ],
            seq![
                ("                    "@, Tone::Dim),
                ("watch-party /path/to/movie.iso"@, Tone::Accent),
            ],
        ],
        Some(path) => seq![
            seq![],
            seq![("  Source:  "@, Tone::Label), (path.text_or(""@), Tone::Value)],
            seq![],
            seq![
                ("  Press "@, Tone::Dim),
                ("a"@, Tone::Key),
                (" to begin analysis."@, Tone::Dim),
            ],
        ],
    }
}

/// What is shown before an analysis.
pub fn idle_lines(source_path: &Option<DiscPath>) -> (r: Vec<Vec<Span>>)
    ensures
        paragraph(r@) == idle_text(*source_path),
{
    let mut lines = no_lines();
    push_line(&mut lines, empty_line());
    match source_path {
        None => {
            let mut missing = empty_line();
            push_span(&mut missing, "  No disc path provided.", Tone::Dim);
            let mut usage = empty_line();
            push_span(&mut usage, "  Run with a path:  ", Tone::Dim);
            push_span(&mut usage, "watch-party D:\\", Tone::Accent);
            push_span(&mut usage, "   or   ", Tone::Dim);
            push_span(&mut usage, "watch-party /dev/sr0", Tone::Accent);
            let mut image = empty_line();
            push_span(&mut image, "                    ", Tone::Dim);
            push_span(&mut image, "watch-party /path/to/movie.iso", Tone::Accent);
            push_line(&mut lines, missing);
            push_line(&mut lines, empty_line());
            push_line(&mut lines, usage);
            push_line(&mut lines, image);
        },
        Some(path) => {
            let mut source = empty_line();
            push_span(&mut source, "  Source:  ", Tone::Label);
            push_span(&mut source, path.to_str_or(""), Tone::Value);
            let mut hint = empty_line();
            push_span(&mut hint, "  Press ", Tone::Dim);
            push_span(&mut hint, "a", Tone::Key);
            push_span(&mut hint, " to begin analysis.", Tone::Dim);
            push_line(&mut lines, source);
            push_line(&mut lines, empty_line());
            push_line(&mut lines, hint);
        },
    }
    assert(paragraph(lines@) =~~= idle_text(*source_path));
    lines
}

/// The title of a running analysis.
pub fn analyzing_title(source_name: &str) -> (r: String)
    ensures
        r@ == " Analyzing: "@ + source_name@ + " "@,
{
    let mut out = " Analyzing: ".to_owned();
    out.append(source_name);
    out.append(" ");
    out
}

/// The title of a finished analysis.
pub fn ready_title(source_name: &str) -> (r: String)
    ensures
        r@ == " Ready: "@ + source_name@ + " "@,
{
    let mut out = " Ready: ".to_owned();
    out.append(source_name);
    out.append(" ");
    out
}

/// The frames of the spinner.
pub open spec fn spinner_frames() -> Seq<char> {
    seq!['⠋', '⠙', '⠹', '⠸', '⠼', '⠴', '⠦', '⠧', '⠇', '⠏']
}

/// The frame of the spinner at a tick: each is shown for three ticks.
pub fn spinner(tick: usize) -> (r: char)
    ensures
        r == spinner_frames()[tick as int / 3 % 10],
{
    let frames: [char; 10] = ['⠋', '⠙', '⠹', '⠸', '⠼', '⠴', '⠦', '⠧', '⠇', '⠏'];
    assert(frames@ =~= spinner_frames());
    frames[tick / 3 % 10]
}

/// What is shown while `ffprobe` runs.
pub fn probing_lines(tick: usize) -> (r: Vec<Vec<Span>>)
    ensures
        paragraph(r@) == seq![
            seq![],
            seq![
                (
                    "  "@ + seq![spinner_frames()[tick as int / 3 % 10]] + " "@,
                    Tone::Accent,
                ),
                ("Probing media with ffprobe…"@, Tone::Dim),
            ],
        ],
{
    let mut frame = "  ".to_owned();
    frame.push(spinner(tick));
    frame.append(" ");
    let mut line = empty_line();
    push_span(&mut line, frame.as_str(), Tone::Accent);
    push_span(&mut line, "Probing media with ffprobe…", Tone::Dim);
    let mut lines = no_lines();
    push_line(&mut lines, empty_line());
    push_line(&mut lines, line);
    let ghost shown = spinner_frames()[tick as int / 3 % 10];
    assert(frame@ =~= "  "@ + seq![shown] + " "@);
    assert(paragraph(lines@) =~~= seq![
        seq![],
        seq![
            ("  "@ + seq![shown] + " "@, Tone::Accent),
            ("Probing media with ffprobe…"@, Tone::Dim),
        ],
    ]);
    lines
}

/// Width and height, as shown.
pub open spec fn size_label(width: u16, height: u16) -> Seq<char> {
    decimal(width as nat) + "×"@ + decimal(height as nat)
}

fn fmt_size(width: u16, height: u16) -> (r: String)
    ensures
        r@ == size_label(width, height),
{
    let mut out = decimal_text(width as u64);
    out.append("×");
    out.append(decimal_text(height as u64).as_str());
    out
}

/// The summary of a source while it is scanned.
pub open spec fn summary_text(probe: ProbeResult) -> Seq<(Seq<char>, Tone)> {
    seq![
        ("  "@, Tone::Dim),
        (probe.video.codec@, Tone::Value),
        ("  "@, Tone::Dim),
        (size_label(probe.video.width, probe.video.height), Tone::Value),
        ("  "@, Tone::Dim),
        (rate_label(probe.video.framerate) + "fps"@, Tone::Value),
        match probe.duration_us {
            Some(us) => (
                "  Duration: "@ + duration_label(whole_seconds(us as int)),
                Tone::Value,
            ),
            None => ("  Duration: unknown"@, Tone::Dim),
        },
    ]
}

/// The summary of a source while it is scanned.
pub fn summary_line(probe: &ProbeResult) -> (r: Vec<Span>)
    ensures
        spans(r@) == summary_text(*probe),
{
    let mut rate = fmt_rate(probe.video.framerate);
    rate.append("fps");
    let mut line = empty_line();
    push_span(&mut line, "  ", Tone::Dim);
    push_span(&mut line, probe.video.codec.as_str(), Tone::Value);
    push_span(&mut line, "  ", Tone::Dim);
    push_span(&mut line, fmt_size(probe.video.width, probe.video.height).as_str(), Tone::Value);
    push_span(&mut line, "  ", Tone::Dim);
    push_span(&mut line, rate.as_str(), Tone::Value);
    match probe.duration_us {
        Some(us) => {
            let mut duration = "  Duration: ".to_owned();
            duration.append(fmt_duration(us).as_str());
            push_span(&mut line, duration.as_str(), Tone::Value);
        },
        None => {
            push_span(&mut line, "  Duration: unknown", Tone::Dim);
        },
    }
    assert(spans(line@) =~= summary_text(*probe));
    line
}

/// The whole seconds between two times in milliseconds; none where the second is not later.
pub open spec fn seconds_between(started_at_ms: u64, now_ms: u64) -> nat {
    if now_ms < started_at_ms {
        0
    } else {
        ((now_ms - started_at_ms) / 1000) as nat
    }
}

/// How long a scan has been running.
pub fn fmt_elapsed(started_at_ms: u64, now_ms: u64) -> (r: String)
    ensures
        r@ == "  Elapsed: "@ + decimal(seconds_between(started_at_ms, now_ms) / 60) + ":"@
            + fixed_digits(seconds_between(started_at_ms, now_ms) % 60, 2),
{
    let elapsed: u64 = if now_ms < started_at_ms {
        0
    } else {
        (now_ms - started_at_ms) / 1000
    };
    let mut out = "  Elapsed: ".to_owned();
    out.append(decimal_text(elapsed / 60).as_str());
    out.append(":");
    out.append(fixed_digits_text(elapsed % 60, 2).as_str());
    out
}

// ── The manifest ──────────────────────────────────────────────────────────────

/// How many boundaries were moved to a keyframe.
pub open spec fn snapped_count(map: Seq<ChunkBoundary>) -> nat
    decreases map.len(),
{
    if map.len() == 0 {
        0
    } else {
        snapped_count(map.drop_last()) + if map.last().keyframe_snapped {
            1nat
        } else {
            0nat
        }
    }
}

/// The share of boundaries that were moved to a keyframe, in whole percent; nothing where they were
/// not to be moved or there are none.
pub open spec fn snapped_share(v: VodManifest) -> Option<nat> {
    if v.keyframe_snap && v.chunk_map@.len() > 0 {
        Some(100 * snapped_count(v.chunk_map@) / v.chunk_map@.len())
    } else {
        None
    }
}

fn snapped_percent(v: &VodManifest) -> (r: Option<u64>)
    ensures
        match r {
            Some(pct) => snapped_share(*v) == Some(pct as nat),
            None => snapped_share(*v) is None,
        },
{
    if !v.keyframe_snap || v.chunk_map.len() == 0 {
        return None;
    }
    let mut snapped: usize = 0;
    let mut i: usize = 0;
    while i < v.chunk_map.len()
        invariant
            i <= v.chunk_map.len(),
            snapped <= i,
            snapped == snapped_count(v.chunk_map@.take(i as int)),
        decreases v.chunk_map.len() - i,
    {
        assert(v.chunk_map@.take(i + 1).drop_last() =~= v.chunk_map@.take(i as int));
        if v.chunk_map[i].keyframe_snapped {
            snapped = snapped + 1;
        }
        i = i + 1;
    }
    assert(v.chunk_map@.take(v.chunk_map@.len() as int) =~= v.chunk_map@);
    let part = snapped as u128;
    let whole = v.chunk_map.len() as u128;
    assert(100 * part / whole as int <= 100) by (nonlinear_arith)
        requires
            0 <= part <= whole,
            whole > 0,
    ;
    Some((100 * part / whole) as u64)
}

/// What is shown of a VOD manifest and the container of its source.
pub open spec fn vod_text(v: VodManifest, probe: ProbeResult) -> Seq<Seq<(Seq<char>, Tone)>> {
    seq![
        seq![
            ("  Video:    "@, Tone::Label),
            (v.video_codec@, Tone::Value),
            ("  "@, Tone::Dim),
            (size_label(v.resolution.0, v.resolution.1), Tone::Value),
            ("  "@, Tone::Dim),
            (rate_label(v.framerate) + " fps"@, Tone::Value),
        ],
        seq![
            ("  Duration: "@, Tone::Label),
            (duration_label(whole_seconds(v.duration_us as int)), Tone::Value),
            ("    Bitrate: "@, Tone::Label),
            (bitrate_label(v.avg_bitrate_kbps as nat), Tone::Value),
        ],
        seq![
            ("  Audio:    "@, Tone::Label),
            (tracks_label(v.audio_tracks@), Tone::Value),
        ],
        seq![
            ("  Chunks:   "@, Tone::Label),
            (grouped(v.total_chunks as nat), Tone::Value),
            ("  ×  "@ + decimal(v.chunk_duration_ms as nat) + "ms target"@, Tone::Dim),
            match snapped_share(v) {
                Some(pct) => ("    "@ + decimal(pct) + "% keyframe-snapped"@, Tone::Dim),
                None => ("    time-derived boundaries"@, Tone::Dim),
            },
        ],
        seq![("  Format:   "@, Tone::Label), (probe.format_name@, Tone::Dim)],
    ]
}

/// What is shown of a VOD manifest and the container of its source.
pub fn build_vod_lines(v: &VodManifest, probe: &ProbeResult) -> (r: Vec<Vec<Span>>)
    ensures
        paragraph(r@) == vod_text(*v, *probe),
{
    let mut rate = fmt_rate(v.framerate);
    rate.append(" fps");
    let mut video = empty_line();
    push_span(&mut video, "  Video:    ", Tone::Label);
    push_span(&mut video, v.video_codec.as_str(), Tone::Value);
    push_span(&mut video, "  ", Tone::Dim);
    push_span(&mut video, fmt_size(v.resolution.0, v.resolution.1).as_str(), Tone::Value);
    push_span(&mut video, "  ", Tone::Dim);
    push_span(&mut video, rate.as_str(), Tone::Value);
    let mut duration = empty_line();
    push_span(&mut duration, "  Duration: ", Tone::Label);
    push_span(&mut duration, fmt_duration(v.duration_us).as_str(), Tone::Value);
    push_span(&mut duration, "    Bitrate: ", Tone::Label);
    push_span(&mut duration, fmt_kbps(v.avg_bitrate_kbps).as_str(), Tone::Value);
    let mut audio = empty_line();
    push_span(&mut audio, "  Audio:    ", Tone::Label);
    push_span(&mut audio, fmt_audio_tracks(&v.audio_tracks).as_str(), Tone::Value);
    let mut target = "  ×  ".to_owned();
    target.append(decimal_text(v.chunk_duration_ms as u64).as_str());
    target.append("ms target");
    let mut chunks = empty_line();
    push_span(&mut chunks, "  Chunks:   ", Tone::Label);
    push_span(&mut chunks, fmt_count(v.total_chunks).as_str(), Tone::Value);
    push_span(&mut chunks, target.as_str(), Tone::Dim);
    match snapped_percent(v) {
        Some(pct) => {
            let mut share = "    ".to_owned();
            share.append(decimal_text(pct).as_str());
            share.append("% keyframe-snapped");
            push_span(&mut chunks, share.as_str(), Tone::Dim);
        },
        None => {
            push_span(&mut chunks, "    time-derived boundaries", Tone::Dim);
        },
    }
    let mut format = empty_line();
    push_span(&mut format, "  Format:   ", Tone::Label);
    push_span(&mut format, probe.format_name.as_str(), Tone::Dim);
    let mut lines = no_lines();
    push_line(&mut lines, video);
    push_line(&mut lines, duration);
    push_line(&mut lines, audio);
    push_line(&mut lines, chunks);
    push_line(&mut lines, format);
    assert(paragraph(lines@) =~~= vod_text(*v, *probe));
    lines
}

/// What is shown of a manifest.
pub fn build_media_lines(manifest: &SessionManifest, probe: &ProbeResult) -> (r: Vec<Vec<Span>>)
    ensures
        paragraph(r@) == (match *manifest {
            SessionManifest::Vod(v) => vod_text(v, *probe),
            SessionManifest::Live(_) => seq![
                seq![("  Live stream (unknown duration)"@, Tone::Dim)],
            ],
        }),
{
    match manifest {
        SessionManifest::Vod(v) => build_vod_lines(v, probe),
        SessionManifest::Live(_) => {
            let mut line = empty_line();
            push_span(&mut line, "  Live stream (unknown duration)", Tone::Dim);
            let mut lines = no_lines();
            push_line(&mut lines, line);
            assert(paragraph(lines@) =~~= seq![
                seq![("  Live stream (unknown duration)"@, Tone::Dim)],
            ]);
            lines
        },
    }
}

/// What is shown of a failure.
pub fn error_lines(message: &str) -> (r: Vec<Vec<Span>>)
    ensures
        paragraph(r@) == seq![seq![], seq![("  "@ + message@, Tone::Error)]],
{
    let mut text = "  ".to_owned();
    text.append(message);
    let mut line = empty_line();
    push_span(&mut line, text.as_str(), Tone::Error);
    let mut lines = no_lines();
    push_line(&mut lines, empty_line());
    push_line(&mut lines, line);
    assert(paragraph(lines@) =~~= seq![seq![], seq![("  "@ + message@, Tone::Error)]]);
    lines
}

// ── Help ──────────────────────────────────────────────────────────────────────

/// The key that is offered besides `q`, and what it does.
pub open spec fn offered(app: App) -> Option<(Seq<char>, Seq<char>)> {
    match app.state {
        TuiState::Idle => if app.source_path is Some {
            Some(("a"@, "analyze"@))
        } else {
            None
        },
        TuiState::Probing { .. } => None,
        TuiState::ScanningKeyframes { .. } => Some(("s"@, "skip keyframe scan"@)),
        TuiState::ManifestReady { .. } => Some(("a"@, "re-analyze"@)),
        TuiState::Error { .. } => Some(("a"@, "re-analyze"@)),
    }
}

/// The help bar.
pub open spec fn help_text(app: App) -> Seq<(Seq<char>, Tone)> {
    let quit = seq![("q"@, Tone::Key), (" "@ + "quit"@, Tone::Dim)];
    match offered(app) {
        Some((key, desc)) => quit + seq![
            ("    "@, Tone::Dim),
            (key, Tone::Key),
            (" "@ + desc, Tone::Dim),
        ],
        None => quit,
    }
}

fn push_help(line: &mut Vec<Span>, key: &str, desc: &str)
    ensures
        spans(final(line)@) == (if old(line)@.len() == 0 {
            spans(old(line)@)
        } else {
            spans(old(line)@).push(("    "@, Tone::Dim))
        }) + seq![(key@, Tone::Key), (" "@ + desc@, Tone::Dim)],
{
    let ghost before = line@;
    if line.len() > 0 {
        push_span(line, "    ", Tone::Dim);
    }
    let mut text = " ".to_owned();
    text.append(desc);
    push_span(line, key, Tone::Key);
    push_span(line, text.as_str(), Tone::Dim);
    assert(spans(line@) =~= (if before.len() == 0 {
        spans(before)
    } else {
        spans(before).push(("    "@, Tone::Dim))
    }) + seq![(key@, Tone::Key), (" "@ + desc@, Tone::Dim)]);
}

/// The help bar: the keys that do something in the state shown.
pub fn help_line(app: &App) -> (r: Vec<Span>)
    ensures
        spans(r@) == help_text(*app),
{
    let mut line = empty_line();
    push_help(&mut line, "q", "quit");
    assert(spans(line@).len() == 2);
    match &app.state {
        TuiState::Idle => {
            if app.source_path.is_some() {
                push_help(&mut line, "a", "analyze");
            }
        },
        TuiState::Probing { .. } => {},
        TuiState::ScanningKeyframes { .. } => push_help(&mut line, "s", "skip keyframe scan"),
        TuiState::ManifestReady { .. } => push_help(&mut line, "a", "re-analyze"),
        TuiState::Error { .. } => push_help(&mut line, "a", "re-analyze"),
    }
    assert(spans(line@) =~= help_text(*app));
    line
}

// ── Laws ──────────────────────────────────────────────────────────────────────

/// Whatever a key makes the program do is offered in the help bar.
pub proof fn law_actions_are_offered(app: App, key: KeyEvent)
    ensures
        action_of(app, key) == KeyAction::StartAnalysis ==> (offered(app) matches Some((shown, _))
            && shown == "a"@),
        action_of(app, key) == KeyAction::CancelScan ==> (offered(app) matches Some((shown, _))
            && shown == "s"@),
{
}

/// A text without its commas.
pub open spec fn without_commas(s: Seq<char>) -> Seq<char> {
    s.filter(|c: char| c != ',')
}

proof fn lemma_digits_stay(s: Seq<char>)
    requires
        all_digits(s),
    ensures
        without_commas(s) == s,
    decreases s.len(),
{
    reveal(Seq::filter);
    if s.len() > 0 {
        assert(is_digit(s.last()));
        assert(forall|i: int| 0 <= i < s.drop_last().len() ==> s.drop_last()[i] == s[i]);
        lemma_digits_stay(s.drop_last());
        assert(s =~= s.drop_last().push(s.last()));
    }
}

proof fn lemma_fixed_digits(n: nat, width: nat)
    ensures
        all_digits(fixed_digits(n, width)),
    decreases width,
{
    if width > 0 {
        lemma_fixed_digits(n / 10, (width - 1) as nat);
    }
}

proof fn lemma_decimal_digits(n: nat)
    ensures
        all_digits(decimal(n)),
    decreases n,
{
    if n >= 10 {
        lemma_decimal_digits(n / 10);
    }
}

/// Grouping keeps the digits: without its commas, a grouped count is the decimal text.
pub proof fn law_grouping_keeps_digits(n: nat)
    ensures
        without_commas(grouped(n)) == decimal(n),
    decreases n,
{
    if n < 1000 {
        lemma_decimal_digits(n);
        lemma_digits_stay(decimal(n));
    } else {
        let rest = fixed_digits(n % 1000, 3);
        law_grouping_keeps_digits(n / 1000);
        lemma_fixed_digits(n % 1000, 3);
        lemma_digits_stay(rest);
        reveal_strlit(",");
        let comma = |c: char| c != ',';
        assert(","@ =~= seq![',']);
        assert(without_commas(","@) =~= Seq::empty()) by {
            reveal_with_fuel(Seq::filter, 2);
        }
        Seq::filter_distributes_over_add(grouped(n / 1000) + ","@, rest, comma);
        Seq::filter_distributes_over_add(grouped(n / 1000), ","@, comma);
        assert(without_commas(grouped(n)) =~= decimal(n / 1000) + rest);
        lemma_decimal_splits(n);
    }
}

/// The decimal text of a large number ends in its last three digits.
proof fn lemma_decimal_splits(n: nat)
    requires
        n >= 1000,
    ensures
        decimal(n) == decimal(n / 1000) + fixed_digits(n % 1000, 3),
{
    assert(n / 10 / 10 == n / 100 && n / 100 / 10 == n / 1000);
    assert(n % 1000 / 10 % 10 == n / 10 % 10);
    assert(n % 1000 / 10 / 10 % 10 == n / 100 % 10);
    assert(n % 1000 % 10 == n % 10);
    reveal_with_fuel(fixed_digits, 4);
    assert(decimal(n) == decimal(n / 10).push(digit_char(n % 10)));
    assert(decimal(n / 10) == decimal(n / 100).push(digit_char(n / 10 % 10)));
    assert(decimal(n / 100) == decimal(n / 1000).push(digit_char(n / 100 % 10)));
    assert(decimal(n) =~= decimal(n / 1000) + fixed_digits(n % 1000, 3));
}

/// A duration is shown in hours, minutes and seconds that add up to it: any count of hours, and less
/// than sixty of the others in two digits. Without an hour, hours are left out.
pub proof fn law_duration_adds_up(hours: nat, minutes: nat, seconds: nat)
    requires
        minutes < 60,
        seconds < 60,
    ensures
        ({
            let total = 3600 * hours + 60 * minutes + seconds;
            let two = |n: nat| seq![('0' as int + n / 10) as char, ('0' as int + n % 10) as char];
            &&& hours > 0 ==> duration_label(total) == decimal(hours) + "h "@ + two(minutes) + "m "@
                + two(seconds) + "s"@
            &&& hours == 0 ==> duration_label(total) == decimal(minutes) + "m "@ + two(seconds)
                + "s"@
        }),
{
    let total = 3600 * hours + 60 * minutes + seconds;
    assert(total / 3600 == hours && total % 3600 / 60 == minutes && total % 60 == seconds);
    let two = |n: nat| seq![('0' as int + n / 10) as char, ('0' as int + n % 10) as char];
    lemma_two_digits(minutes);
    lemma_two_digits(seconds);
}

proof fn lemma_two_digits(n: nat)
    requires
        n < 100,
    ensures
        fixed_digits(n, 2) == seq![('0' as int + n / 10) as char, ('0' as int + n % 10) as char],
{
    reveal_with_fuel(fixed_digits, 3);
    assert(n / 10 % 10 == n / 10);
    assert(fixed_digits(n, 2) =~= seq![
        ('0' as int + n / 10) as char,
        ('0' as int + n % 10) as char,
    ]);
}

/// What is shown of a time is its whole seconds, rounded down; nothing of a negative one. The time that
/// has passed is that between two readings of the clock.
pub proof fn law_whole_seconds_are_shown(us: int, started_at_ms: u64, now_ms: u64)
    ensures
        us >= 0 ==> 1_000_000 * whole_seconds(us) <= us < 1_000_000 * whole_seconds(us) + 1_000_000,
        us < 0 ==> whole_seconds(us) == 0,
        now_ms >= started_at_ms ==> 1000 * seconds_between(started_at_ms, now_ms) <= now_ms
            - started_at_ms < 1000 * seconds_between(started_at_ms, now_ms) + 1000,
        now_ms < started_at_ms ==> seconds_between(started_at_ms, now_ms) == 0,
{
}

/// Commas stand between groups of three digits, counted from the right, and nowhere else.
pub proof fn law_commas_stand_every_three_digits(n: nat, i: int)
    requires
        0 <= i < grouped(n).len(),
    ensures
        grouped(n)[grouped(n).len() - 1 - i] == ',' <==> i % 4 == 3,
        grouped(n)[0] != ',',
    decreases n,
{
    if n < 1000 {
        lemma_decimal_digits(n);
        assert(is_digit(decimal(n)[grouped(n).len() - 1 - i]));
        assert(is_digit(decimal(n)[0]));
        lemma_short_decimal(n);
    } else {
        reveal_strlit(",");
        let head = grouped(n / 1000);
        let rest = fixed_digits(n % 1000, 3);
        lemma_fixed_digits(n % 1000, 3);
        lemma_three_digits(n % 1000);
        lemma_grouped_is_not_empty(n / 1000);
        law_commas_stand_every_three_digits(n / 1000, 0);
        assert(grouped(n).len() == head.len() + 4);
        let at = grouped(n).len() - 1 - i;
        if i < 3 {
            assert(grouped(n)[at] == rest[2 - i]);
            assert(is_digit(rest[2 - i]));
        } else if i == 3 {
            assert(grouped(n)[at] == ',');
        } else {
            law_commas_stand_every_three_digits(n / 1000, i - 4);
            assert(grouped(n)[at] == head[at]);
        }
        assert(grouped(n)[0] == head[0]);
    }
}

proof fn lemma_short_decimal(n: nat)
    requires
        n < 1000,
    ensures
        1 <= decimal(n).len() <= 3,
{
    reveal_with_fuel(decimal, 3);
}

proof fn lemma_three_digits(n: nat)
    ensures
        fixed_digits(n, 3).len() == 3,
{
    reveal_with_fuel(fixed_digits, 4);
}

proof fn lemma_grouped_is_not_empty(n: nat)
    ensures
        grouped(n).len() > 0,
{
    if n < 1000 {
        lemma_short_decimal(n);
    } else {
        lemma_three_digits(n % 1000);
    }
}

/// Tracks are shown one behind the other, each with its codec, channels and language, whatever came
/// before.
pub proof fn law_tracks_are_shown_in_a_row(tracks: Seq<AudioTrack>, track: AudioTrack)
    ensures
        ({
            let shown = track.codec@ + " "@ + decimal(track.channels as nat) + "ch ("@ + (
            match track.language {
                Some(language) => language@,
                None => "?"@,
            }) + ")"@;
            &&& tracks.len() > 0 ==> tracks_label(tracks.push(track)) == tracks_label(tracks) + "  ·  "@
                + shown
            &&& tracks.len() == 0 ==> tracks_label(tracks.push(track)) == shown
            &&& tracks.len() == 0 ==> tracks_label(tracks) == "none"@
        }),
{
    assert(tracks.push(track).drop_last() =~= tracks);
}

/// Aligning puts blanks in front, as many as are missing and no more.
pub proof fn law_alignment_puts_blanks_in_front(s: Seq<char>, width: nat, i: int)
    ensures
        s.len() >= width ==> right_aligned(s, width) == s,
        s.len() < width ==> right_aligned(s, width).len() == width,
        s.len() < width && 0 <= i < width - s.len() ==> right_aligned(s, width)[i] == ' ',
        s.len() < width ==> right_aligned(s, width).skip(width - s.len()) == s,
    decreases width - s.len(),
{
    if s.len() < width {
        let longer = seq![' '] + s;
        law_alignment_puts_blanks_in_front(longer, width, i);
        assert(longer.skip(1) =~= s);
        let all = right_aligned(s, width);
        assert(all == right_aligned(longer, width));
        if longer.len() < width {
            assert(all.skip(width - longer.len()) == longer);
            assert(all.skip(width - s.len()) =~= all.skip(width - longer.len()).skip(1));
            if i == width - s.len() - 1 {
                assert(all[i] == all.skip(width - longer.len())[0]);
            }
        } else {
            assert(all == longer);
            assert(longer.skip(width - s.len()) =~= s);
        }
    }
}

/// One more boundary counts as snapped exactly if it was moved to a keyframe; the share shown is the
/// count in a hundred, rounded down, and is shown where boundaries were to be moved.
pub proof fn law_share_counts_snapped_boundaries(
    v: VodManifest,
    map: Seq<ChunkBoundary>,
    boundary: ChunkBoundary,
)
    ensures
        snapped_count(Seq::<ChunkBoundary>::empty()) == 0,
        snapped_count(map.push(boundary)) == snapped_count(map) + if boundary.keyframe_snapped {
            1nat
        } else {
            0nat
        },
        snapped_share(v) is Some <==> v.keyframe_snap && v.chunk_map@.len() > 0,
        snapped_share(v) matches Some(pct) ==> pct * v.chunk_map@.len() <= 100 * snapped_count(
            v.chunk_map@,
        ) < (pct + 1) * v.chunk_map@.len(),
{
    assert(map.push(boundary).drop_last() =~= map);
    if v.keyframe_snap && v.chunk_map@.len() > 0 {
        let len = v.chunk_map@.len() as int;
        let part = 100 * snapped_count(v.chunk_map@) as int;
        vstd::arithmetic::div_mod::lemma_fundamental_div_mod(part, len);
        vstd::arithmetic::div_mod::lemma_mod_bound(part, len);
        let pct = part / len;
        assert(len * pct == pct * len) by (nonlinear_arith);
        assert((pct + 1) * len == pct * len + len) by (nonlinear_arith);
    }
}

/// Numbers are shown as floating point computes them: a bitrate of a thousand kilobits and more
/// divided by a thousand in single precision, a frame rate as the single-precision quotient of its two
/// decimals, and progress as seconds divided in double precision and made a percentage in single
/// precision, rounded down. A bitrate below that is shown in kilobits as it is.
pub proof fn law_numbers_are_shown_as_computed(kbps: nat, rate: FrameRate, fraction: Fraction)
    ensures
        kbps < 1000 ==> bitrate_label(kbps) == decimal(kbps) + " kbps"@,
        kbps >= 1000 ==> bitrate_label(kbps) == fixed(
            quotient(rounded(kbps, 1, 24), rounded(1000, 1, 24), 24),
            1,
        ) + " Mbps"@,
        rate.den != 0 ==> ({
            let num = if rate.num < 0 {
                (-rate.num) as nat
            } else {
                rate.num as nat
            };
            let den = if rate.den < 0 {
                (-rate.den) as nat
            } else {
                rate.den as nat
            };
            let shown = fixed(
                quotient(rounded(num, 1_000_000, 24), rounded(den, 1_000_000, 24), 24),
                3,
            );
            &&& (rate.num < 0) == (rate.den < 0) ==> rate_label(rate) == shown
            &&& (rate.num < 0) != (rate.den < 0) ==> rate_label(rate) == seq!['-'] + shown
        }),
        rate.den == 0 ==> rate_label(rate) == "0.000"@,
        ({
            let ratio = quotient(
                rounded(fraction.part as nat, 1_000_000, 53),
                rounded(fraction.whole as nat, 1_000_000, 53),
                53,
            );
            let percent = whole_part(product(product(ratio, 1, 24), 100, 24));
            &&& percent <= 65_535 ==> percent_of(fraction) == percent
            &&& percent > 65_535 ==> percent_of(fraction) == 65_535
        }),
{
}

/// The lines on a manifest show what it says: each value stands behind the label that names it.
pub proof fn law_lines_show_the_manifest(v: VodManifest, probe: ProbeResult)
    ensures
        ({
            let lines = vod_text(v, probe);
            &&& lines.len() == 5
            &&& lines[0][0].0 == "  Video:    "@ && lines[0][1].0 == v.video_codec@
            &&& lines[0][3].0 == decimal(v.resolution.0 as nat) + "×"@ + decimal(
                v.resolution.1 as nat,
            )
            &&& lines[0][5].0 == rate_label(v.framerate) + " fps"@
            &&& lines[1][0].0 == "  Duration: "@ && lines[1][1].0 == duration_label(
                whole_seconds(v.duration_us as int),
            )
            &&& lines[1][2].0 == "    Bitrate: "@ && lines[1][3].0 == bitrate_label(
                v.avg_bitrate_kbps as nat,
            )
            &&& lines[2][0].0 == "  Audio:    "@ && lines[2][1].0 == tracks_label(v.audio_tracks@)
            &&& lines[3][0].0 == "  Chunks:   "@ && lines[3][1].0 == grouped(v.total_chunks as nat)
            &&& lines[3][2].0 == "  ×  "@ + decimal(v.chunk_duration_ms as nat) + "ms target"@
            &&& snapped_share(v) matches Some(pct) ==> lines[3][3].0 == "    "@ + decimal(pct)
                + "% keyframe-snapped"@
            &&& snapped_share(v) is None ==> lines[3][3].0 == "    time-derived boundaries"@
            &&& lines[4][0].0 == "  Format:   "@ && lines[4][1].0 == probe.format_name@
        }),
{
}

/// The summary of a scan shows codec, size, rate and duration of the source, and the bar how far the
/// scan has come.
pub proof fn law_summary_shows_the_source(
    probe: ProbeResult,
    fraction: Fraction,
    keyframes_found: nat,
)
    ensures
        ({
            let line = summary_text(probe);
            &&& line.len() == 7
            &&& line[1].0 == probe.video.codec@
            &&& line[3].0 == decimal(probe.video.width as nat) + "×"@ + decimal(
                probe.video.height as nat,
            )
            &&& line[5].0 == rate_label(probe.video.framerate) + "fps"@
            &&& probe.duration_us matches Some(us) ==> line[6].0 == "  Duration: "@ + duration_label(
                whole_seconds(us as int),
            )
            &&& probe.duration_us is None ==> line[6].0 == "  Duration: unknown"@
        }),
        gauge_label(fraction, keyframes_found) == right_aligned(decimal(percent_of(fraction)), 3)
            + "%  "@ + right_aligned(grouped(keyframes_found), 6) + " keyframes"@,
{
}

/// The idle screen shows the path of the source as it is.
pub proof fn law_idle_screen_shows_the_path(path: DiscPath)
    ensures
        path.text matches Some(text) ==> idle_text(Some(path))[1] == seq![
            ("  Source:  "@, Tone::Label),
            (text@, Tone::Value),
        ],
        path.text is None ==> idle_text(Some(path))[1] == seq![
            ("  Source:  "@, Tone::Label),
            (""@, Tone::Value),
        ],
{
}

/// A paragraph keeps every line, and a line every piece with its tone, at its place.
pub proof fn law_lines_keep_their_pieces(lines: Seq<Vec<Span>>, line: Seq<Span>, i: int)
    ensures
        paragraph(lines).len() == lines.len(),
        spans(line).len() == line.len(),
        0 <= i < lines.len() ==> paragraph(lines)[i] == spans(lines[i]@),
        0 <= i < line.len() ==> spans(line)[i] == (line[i].text@, line[i].tone),
{
}

/// A bitrate of a thousand kilobits and more is shown in megabits to the nearest tenth. Beyond 24 binary
/// digits single precision no longer holds the kilobits themselves, and that is left out here.
pub proof fn law_bitrate_is_shown_to_the_nearest_tenth(kbps: nat)
    requires
        1000 <= kbps < 16_777_216,
    ensures
        exists|tenths: nat|
            {
                &&& bitrate_label(kbps) == #[trigger] decimal(tenths / 10) + seq!['.'] + fixed_digits(
                    tenths % 10,
                    1,
                ) + " Mbps"@
                &&& -50 <= 100 * tenths - kbps <= 50
            },
{
    let x = quotient(rounded(kbps, 1, 24), rounded(1000, 1, 24), 24);
    assert(pow10(1) == 10) by {
        reveal_with_fuel(pow10, 2);
    }
    law_fixed_decimals_are_nearest(x, 1);
    let n = choose|n: nat|
        {
            &&& fixed(x, 1) == #[trigger] decimal(n / pow10(1)) + seq!['.'] + fixed_digits(
                n % pow10(1),
                1,
            )
            &&& x.1 >= 0 ==> n == x.0 * pow2(x.1 as nat) * pow10(1)
            &&& x.1 < 0 ==> {
                let unit = pow2((-x.1) as nat);
                -unit <= 2 * (n * unit - x.0 * pow10(1)) <= unit
            }
        };
    lemma_thousandth_to_a_tenth(kbps, n);
    assert(bitrate_label(kbps) == decimal(n / 10) + seq!['.'] + fixed_digits(n % 10, 1) + " Mbps"@);
}

} // verus!
