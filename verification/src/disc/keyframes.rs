//! The keyframe scan: positions of keyframes, read from the packet listing of `ffprobe`.
//!
//! Only packet headers are read. A scan of a disc may take minutes, so it reports its progress and
//! may be cut short; what was found by then is valid for the part of the timeline that was read.
use vstd::prelude::*;

use crate::number::{
    decimal_number, law_position_reads_back, law_written_digits_stand_for_the_number,
    parse_millionths,
};
use crate::text::{
    decimal, find_char, fixed_digits, lemma_position_of, position_of, push_text, push_texts, seconds,
    texts, words,
};

verus! {

/// Keyframes between two progress reports.
pub const REPORT_EVERY: usize = 500;

/// How far a scan has come.
#[derive(Debug, Clone, Copy, PartialEq, Eq, Structural)]
pub struct ScanProgress {
    /// Keyframes found so far.
    pub keyframes_found: usize,
    /// The part of the timeline that is scanned, as far as the last keyframe tells; all of it once
    /// the scan is over. It stays at none where the duration is not positive.
    pub fraction: Fraction,
}

/// A part of a whole, from none to all of it.
#[derive(Debug, Clone, Copy, PartialEq, Eq, Structural)]
pub struct Fraction {
    pub part: u64,
    pub whole: u64,
}

impl Fraction {
    /// The whole is not empty, and the part is no larger.
    pub open spec fn wf(self) -> bool {
        self.part <= self.whole && self.whole > 0
    }
}

/// The arguments of `ffprobe` for the packet listing of the first video stream.
pub fn scan_args(input_flags: &[&str], input_spec: &str) -> (r: Vec<String>)
    ensures
        texts(r@) == seq![
            "-v"@,
            "quiet"@,
            "-select_streams"@,
            "v:0"@,
            "-show_entries"@,
            "packet=pts_time,flags"@,
            "-of"@,
            "csv=p=0"@,
        ] + words(input_flags@) + seq![input_spec@],
{
    let mut args: Vec<String> = Vec::new();
    push_text(&mut args, "-v");
    push_text(&mut args, "quiet");
    push_text(&mut args, "-select_streams");
    push_text(&mut args, "v:0");
    push_text(&mut args, "-show_entries");
    push_text(&mut args, "packet=pts_time,flags");
    push_text(&mut args, "-of");
    push_text(&mut args, "csv=p=0");
    push_texts(&mut args, input_flags);
    push_text(&mut args, input_spec);
    assert(texts(args@) =~= seq![
        "-v"@,
        "quiet"@,
        "-select_streams"@,
        "v:0"@,
        "-show_entries"@,
        "packet=pts_time,flags"@,
        "-of"@,
        "csv=p=0"@,
    ] + words(input_flags@) + seq![input_spec@]);
    args
}

/// The position of the keyframe that a line such as `2.300000,K__` lists: the text before the first
/// comma is a position, and the text behind it starts with `K`.
pub open spec fn keyframe_in(line: Seq<char>) -> Option<int> {
    let comma = position_of(line, ',', 0);
    if comma + 1 < line.len() && line[comma + 1] == 'K' {
        decimal_number(line.subrange(0, comma))
    } else {
        None
    }
}

/// The keyframes that lines list, in order.
pub open spec fn keyframes_in(lines: Seq<Seq<char>>) -> Seq<i64>
    decreases lines.len(),
{
    if lines.len() == 0 {
        Seq::empty()
    } else {
        with_keyframe(keyframes_in(lines.drop_last()), lines.last())
    }
}

/// The keyframes found so far, and that of one more line.
pub open spec fn with_keyframe(found: Seq<i64>, line: Seq<char>) -> Seq<i64> {
    match keyframe_in(line) {
        Some(us) => found.push(us as i64),
        None => found,
    }
}

/// The part of a timeline up to `pts_us`; none of it where the duration is not positive.
pub open spec fn fraction_at(pts_us: int, duration_us: int) -> Fraction {
    if duration_us <= 0 || pts_us <= 0 {
        Fraction { part: 0, whole: 1 }
    } else if pts_us >= duration_us {
        Fraction { part: 1, whole: 1 }
    } else {
        Fraction { part: pts_us as u64, whole: duration_us as u64 }
    }
}

/// The report due after a line: one whenever the number of keyframes reaches a multiple of
/// `REPORT_EVERY`.
pub open spec fn report_after(
    found: Seq<i64>,
    line: Seq<char>,
    duration_us: int,
) -> Option<ScanProgress> {
    match keyframe_in(line) {
        Some(us) => if (found.len() + 1) % (REPORT_EVERY as nat) == 0 {
            Some(
                ScanProgress {
                    keyframes_found: (found.len() + 1) as usize,
                    fraction: fraction_at(us, duration_us),
                },
            )
        } else {
            None
        },
        None => None,
    }
}

/// The keyframe that a line of the packet listing holds, if any.
pub fn parse_packet_line(line: &str) -> (r: Option<i64>)
    ensures
        match r {
            Some(us) => keyframe_in(line@) == Some(us as int),
            None => keyframe_in(line@) is None,
        },
{
    let comma = find_char(line, ',');
    let len = line.unicode_len();
    if comma < len && comma + 1 < len && line.get_char(comma + 1) == 'K' {
        parse_millionths(line.substring_char(0, comma))
    } else {
        None
    }
}

/// The part of a timeline up to a position.
pub fn scan_fraction(pts_us: i64, duration_us: i64) -> (r: Fraction)
    ensures
        r == fraction_at(pts_us as int, duration_us as int),
        r.wf(),
{
    if duration_us <= 0 || pts_us <= 0 {
        Fraction { part: 0, whole: 1 }
    } else if pts_us >= duration_us {
        Fraction { part: 1, whole: 1 }
    } else {
        Fraction { part: pts_us as u64, whole: duration_us as u64 }
    }
}

/// A scan under way.
#[derive(Debug)]
pub struct KeyframeScan {
    /// Total duration, used for progress alone.
    pub duration_us: i64,
    /// The keyframes found so far, in the order of their packets.
    pub keyframes: Vec<i64>,
}

impl KeyframeScan {
    /// A scan that has found nothing yet.
    pub fn new(duration_us: i64) -> (r: Self)
        ensures
            r.duration_us == duration_us,
            r.keyframes@ == keyframes_in(Seq::empty()),
            r.keyframes@.len() == 0,
    {
        KeyframeScan { duration_us, keyframes: Vec::new() }
    }

    /// Takes one more line of the packet listing, and says whether a report is due.
    pub fn feed(&mut self, line: &str) -> (r: Option<ScanProgress>)
        ensures
            final(self).duration_us == old(self).duration_us,
            final(self).keyframes@ == with_keyframe(old(self).keyframes@, line@),
            r == report_after(old(self).keyframes@, line@, old(self).duration_us as int),
    {
        match parse_packet_line(line) {
            Some(us) => {
                self.keyframes.push(us);
                let found: usize = self.keyframes.len();
                if found % REPORT_EVERY == 0 {
                    Some(
                        ScanProgress {
                            keyframes_found: found,
                            fraction: scan_fraction(us, self.duration_us),
                        },
                    )
                } else {
                    None
                }
            },
            None => None,
        }
    }

    /// Ends the scan, at the end of the listing or before: the keyframes found, and a last report
    /// that says it is over.
    pub fn finish(self) -> (r: (Vec<i64>, ScanProgress))
        ensures
            r.0 == self.keyframes,
            r.1 == (ScanProgress {
                keyframes_found: self.keyframes.len(),
                fraction: if self.duration_us <= 0 {
                    Fraction { part: 0, whole: 1 }
                } else {
                    Fraction { part: 1, whole: 1 }
                },
            }),
    {
        let found: usize = self.keyframes.len();
        let part: u64 = if self.duration_us <= 0 {
            0
        } else {
            1
        };
        (
            self.keyframes,
            ScanProgress { keyframes_found: found, fraction: Fraction { part, whole: 1 } },
        )
    }
}

/// A scan that took `lines` has found the keyframes in them; so it has after one more.
pub proof fn law_scan_collects_keyframes(lines: Seq<Seq<char>>, line: Seq<char>)
    ensures
        with_keyframe(keyframes_in(lines), line) == keyframes_in(lines.push(line)),
{
    assert(lines.push(line).drop_last() =~= lines);
}

/// Where the duration is not positive, no report ever claims any progress.
pub proof fn law_no_progress_without_duration(
    found: Seq<i64>,
    line: Seq<char>,
    duration_us: int,
)
    requires
        duration_us <= 0,
    ensures
        report_after(found, line, duration_us) matches Some(report) ==> report.fraction == (
        Fraction { part: 0, whole: 1 }),
{
}

/// What a scan found when it was cut short is the start of what it would have found.
pub proof fn law_cancelled_scan_is_a_prefix(lines: Seq<Seq<char>>, n: int)
    requires
        0 <= n <= lines.len(),
    ensures
        keyframes_in(lines.take(n)).len() <= keyframes_in(lines).len(),
        keyframes_in(lines.take(n)) =~= keyframes_in(lines).take(
            keyframes_in(lines.take(n)).len() as int,
        ),
    decreases lines.len(),
{
    if n < lines.len() {
        law_cancelled_scan_is_a_prefix(lines.drop_last(), n);
        assert(lines.drop_last().take(n) =~= lines.take(n));
    } else {
        assert(lines.take(n) =~= lines);
    }
}

/// Every line that lists a keyframe adds exactly one, whatever was found before: a scan that starts
/// with nothing and takes lines one by one ends with as many keyframes as lines list one, and each
/// is the position that its line lists. `found` is what the scan holds before and after each line.
pub proof fn law_every_listed_keyframe_is_found(lines: Seq<Seq<char>>, found: Seq<Seq<i64>>)
    requires
        found.len() == lines.len() + 1,
        found[0].len() == 0,
        forall|i: int|
            0 <= i < lines.len() ==> #[trigger] found[i + 1] == with_keyframe(found[i], lines[i]),
    ensures
        ({
            let listed = lines.filter(|line: Seq<char>| keyframe_in(line) is Some);
            &&& found.last().len() == listed.len()
            &&& forall|j: int|
                0 <= j < listed.len() ==> keyframe_in(#[trigger] listed[j]) == Some(
                    found.last()[j] as int,
                )
        }),
    decreases lines.len(),
{
    reveal(Seq::filter);
    if lines.len() > 0 {
        let last = lines.len() - 1;
        let before = lines.drop_last();
        assert forall|i: int| 0 <= i < before.len() implies #[trigger] found.drop_last()[i + 1]
            == with_keyframe(found.drop_last()[i], before[i]) by {
            assert(found[i + 1] == with_keyframe(found[i], lines[i]));
        }
        law_every_listed_keyframe_is_found(before, found.drop_last());
        assert(found.drop_last().last() == found[last]);
        assert(found[last + 1] == with_keyframe(found[last], lines[last]));
        lemma_keyframe_fits(lines[last]);
    }
}

proof fn lemma_keyframe_fits(line: Seq<char>)
    ensures
        keyframe_in(line) matches Some(us) ==> i64::MIN < us <= i64::MAX,
{
}

/// What a line lists: the position before the first comma, if a `K` stands right behind it, and
/// nothing otherwise.
pub proof fn law_line_lists_its_position(position: Seq<char>, flags: Seq<char>, us: i64)
    requires
        forall|i: int| 0 <= i < position.len() ==> #[trigger] position[i] != ',',
        us > i64::MIN,
    ensures
        keyframe_in(position) is None,
        flags.len() > 0 && flags[0] == 'K' ==> keyframe_in(position + seq![','] + flags)
            == decimal_number(position),
        flags.len() == 0 || flags[0] != 'K' ==> keyframe_in(position + seq![','] + flags) is None,
        flags.len() > 0 && flags[0] == 'K' ==> keyframe_in(seconds(us as int) + seq![','] + flags)
            == Some(us as int),
{
    lemma_comma(position, flags);
    let written = seconds(us as int);
    law_position_reads_back(us);
    law_written_digits_stand_for_the_number(magnitude_of(us as int) / 1_000_000, 6);
    law_written_digits_stand_for_the_number(magnitude_of(us as int) % 1_000_000, 6);
    let whole = decimal(magnitude_of(us as int) / 1_000_000);
    let part = fixed_digits(magnitude_of(us as int) % 1_000_000, 6);
    let sign = if us < 0 {
        seq!['-']
    } else {
        Seq::<char>::empty()
    };
    assert(written =~= sign + whole + seq!['.'] + part);
    assert forall|i: int| 0 <= i < written.len() implies #[trigger] written[i] != ',' by {
        let w = sign.len() as int;
        let n = whole.len() as int;
        if i < w {
        } else if i < w + n {
            assert(written[i] == whole[i - w]);
        } else if i > w + n {
            assert(written[i] == part[i - w - n - 1]);
        }
    }
    lemma_comma(written, flags);
}

spec fn magnitude_of(us: int) -> nat {
    if us < 0 {
        (-us) as nat
    } else {
        us as nat
    }
}

proof fn lemma_comma(position: Seq<char>, flags: Seq<char>)
    requires
        forall|i: int| 0 <= i < position.len() ==> #[trigger] position[i] != ',',
    ensures
        keyframe_in(position) is None,
        flags.len() > 0 && flags[0] == 'K' ==> keyframe_in(position + seq![','] + flags)
            == decimal_number(position),
        flags.len() == 0 || flags[0] != 'K' ==> keyframe_in(position + seq![','] + flags) is None,
{
    let n = position.len() as int;
    let line = position + seq![','] + flags;
    lemma_position_of(position, ',', 0, n);
    assert(line[n] == ',');
    assert forall|i: int| 0 <= i < n implies #[trigger] line[i] != ',' by {
        assert(line[i] == position[i]);
    }
    lemma_position_of(line, ',', 0, n);
    assert(line.subrange(0, n) =~= position);
    if flags.len() > 0 {
        assert(line[n + 1] == flags[0]);
    }
}

/// Reports come with every five hundredth keyframe and at no other time, and tell how many were found
/// and which part of the timeline lies before the last one.
pub proof fn law_reports_tell_the_progress(found: Seq<i64>, line: Seq<char>, duration_us: int)
    requires
        found.len() < usize::MAX,
        i64::MIN <= duration_us <= i64::MAX,
    ensures
        report_after(found, line, duration_us) is Some <==> keyframe_in(line) is Some && (found.len()
            + 1) % 500 == 0,
        report_after(found, line, duration_us) matches Some(report) ==> {
            let us = keyframe_in(line)->0;
            let f = report.fraction;
            &&& report.keyframes_found == found.len() + 1
            &&& 0 <= f.part <= f.whole && f.whole > 0
            &&& duration_us > 0 && 0 <= us <= duration_us ==> f.part * duration_us == us * f.whole
            &&& duration_us > 0 && us > duration_us ==> f.part == f.whole
            &&& duration_us <= 0 || us < 0 ==> f.part == 0
        },
{
    if let Some(us) = keyframe_in(line) {
        lemma_keyframe_fits(line);
        let f = fraction_at(us, duration_us);
        if 0 <= us <= duration_us && 0 < duration_us {
            assert(f.part * duration_us == us * f.whole) by (nonlinear_arith)
                requires
                    (f.part == us && f.whole == duration_us) || (f.part == 0 && us == 0) || (f.part
                        == 1 && f.whole == 1 && us == duration_us),
            ;
        }
    }
}


} // verus!
