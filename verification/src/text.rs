//! Decimal, hexadecimal and fixed-point text.
//!
//! Everything that the library prints or reads as a number goes through here: counters and sizes,
//! the positions that `ffprobe` reports and `ffmpeg` is given, and the identity prefix of a disc.
//! A position on a timeline is a whole number of microseconds, which is exactly what the six
//! decimals of `ffprobe` and `ffmpeg` can carry.
use vstd::prelude::*;

verus! {

/// `String::push` of the standard library: the character is appended to the text.
pub assume_specification[ String::push ](s: &mut String, c: char)
    ensures
        final(s)@ == old(s)@.push(c),
;

/// Microseconds in a second.
pub const MICROS_PER_SEC: i64 = 1_000_000;

// ── Digits ────────────────────────────────────────────────────────────────────

/// An ASCII decimal digit.
pub open spec fn is_digit(c: char) -> bool {
    '0' <= c <= '9'
}

/// The number that a decimal digit stands for.
pub open spec fn digit_value(c: char) -> nat
    recommends
        is_digit(c),
{
    (c as int - '0' as int) as nat
}

/// The decimal digit of a number below ten.
pub open spec fn digit_char(d: nat) -> char
    recommends
        d < 10,
{
    ('0' as int + d) as char
}

/// Every character is a decimal digit.
pub open spec fn all_digits(s: Seq<char>) -> bool {
    forall|i: int| 0 <= i < s.len() ==> is_digit(#[trigger] s[i])
}

/// The number that a run of decimal digits stands for.
pub open spec fn digits_value(s: Seq<char>) -> nat
    decreases s.len(),
{
    if s.len() == 0 {
        0
    } else {
        10 * digits_value(s.drop_last()) + digit_value(s.last())
    }
}

/// Ten to the power of `n`.
pub open spec fn pow10(n: nat) -> nat
    decreases n,
{
    if n == 0 {
        1
    } else {
        10 * pow10((n - 1) as nat)
    }
}

/// The shortest decimal text of `n`.
pub open spec fn decimal(n: nat) -> Seq<char>
    decreases n,
{
    if n < 10 {
        seq![digit_char(n)]
    } else {
        decimal(n / 10).push(digit_char(n % 10))
    }
}

/// The last `width` decimal digits of `n`, with leading zeros.
pub open spec fn fixed_digits(n: nat, width: nat) -> Seq<char>
    decreases width,
{
    if width == 0 {
        Seq::empty()
    } else {
        fixed_digits(n / 10, (width - 1) as nat).push(digit_char(n % 10))
    }
}

/// A position in seconds with six decimals.
pub open spec fn seconds(us: int) -> Seq<char> {
    let magnitude = if us < 0 {
        (-us) as nat
    } else {
        us as nat
    };
    let sign = if us < 0 {
        seq!['-']
    } else {
        Seq::<char>::empty()
    };
    sign + decimal(magnitude / 1_000_000) + seq!['.'] + fixed_digits(magnitude % 1_000_000, 6)
}

/// The lower-case hexadecimal digit of a number below sixteen.
pub open spec fn hex_char(d: nat) -> char
    recommends
        d < 16,
{
    if d < 10 {
        digit_char(d)
    } else {
        ('a' as int + d - 10) as char
    }
}

/// A byte as two lower-case hexadecimal digits.
pub open spec fn hex_byte(b: u8) -> Seq<char> {
    seq![hex_char((b / 16) as nat), hex_char((b % 16) as nat)]
}

fn digit(d: u64) -> (c: char)
    requires
        d < 10,
    ensures
        c == digit_char(d as nat),
{
    (48 + d as u8) as char
}

/// The shortest decimal text of `n`.
pub fn decimal_text(n: u64) -> (r: String)
    ensures
        r@ == decimal(n as nat),
{
    wide_decimal_text(n as u128)
}

/// The shortest decimal text of `n`.
pub fn wide_decimal_text(n: u128) -> (r: String)
    ensures
        r@ == decimal(n as nat),
    decreases n,
{
    let mut out = if n < 10 {
        String::new()
    } else {
        wide_decimal_text(n / 10)
    };
    out.push(digit((n % 10) as u64));
    proof {
        if n < 10 {
            assert(out@ =~= seq![digit_char(n as nat)]);
        }
    }
    out
}

/// The last `width` decimal digits of `n`, with leading zeros.
pub fn fixed_digits_text(n: u64, width: u32) -> (r: String)
    ensures
        r@ == fixed_digits(n as nat, width as nat),
    decreases width,
{
    if width == 0 {
        String::new()
    } else {
        let mut out = fixed_digits_text(n / 10, width - 1);
        out.push(digit(n % 10));
        out
    }
}

fn push_seconds(out: &mut String, magnitude: u64)
    ensures
        final(out)@ == old(out)@ + seconds(magnitude as int),
{
    let ghost before = out@;
    out.append(decimal_text(magnitude / 1_000_000).as_str());
    out.push('.');
    out.append(fixed_digits_text(magnitude % 1_000_000, 6).as_str());
    assert(out@ =~= before + seconds(magnitude as int));
}

/// A position in seconds with six decimals, as `ffmpeg` reads it.
pub fn position_text(us: i64) -> (r: String)
    ensures
        r@ == seconds(us as int),
{
    let mut out = String::new();
    if us < 0 {
        out.push('-');
        push_seconds(&mut out, (-(us as i128)) as u64);
    } else {
        push_seconds(&mut out, us as u64);
    }
    assert(out@ =~= seconds(us as int));
    out
}

/// A duration in seconds with six decimals, as `ffmpeg` reads it.
pub fn duration_text(us: u64) -> (r: String)
    ensures
        r@ == seconds(us as int),
{
    let mut out = String::new();
    push_seconds(&mut out, us);
    assert(out@ =~= seconds(us as int));
    out
}

fn hex_digit(d: u8) -> (c: char)
    requires
        d < 16,
    ensures
        c == hex_char(d as nat),
{
    if d < 10 {
        (48 + d) as char
    } else {
        (87 + d) as char
    }
}

/// A byte as two lower-case hexadecimal digits.
pub fn hex_byte_text(b: u8) -> (r: String)
    ensures
        r@ == hex_byte(b),
{
    let mut out = String::new();
    out.push(hex_digit(b / 16));
    out.push(hex_digit(b % 16));
    assert(out@ =~= hex_byte(b));
    out
}

// ── Plain text ────────────────────────────────────────────────────────────────

/// The characters of a text.
pub fn chars_of(s: &str) -> (v: Vec<char>)
    ensures
        v@ == s@,
{
    let mut v: Vec<char> = Vec::new();
    for c in it: s.chars()
        invariant
            it.seq() == s@,
            v@ == s@.take(it.index() as int),
    {
        v.push(c);
        assert(s@.take(it.index() + 1) =~= s@.take(it.index() as int).push(c));
    }
    assert(s@.take(s@.len() as int) =~= s@);
    v
}

/// The first position from `from` on that holds `c`, or the length of the text.
pub open spec fn position_of(s: Seq<char>, c: char, from: int) -> int
    decreases s.len() - from,
{
    if 0 <= from < s.len() && s[from] != c {
        position_of(s, c, from + 1)
    } else {
        from
    }
}

/// The first position that holds a character is where nothing before it does.
pub proof fn lemma_position_of(s: Seq<char>, c: char, from: int, at: int)
    requires
        0 <= from <= at <= s.len(),
        forall|i: int| from <= i < at ==> #[trigger] s[i] != c,
        at == s.len() || s[at] == c,
    ensures
        position_of(s, c, from) == at,
    decreases at - from,
{
    if from < at {
        assert(s[from] != c);
        lemma_position_of(s, c, from + 1, at);
    }
}

/// The first position that holds `c`, or the number of characters.
pub fn find_char(s: &str, c: char) -> (r: usize)
    ensures
        r == position_of(s@, c, 0),
        r <= s@.len(),
        r < s@.len() ==> s@[r as int] == c,
{
    let text = chars_of(s);
    let mut i: usize = 0;
    while i < text.len() && text[i] != c
        invariant
            i <= text.len(),
            text@ == s@,
            position_of(s@, c, 0) == position_of(s@, c, i as int),
        decreases text.len() - i,
    {
        i = i + 1;
    }
    i
}

/// Two texts hold the same characters.
pub fn same_text(a: &str, b: &str) -> (r: bool)
    ensures
        r == (a@ == b@),
{
    a.to_owned() == b.to_owned()
}

/// An optional text holds exactly the characters of `b`.
pub fn is_text(a: &Option<String>, b: &str) -> (r: bool)
    ensures
        r == (a matches Some(t) && t@ == b@),
{
    match a {
        Some(t) => same_text(t.as_str(), b),
        None => false,
    }
}

/// A character of the Unicode property White_Space.
pub open spec fn is_white(c: char) -> bool {
    ||| '\u{9}' <= c <= '\u{d}'
    ||| c == ' '
    ||| c == '\u{85}'
    ||| c == '\u{a0}'
    ||| c == '\u{1680}'
    ||| '\u{2000}' <= c <= '\u{200a}'
    ||| c == '\u{2028}'
    ||| c == '\u{2029}'
    ||| c == '\u{202f}'
    ||| c == '\u{205f}'
    ||| c == '\u{3000}'
}

/// A text without the white space around it.
pub open spec fn trimmed(s: Seq<char>) -> Seq<char>
    decreases s.len(),
{
    if s.len() > 0 && is_white(s[0]) {
        trimmed(s.skip(1))
    } else if s.len() > 0 && is_white(s.last()) {
        trimmed(s.drop_last())
    } else {
        s
    }
}

fn white(c: char) -> (r: bool)
    ensures
        r == is_white(c),
{
    (c >= '\u{9}' && c <= '\u{d}') || c == ' ' || c == '\u{85}' || c == '\u{a0}' || c == '\u{1680}'
        || (c >= '\u{2000}' && c <= '\u{200a}') || c == '\u{2028}' || c == '\u{2029}' || c
        == '\u{202f}' || c == '\u{205f}' || c == '\u{3000}'
}

/// A text without the white space around it.
pub fn trim(s: &str) -> (r: &str)
    ensures
        r@ == trimmed(s@),
{
    let text = chars_of(s);
    let mut start: usize = 0;
    let mut end: usize = text.len();
    assert(s@.subrange(0, s@.len() as int) =~= s@);
    while start < end && white(text[start])
        invariant
            start <= end == text.len(),
            text@ == s@,
            trimmed(s@) == trimmed(s@.subrange(start as int, end as int)),
        decreases end - start,
    {
        let ghost part = s@.subrange(start as int, end as int);
        assert(part[0] == text@[start as int]);
        assert(part.skip(1) =~= s@.subrange(start + 1, end as int));
        start = start + 1;
    }
    while start < end && white(text[end - 1])
        invariant
            start <= end <= text.len(),
            text@ == s@,
            start < end ==> !is_white(s@[start as int]),
            trimmed(s@) == trimmed(s@.subrange(start as int, end as int)),
        decreases end - start,
    {
        let ghost part = s@.subrange(start as int, end as int);
        assert(part[0] == text@[start as int]);
        assert(part.last() == text@[end - 1]);
        assert(part.drop_last() =~= s@.subrange(start as int, end - 1));
        end = end - 1;
    }
    let ghost part = s@.subrange(start as int, end as int);
    assert(start < end ==> part[0] == text@[start as int] && part.last() == text@[end - 1]);
    s.substring_char(start, end)
}

// ── Lists of texts ────────────────────────────────────────────────────────────

/// The texts of a list.
pub open spec fn texts(list: Seq<String>) -> Seq<Seq<char>> {
    Seq::new(list.len(), |i: int| list[i]@)
}

/// The texts of a list of borrowed texts.
pub open spec fn words(list: Seq<&str>) -> Seq<Seq<char>> {
    Seq::new(list.len(), |i: int| list[i]@)
}

/// Appends one text.
pub fn push_text(list: &mut Vec<String>, text: &str)
    ensures
        texts(final(list)@) == texts(old(list)@).push(text@),
{
    let ghost before = list@;
    list.push(text.to_owned());
    assert(texts(list@) =~= texts(before).push(text@));
}

/// Appends a list of texts in order.
pub fn push_texts(list: &mut Vec<String>, more: &[&str])
    ensures
        texts(final(list)@) == texts(old(list)@) + words(more@),
{
    let ghost before = list@;
    let mut i: usize = 0;
    assert(texts(list@) =~= texts(before) + words(more@).take(0));
    while i < more.len()
        invariant
            i <= more.len(),
            texts(list@) == texts(before) + words(more@).take(i as int),
        decreases more.len() - i,
    {
        push_text(list, more[i]);
        assert(texts(list@) =~= texts(before) + words(more@).take(i + 1));
        i = i + 1;
    }
    assert(words(more@).take(more@.len() as int) =~= words(more@));
}

// ── Laws ──────────────────────────────────────────────────────────────────────

/// A byte is written as two lower-case hexadecimal digits that stand for it, the higher one first.
pub proof fn law_hex_reads_back(b: u8)
    ensures
        hex_byte(b).len() == 2,
        ({
            let high = hex_byte(b)[0];
            let low = hex_byte(b)[1];
            let h = if high <= '9' {
                high as int - '0' as int
            } else {
                high as int - 'a' as int + 10
            };
            let l = if low <= '9' {
                low as int - '0' as int
            } else {
                low as int - 'a' as int + 10
            };
            &&& '0' <= high <= '9' || 'a' <= high <= 'f'
            &&& '0' <= low <= '9' || 'a' <= low <= 'f'
            &&& 16 * h + l == b
        }),
{
}

/// Trimming takes away white space at both ends and nothing else: what is left starts and ends with
/// other characters, and only white space stands around it.
pub proof fn law_trim_takes_white_space_only(s: Seq<char>)
    ensures
        exists|before: Seq<char>, after: Seq<char>|
            {
                &&& s == #[trigger] (before + trimmed(s) + after)
                &&& forall|i: int| 0 <= i < before.len() ==> is_white(#[trigger] before[i])
                &&& forall|i: int| 0 <= i < after.len() ==> is_white(#[trigger] after[i])
            },
        trimmed(s).len() > 0 ==> !is_white(trimmed(s)[0]) && !is_white(trimmed(s).last()),
    decreases s.len(),
{
    if s.len() > 0 && is_white(s[0]) {
        let rest = s.skip(1);
        law_trim_takes_white_space_only(rest);
        let (b, a) = choose|before: Seq<char>, after: Seq<char>|
            {
                &&& rest == #[trigger] (before + trimmed(rest) + after)
                &&& forall|i: int| 0 <= i < before.len() ==> is_white(#[trigger] before[i])
                &&& forall|i: int| 0 <= i < after.len() ==> is_white(#[trigger] after[i])
            };
        let before = seq![s[0]] + b;
        assert(s =~= before + trimmed(s) + a) by {
            assert(s =~= seq![s[0]] + rest);
            assert(seq![s[0]] + (b + trimmed(rest) + a) =~= before + trimmed(rest) + a);
        }
    } else if s.len() > 0 && is_white(s.last()) {
        let rest = s.drop_last();
        law_trim_takes_white_space_only(rest);
        let (b, a) = choose|before: Seq<char>, after: Seq<char>|
            {
                &&& rest == #[trigger] (before + trimmed(rest) + after)
                &&& forall|i: int| 0 <= i < before.len() ==> is_white(#[trigger] before[i])
                &&& forall|i: int| 0 <= i < after.len() ==> is_white(#[trigger] after[i])
            };
        let after = a.push(s.last());
        assert(s =~= b + trimmed(s) + after) by {
            assert(s =~= rest.push(s.last()));
        }
    } else {
        let e = Seq::<char>::empty();
        assert(s =~= e + trimmed(s) + e);
    }
}

/// A list of texts holds the text of each entry at its place, and no more.
pub proof fn law_lists_keep_their_entries(list: Seq<String>, borrowed: Seq<&str>, i: int)
    ensures
        texts(list).len() == list.len(),
        words(borrowed).len() == borrowed.len(),
        0 <= i < list.len() ==> texts(list)[i] == list[i]@,
        0 <= i < borrowed.len() ==> words(borrowed)[i] == borrowed[i]@,
{
}

} // verus!
