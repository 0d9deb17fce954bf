//! Numbers read from text: whole numbers, and decimals held in millionths.
//!
//! `ffprobe` writes every position and rate as text. A whole number is read as is; a decimal is
//! read into millionths of its unit, so that the six decimals of a position are kept exactly.
use vstd::prelude::*;

use crate::text::{
    all_digits, chars_of, decimal, digit_char, digit_value, digits_value, fixed_digits, is_digit, pow10,
    seconds,
};

verus! {

// ── Whole numbers ─────────────────────────────────────────────────────────────

/// The text without a leading plus sign.
pub open spec fn without_plus(s: Seq<char>) -> Seq<char> {
    if s.len() > 0 && s[0] == '+' {
        s.skip(1)
    } else {
        s
    }
}

/// What a text reads as a `u64`: an optional plus sign and at least one decimal digit, the number
/// no larger than a `u64` can hold.
pub open spec fn whole_number(s: Seq<char>) -> Option<u64> {
    let digits = without_plus(s);
    if digits.len() > 0 && all_digits(digits) && digits_value(digits) <= u64::MAX {
        Some(digits_value(digits) as u64)
    } else {
        None
    }
}

/// Dropping digits at the end of a run makes its number no larger.
proof fn lemma_prefix_value(s: Seq<char>, n: int)
    requires
        0 <= n <= s.len(),
    ensures
        digits_value(s.take(n)) <= digits_value(s),
    decreases s.len(),
{
    if n == s.len() {
        assert(s.take(n) =~= s);
    } else {
        lemma_prefix_value(s.drop_last(), n);
        assert(s.drop_last().take(n) =~= s.take(n));
    }
}

/// The number that a text stands for, if it is a whole number that a `u64` can hold.
pub fn parse_u64(s: &str) -> (r: Option<u64>)
    ensures
        r == whole_number(s@),
{
    let text = chars_of(s);
    let start: usize = if text.len() > 0 && text[0] == '+' {
        1
    } else {
        0
    };
    let ghost digits = without_plus(s@);
    assert(digits =~= s@.skip(start as int));
    if start == text.len() {
        return None;
    }
    let mut value: u64 = 0;
    let mut i: usize = start;
    while i < text.len()
        invariant
            start <= i <= text.len(),
            text@ == s@,
            digits == s@.skip(start as int),
            digits == without_plus(s@),
            digits.len() > 0,
            value == digits_value(digits.take(i - start)),
            all_digits(digits.take(i - start)),
        decreases text.len() - i,
    {
        let c = text[i];
        let ghost k = i - start;
        assert(digits[k] == c);
        assert(digits.take(k + 1).drop_last() =~= digits.take(k));
        assert(digits.take(k + 1).last() == c);
        if !(c >= '0' && c <= '9') {
            assert(!is_digit(digits[k]));
            return None;
        }
        let d: u64 = (c as u32 - 48) as u64;
        assert forall|j: int| 0 <= j < k + 1 implies is_digit(#[trigger] digits.take(k + 1)[j]) by {
            if j < k {
                assert(digits.take(k)[j] == digits.take(k + 1)[j]);
            }
        }
        proof {
            lemma_prefix_value(digits, k + 1);
        }
        if value > (u64::MAX - d) / 10 {
            assert(10 * value + d > u64::MAX);
            return None;
        }
        value = value * 10 + d;
        i = i + 1;
    }
    assert(digits.take(digits.len() as int) =~= digits);
    Some(value)
}

// ── Decimals ──────────────────────────────────────────────────────────────────

/// Where the run of decimal digits that starts at `from` ends.
pub open spec fn run_end(s: Seq<char>, from: int) -> int
    decreases s.len() - from,
{
    if 0 <= from < s.len() && is_digit(s[from]) {
        run_end(s, from + 1)
    } else {
        from
    }
}

/// The exponent that a text such as `e-3` spells out.
pub open spec fn exponent(s: Seq<char>) -> Option<int> {
    if s.len() > 0 && (s[0] == 'e' || s[0] == 'E') {
        let signed = s.len() > 1 && (s[1] == '-' || s[1] == '+');
        let digits = if signed {
            s.skip(2)
        } else {
            s.skip(1)
        };
        if digits.len() > 0 && all_digits(digits) {
            if signed && s[1] == '-' {
                Some(-(digits_value(digits) as int))
            } else {
                Some(digits_value(digits) as int)
            }
        } else {
            None
        }
    } else {
        None
    }
}

/// The digits at the start of a text, with or without a decimal point among them; how many of them
/// stand before the point; and where they end.
pub open spec fn mantissa(s: Seq<char>) -> (Seq<char>, int, int) {
    let whole = run_end(s, 0);
    if whole < s.len() && s[whole] == '.' {
        let end = run_end(s, whole + 1);
        (s.subrange(0, whole) + s.subrange(whole + 1, end), whole, end)
    } else {
        (s.subrange(0, whole), whole, whole)
    }
}

/// The digits of an unsigned decimal such as `12.5` or `1.25e1`, and how many of them stand before
/// the decimal point once the exponent is applied (fewer than none for `1e-3`).
pub open spec fn decimal_parts(s: Seq<char>) -> Option<(Seq<char>, int)> {
    let (digits, whole, end) = mantissa(s);
    if digits.len() == 0 {
        None
    } else if end == s.len() {
        Some((digits, whole))
    } else {
        match exponent(s.skip(end)) {
            Some(e) => Some((digits, whole + e)),
            None => None,
        }
    }
}

/// Millionths of the decimal whose digits are `digits`, `point` of them before the decimal point;
/// the nearest whole number of them, a half rounded up.
pub open spec fn millionths(digits: Seq<char>, point: int) -> nat {
    let value = digits_value(digits);
    let dropped = digits.len() - (point + 6);
    if dropped <= 0 {
        value * pow10((-dropped) as nat)
    } else {
        (2 * value + pow10(dropped as nat)) / (2 * pow10(dropped as nat))
    }
}

/// `n`, or the largest `i64` where that is smaller.
pub open spec fn capped(n: nat) -> nat {
    if n <= i64::MAX {
        n
    } else {
        i64::MAX as nat
    }
}

/// The ASCII lower-case form of a character.
pub open spec fn lower(c: char) -> char {
    if 'A' <= c <= 'Z' {
        (c as int + 32) as char
    } else {
        c
    }
}

/// Two texts are equal up to the case of ASCII letters, `b` being in lower case.
pub open spec fn same_letters(a: Seq<char>, b: Seq<char>) -> bool {
    a.len() == b.len() && forall|i: int| 0 <= i < a.len() ==> lower(#[trigger] a[i]) == b[i]
}

/// The text after an optional sign.
pub open spec fn without_sign(s: Seq<char>) -> Seq<char> {
    if s.len() > 0 && (s[0] == '-' || s[0] == '+') {
        s.skip(1)
    } else {
        s
    }
}

/// What a text reads as a decimal, in millionths: the nearest whole number of them, and the
/// largest magnitude of an `i64` where the decimal lies beyond it or is infinite. A text that is
/// no number (`N/A`, `nan`) reads as nothing.
pub open spec fn decimal_number(s: Seq<char>) -> Option<int> {
    let body = without_sign(s);
    let magnitude = match decimal_parts(body) {
        Some((digits, point)) => Some(capped(millionths(digits, point))),
        None => if same_letters(body, "inf"@) || same_letters(body, "infinity"@) {
            Some(i64::MAX as nat)
        } else {
            None
        },
    };
    match magnitude {
        Some(m) => Some(
            if s.len() > 0 && s[0] == '-' {
                -(m as int)
            } else {
                m as int
            },
        ),
        None => None,
    }
}

proof fn lemma_run_end(s: Seq<char>, from: int)
    requires
        0 <= from <= s.len(),
    ensures
        from <= run_end(s, from) <= s.len(),
        forall|i: int| from <= i < run_end(s, from) ==> is_digit(#[trigger] s[i]),
    decreases s.len() - from,
{
    if from < s.len() && is_digit(s[from]) {
        lemma_run_end(s, from + 1);
    }
}

proof fn lemma_pow10_positive(n: nat)
    ensures
        pow10(n) >= 1,
    decreases n,
{
    if n > 0 {
        lemma_pow10_positive((n - 1) as nat);
    }
}

proof fn lemma_pow10_grows(a: nat, b: nat)
    requires
        a <= b,
    ensures
        pow10(a) <= pow10(b),
    decreases b,
{
    if a < b {
        lemma_pow10_grows(a, (b - 1) as nat);
        lemma_pow10_positive((b - 1) as nat);
    }
}

proof fn lemma_value_bound(s: Seq<char>)
    requires
        all_digits(s),
    ensures
        digits_value(s) < pow10(s.len()),
    decreases s.len(),
{
    if s.len() > 0 {
        assert forall|i: int| 0 <= i < s.drop_last().len() implies is_digit(
            #[trigger] s.drop_last()[i],
        ) by {
            assert(s.drop_last()[i] == s[i]);
        }
        lemma_value_bound(s.drop_last());
        assert(is_digit(s[s.len() - 1]));
    }
}

/// A run of digits put behind another shifts the first one's number.
proof fn lemma_value_concat(a: Seq<char>, b: Seq<char>)
    ensures
        digits_value(a + b) == digits_value(a) * pow10(b.len()) + digits_value(b),
    decreases b.len(),
{
    if b.len() == 0 {
        assert(a + b =~= a);
        assert(digits_value(a) * 1 == digits_value(a));
    } else {
        lemma_value_concat(a, b.drop_last());
        assert((a + b).drop_last() =~= a + b.drop_last());
        assert((a + b).last() == b.last());
        let x = digits_value(a);
        let p = pow10((b.len() - 1) as nat);
        assert(10 * (x * p) == x * (10 * p)) by (nonlinear_arith);
    }
}

/// What rounding at a digit means: the digits kept, and one more where the first dropped digit is
/// five or larger.
proof fn lemma_rounding(digits: Seq<char>, keep: int)
    requires
        all_digits(digits),
        0 <= keep < digits.len(),
    ensures
        ({
            let p = pow10((digits.len() - keep) as nat);
            (2 * digits_value(digits) + p) / (2 * p) == digits_value(digits.take(keep)) + (
            if digit_value(digits[keep]) >= 5 {
                1int
            } else {
                0
            })
        }),
{
    let head = digits.take(keep);
    let tail = digits.skip(keep);
    let rest = digits.skip(keep + 1);
    let n = (digits.len() - keep) as nat;
    let p = pow10(n);
    let q = pow10((n - 1) as nat);
    assert(digits =~= head + tail);
    lemma_value_concat(head, tail);
    assert(tail =~= seq![digits[keep]] + rest);
    lemma_value_concat(seq![digits[keep]], rest);
    let first = digit_value(digits[keep]);
    assert(seq![digits[keep]].drop_last() =~= Seq::<char>::empty());
    assert(digits_value(seq![digits[keep]]) == first) by {
        reveal_with_fuel(digits_value, 2);
    }
    assert forall|i: int| 0 <= i < rest.len() implies is_digit(#[trigger] rest[i]) by {
        assert(rest[i] == digits[keep + 1 + i]);
    }
    lemma_value_bound(rest);
    assert(is_digit(digits[keep]));
    let v = digits_value(tail);
    assert(v == first * q + digits_value(rest));
    assert(p == 10 * q);
    let h = digits_value(head);
    let r = digits_value(rest);
    let up: int = if first >= 5 {
        1
    } else {
        0
    };
    lemma_pow10_positive(n);
    assert(first <= 9);
    // What is left over once the rounded number is taken out.
    let left = 2 * v + p - up * (2 * p);
    assert(0 <= left < 2 * p) by (nonlinear_arith)
        requires
            left == 2 * v + p - up * (2 * p),
            v == first * q + r,
            0 <= r < q,
            p == 10 * q,
            first <= 9,
            up == (if first >= 5 {
                1int
            } else {
                0
            }),
    ;
    assert(2 * digits_value(digits) + p == (h + up) * (2 * p) + left) by (nonlinear_arith)
        requires
            digits_value(digits) == h * p + v,
            left == 2 * v + p - up * (2 * p),
    ;
    vstd::arithmetic::div_mod::lemma_fundamental_div_mod_converse(
        (2 * digits_value(digits) + p) as int,
        (2 * p) as int,
        h + up,
        left,
    );
}

/// A decimal whose first digit stands behind the seventh decimal rounds to nothing.
proof fn lemma_vanishing(digits: Seq<char>, point: int)
    requires
        all_digits(digits),
        point + 6 < 0,
    ensures
        millionths(digits, point) == 0,
{
    let dropped = (digits.len() - (point + 6)) as nat;
    let p = pow10(dropped);
    lemma_value_bound(digits);
    lemma_pow10_grows(digits.len(), (dropped - 1) as nat);
    lemma_pow10_positive(dropped);
    assert(2 * digits_value(digits) + p < 2 * p);
    vstd::arithmetic::div_mod::lemma_fundamental_div_mod_converse(
        (2 * digits_value(digits) + p) as int,
        (2 * p) as int,
        0,
        (2 * digits_value(digits) + p) as int,
    );
}

/// A decimal other than zero with twenty or more digits before the point is larger than an `i64`.
proof fn lemma_enormous(digits: Seq<char>, point: int)
    requires
        point >= digits.len() + 20,
    ensures
        capped(millionths(digits, point)) == (if digits_value(digits) == 0 {
            0
        } else {
            i64::MAX as nat
        }),
{
    let shift = (point + 6 - digits.len()) as nat;
    let v = digits_value(digits);
    let p = pow10(shift);
    lemma_pow10_grows(20, shift);
    assert(pow10(20) > i64::MAX) by {
        reveal_with_fuel(pow10, 21);
    }
    assert(v == 0 ==> v * p == 0) by (nonlinear_arith);
    assert(v >= 1 ==> v * p >= p) by (nonlinear_arith);
}

/// The number of a run of digits, no larger than `i64::MAX`.
fn capped_value(digits: &Vec<char>, end: usize) -> (r: u64)
    requires
        end <= digits.len(),
        all_digits(digits@),
    ensures
        r == capped(digits_value(digits@.take(end as int))),
{
    let mut value: u64 = 0;
    let mut i: usize = 0;
    assert(digits@.take(0) =~= Seq::<char>::empty());
    while i < end
        invariant
            i <= end <= digits.len(),
            all_digits(digits@),
            value == capped(digits_value(digits@.take(i as int))),
        decreases end - i,
    {
        assert(is_digit(digits@[i as int]));
        assert(digits@.take(i + 1).drop_last() =~= digits@.take(i as int));
        assert(digits@.take(i + 1).last() == digits@[i as int]);
        let d: u64 = (digits[i] as u32 - 48) as u64;
        if value > (i64::MAX as u64 - d) / 10 {
            value = i64::MAX as u64;
        } else {
            value = value * 10 + d;
        }
        i = i + 1;
    }
    value
}

/// `value` times ten to the power of `shift`, no larger than `i64::MAX`.
fn capped_shift(value: u64, shift: u128) -> (r: u64)
    requires
        value <= i64::MAX,
    ensures
        r == capped(value as nat * pow10(shift as nat)),
{
    if value == 0 {
        assert(0 * pow10(shift as nat) == 0) by (nonlinear_arith);
        return 0;
    }
    let mut out: u64 = value;
    let mut left: u128 = shift;
    assert(value * pow10(0) == value) by (nonlinear_arith)
        requires
            pow10(0) == 1,
    ;
    while left > 0
        invariant
            left <= shift,
            0 < value,
            0 < out <= i64::MAX,
            capped(out as nat * pow10(left as nat)) == capped(value as nat * pow10(shift as nat)),
        decreases left,
    {
        let ghost o = out as nat;
        let ghost p = pow10((left - 1) as nat);
        assert(o * (10 * p) == (10 * o) * p) by (nonlinear_arith);
        proof {
            lemma_pow10_positive((left - 1) as nat);
        }
        if out > i64::MAX as u64 / 10 {
            assert((10 * o) * p >= 10 * o) by (nonlinear_arith)
                requires
                    p >= 1,
            ;
            return i64::MAX as u64;
        }
        out = out * 10;
        left = left - 1;
    }
    assert(out as nat * pow10(0) == out) by (nonlinear_arith)
        requires
            pow10(0) == 1,
    ;
    out
}

/// The largest exponent that is kept exactly; every larger one shifts the point beyond any text.
const EXPONENT_CAP: i128 = 1_000_000_000_000_000_000_000_000_000_000;

/// Millionths of a decimal, no larger than `i64::MAX`.
fn capped_millionths(digits: &Vec<char>, point: i128) -> (r: u64)
    requires
        all_digits(digits@),
        -100 * EXPONENT_CAP < point < 100 * EXPONENT_CAP,
    ensures
        r == capped(millionths(digits@, point as int)),
{
    let n: i128 = digits.len() as i128;
    let keep: i128 = point + 6;
    if keep < 0 {
        proof {
            lemma_vanishing(digits@, point as int);
        }
        0
    } else if keep < n {
        proof {
            lemma_rounding(digits@, keep as int);
            assert(is_digit(digits@[keep as int]));
        }
        let kept = capped_value(digits, keep as usize);
        if digits[keep as usize] >= '5' && kept < i64::MAX as u64 {
            kept + 1
        } else {
            kept
        }
    } else {
        let value = capped_value(digits, digits.len());
        assert(digits@.take(digits@.len() as int) =~= digits@);
        let shift: u128 = (keep - n) as u128;
        let ghost v = digits_value(digits@);
        let ghost p = pow10(shift as nat);
        proof {
            lemma_pow10_positive(shift as nat);
            assert(v >= i64::MAX ==> v * p >= i64::MAX) by (nonlinear_arith)
                requires
                    p >= 1,
            ;
            assert(i64::MAX as nat * p >= i64::MAX) by (nonlinear_arith)
                requires
                    p >= 1,
            ;
        }
        capped_shift(value, shift)
    }
}

/// The end of the run of decimal digits that starts at `from`.
fn find_run_end(text: &Vec<char>, from: usize) -> (end: usize)
    requires
        from <= text.len(),
    ensures
        end == run_end(text@, from as int),
        from <= end <= text.len(),
        forall|i: int| from <= i < end ==> is_digit(#[trigger] text@[i]),
{
    let mut i: usize = from;
    while i < text.len() && text[i] >= '0' && text[i] <= '9'
        invariant
            from <= i <= text.len(),
            run_end(text@, from as int) == run_end(text@, i as int),
        decreases text.len() - i,
    {
        i = i + 1;
    }
    proof {
        lemma_run_end(text@, from as int);
    }
    i
}

/// A decimal point beyond this many digits is as good as any other beyond it.
proof fn lemma_far_point(digits: Seq<char>, a: int, b: int)
    requires
        all_digits(digits),
        a == b || (a >= digits.len() + 20 && b >= digits.len() + 20) || (a < -6 && b < -6),
    ensures
        capped(millionths(digits, a)) == capped(millionths(digits, b)),
{
    if a == b {
    } else if a < -6 {
        lemma_vanishing(digits, a);
        lemma_vanishing(digits, b);
    } else {
        lemma_enormous(digits, a);
        lemma_enormous(digits, b);
    }
}

/// The exponent that starts at `from`, exact up to `EXPONENT_CAP` in magnitude.
fn parse_exponent(text: &Vec<char>, from: usize) -> (r: Option<i128>)
    requires
        from < text.len(),
    ensures
        (r is Some) == (exponent(text@.skip(from as int)) is Some),
        r matches Some(e) ==> ({
            let exact = exponent(text@.skip(from as int))->0;
            &&& -10 * EXPONENT_CAP <= e <= 10 * EXPONENT_CAP
            &&& e == exact || (e >= EXPONENT_CAP && exact >= EXPONENT_CAP) || (e <= -EXPONENT_CAP
                && exact <= -EXPONENT_CAP)
        }),
{
    let ghost tail = text@.skip(from as int);
    if text[from] != 'e' && text[from] != 'E' {
        return None;
    }
    let mut i: usize = from + 1;
    let mut negative = false;
    if i < text.len() && (text[i] == '-' || text[i] == '+') {
        negative = text[i] == '-';
        i = i + 1;
    }
    let start: usize = i;
    let ghost digits = text@.skip(start as int);
    proof {
        if tail.len() > 1 && (tail[1] == '-' || tail[1] == '+') {
            assert(tail.skip(2) =~= digits);
        } else {
            assert(tail.skip(1) =~= digits);
        }
    }
    if start == text.len() {
        return None;
    }
    let mut value: i128 = 0;
    assert(digits.take(0) =~= Seq::<char>::empty());
    while i < text.len()
        invariant
            start <= i <= text.len(),
            digits == text@.skip(start as int),
            all_digits(digits.take(i - start)),
            0 <= value < 10 * EXPONENT_CAP,
            value == digits_value(digits.take(i - start)) || (value >= EXPONENT_CAP && digits_value(
                digits.take(i - start),
            ) >= EXPONENT_CAP),
            ({
                let d = if tail.len() > 1 && (tail[1] == '-' || tail[1] == '+') {
                    tail.skip(2)
                } else {
                    tail.skip(1)
                };
                d == digits
            }),
            tail == text@.skip(from as int),
            from < text.len(),
        decreases text.len() - i,
    {
        let c = text[i];
        let ghost k = i - start;
        assert(digits[k] == c);
        assert(digits.take(k + 1).drop_last() =~= digits.take(k));
        assert(digits.take(k + 1).last() == c);
        if !(c >= '0' && c <= '9') {
            assert(!is_digit(digits[k]));
            return None;
        }
        assert forall|j: int| 0 <= j < k + 1 implies is_digit(#[trigger] digits.take(k + 1)[j]) by {
            if j < k {
                assert(digits.take(k)[j] == digits.take(k + 1)[j]);
            }
        }
        if value < EXPONENT_CAP {
            value = value * 10 + (c as u32 - 48) as i128;
        }
        i = i + 1;
    }
    assert(digits.take(digits.len() as int) =~= digits);
    if negative {
        Some(-value)
    } else {
        Some(value)
    }
}

/// The characters from `from` on are those of `word`, whatever the case of their letters.
fn spells(text: &Vec<char>, from: usize, word: &str) -> (r: bool)
    requires
        from <= text.len(),
    ensures
        r == same_letters(text@.skip(from as int), word@),
{
    let letters = chars_of(word);
    if text.len() - from != letters.len() {
        return false;
    }
    let mut i: usize = 0;
    while i < letters.len()
        invariant
            i <= letters.len(),
            from + letters.len() == text.len(),
            letters@ == word@,
            forall|j: int| 0 <= j < i ==> lower(#[trigger] text@.skip(from as int)[j]) == word@[j],
        decreases letters.len() - i,
    {
        let c = text[from + i];
        assert(text@.skip(from as int)[i as int] == c);
        let l = if c >= 'A' && c <= 'Z' {
            (c as u8 + 32) as char
        } else {
            c
        };
        if l != letters[i] {
            return false;
        }
        i = i + 1;
    }
    true
}

/// The decimal that a text stands for, in millionths.
pub fn parse_millionths(s: &str) -> (r: Option<i64>)
    ensures
        match r {
            Some(v) => decimal_number(s@) == Some(v as int),
            None => decimal_number(s@) is None,
        },
{
    let text = chars_of(s);
    let negative = text.len() > 0 && text[0] == '-';
    let start: usize = if text.len() > 0 && (text[0] == '-' || text[0] == '+') {
        1
    } else {
        0
    };
    let ghost body = without_sign(s@);
    assert(body =~= s@.skip(start as int));
    let magnitude = match unsigned_millionths(&text, start) {
        Some(m) => m,
        None => if spells(&text, start, "inf") || spells(&text, start, "infinity") {
            i64::MAX as u64
        } else {
            return None;
        },
    };
    if negative {
        Some(-(magnitude as i64))
    } else {
        Some(magnitude as i64)
    }
}

/// The digits that start at `from`, how many of them stand before the decimal point, and where in
/// `text` they end.
fn split_mantissa(text: &Vec<char>, from: usize) -> (r: (Vec<char>, usize, usize))
    requires
        from <= text.len(),
    ensures
        (r.0@, r.1 as int, r.2 - from) == mantissa(text@.skip(from as int)),
        all_digits(r.0@),
        from <= r.2 <= text.len(),
{
    let ghost body = text@.skip(from as int);
    let whole = find_run_end(text, from);
    proof {
        lemma_run_end_shift(text@, from as int, 0);
    }
    let mut digits: Vec<char> = Vec::new();
    push_range(&mut digits, text, from, whole);
    assert(body.subrange(0, whole - from) =~= text@.subrange(from as int, whole as int));
    assert(digits@ =~= body.subrange(0, whole - from));
    if whole < text.len() && text[whole] == '.' {
        assert(body[whole - from] == '.');
        let end = find_run_end(text, whole + 1);
        proof {
            lemma_run_end_shift(text@, from as int, whole + 1 - from);
        }
        push_range(&mut digits, text, whole + 1, end);
        assert(body.subrange(whole + 1 - from, end - from) =~= text@.subrange(
            whole + 1,
            end as int,
        ));
        (digits, whole - from, end)
    } else {
        assert(whole < text.len() ==> body[whole - from] != '.');
        (digits, whole - from, whole)
    }
}

/// Millionths of the unsigned decimal that starts at `from`.
fn unsigned_millionths(text: &Vec<char>, from: usize) -> (r: Option<u64>)
    requires
        from <= text.len(),
    ensures
        match decimal_parts(text@.skip(from as int)) {
            Some((digits, point)) => r == Some(capped(millionths(digits, point)) as u64),
            None => r is None,
        },
        r matches Some(m) ==> m <= i64::MAX,
{
    let ghost body = text@.skip(from as int);
    let (digits, whole, end) = split_mantissa(text, from);
    if digits.len() == 0 {
        return None;
    }
    let lead: i128 = whole as i128;
    if end == text.len() {
        return Some(capped_millionths(&digits, lead));
    }
    assert(body.skip(end - from) =~= text@.skip(end as int));
    match parse_exponent(text, end) {
        Some(e) => {
            proof {
                let exact = exponent(body.skip(end - from))->0;
                lemma_far_point(digits@, lead + e, lead + exact);
            }
            Some(capped_millionths(&digits, lead + e))
        },
        None => None,
    }
}

/// Where a run of digits ends does not depend on what stands before it.
proof fn lemma_run_end_shift(s: Seq<char>, from: int, k: int)
    requires
        0 <= from,
        0 <= k,
        from + k <= s.len(),
    ensures
        run_end(s, from + k) == from + run_end(s.skip(from), k),
    decreases s.len() - from - k,
{
    if from + k < s.len() && is_digit(s[from + k]) {
        assert(s.skip(from)[k] == s[from + k]);
        lemma_run_end_shift(s, from, k + 1);
    } else if from + k < s.len() {
        assert(s.skip(from)[k] == s[from + k]);
    }
}

/// Appends the digits of `text` from `from` up to `to`.
fn push_range(out: &mut Vec<char>, text: &Vec<char>, from: usize, to: usize)
    requires
        from <= to <= text.len(),
        all_digits(old(out)@),
        forall|i: int| from <= i < to ==> is_digit(#[trigger] text@[i]),
    ensures
        final(out)@ == old(out)@ + text@.subrange(from as int, to as int),
        all_digits(final(out)@),
{
    let ghost before = out@;
    let mut i: usize = from;
    assert(before + text@.subrange(from as int, from as int) =~= before);
    while i < to
        invariant
            from <= i <= to <= text.len(),
            all_digits(out@),
            forall|j: int| from <= j < to ==> is_digit(#[trigger] text@[j]),
            out@ == before + text@.subrange(from as int, i as int),
        decreases to - i,
    {
        out.push(text[i]);
        assert(out@ =~= before + text@.subrange(from as int, i + 1));
        i = i + 1;
    }
}

/// A digit other than zero stands in a text before any exponent, so that it reads as more than zero
/// or less, however little.
pub open spec fn is_nonzero(s: Seq<char>) -> bool {
    exists|i: int|
        0 <= i < s.len() && '1' <= #[trigger] s[i] <= '9' && forall|j: int|
            0 <= j < i ==> #[trigger] s[j] != 'e' && s[j] != 'E'
}

/// A digit other than zero stands in a text before any exponent.
pub fn has_nonzero_digit(s: &str) -> (r: bool)
    ensures
        r == is_nonzero(s@),
{
    let text = chars_of(s);
    let mut i: usize = 0;
    while i < text.len()
        invariant
            i <= text.len(),
            text@ == s@,
            forall|j: int|
                0 <= j < i ==> !('1' <= #[trigger] s@[j] <= '9') && s@[j] != 'e' && s@[j] != 'E',
        decreases text.len() - i,
    {
        let c = text[i];
        assert(s@[i as int] == c);
        if c == 'e' || c == 'E' {
            return false;
        }
        if c >= '1' && c <= '9' {
            return true;
        }
        i = i + 1;
    }
    false
}

// ── Laws ──────────────────────────────────────────────────────────────────────

proof fn lemma_decimal_value(n: nat)
    ensures
        decimal(n).len() > 0,
        all_digits(decimal(n)),
        digits_value(decimal(n)) == n,
    decreases n,
{
    if n < 10 {
        assert(decimal(n).drop_last() =~= Seq::<char>::empty());
        assert(digits_value(Seq::<char>::empty()) == 0);
        assert(digit_value(decimal(n).last()) == n);
    } else {
        lemma_decimal_value(n / 10);
        assert(decimal(n).drop_last() =~= decimal(n / 10));
    }
}

proof fn lemma_fixed_digits_value(n: nat, width: nat)
    ensures
        fixed_digits(n, width).len() == width,
        all_digits(fixed_digits(n, width)),
        n < pow10(width) ==> digits_value(fixed_digits(n, width)) == n,
    decreases width,
{
    if width > 0 {
        lemma_fixed_digits_value(n / 10, (width - 1) as nat);
        assert(fixed_digits(n, width).drop_last() =~= fixed_digits(n / 10, (width - 1) as nat));
    }
}

proof fn lemma_run_stops(s: Seq<char>, from: int, end: int)
    requires
        0 <= from <= end <= s.len(),
        forall|i: int| from <= i < end ==> is_digit(#[trigger] s[i]),
        end == s.len() || !is_digit(s[end]),
    ensures
        run_end(s, from) == end,
    decreases end - from,
{
    if from < end {
        assert(is_digit(s[from]));
        lemma_run_stops(s, from + 1, end);
    }
}

/// A whole number that was written as text reads back as itself.
pub proof fn law_whole_number_reads_back(n: u64)
    ensures
        whole_number(decimal(n as nat)) == Some(n),
{
    lemma_decimal_value(n as nat);
    assert(is_digit(decimal(n as nat)[0]));
}

/// A position that was written with six decimals reads back as itself. The lowest `i64` is left
/// out, since a decimal reads as no less than the negated largest one.
pub proof fn law_position_reads_back(us: i64)
    requires
        us > i64::MIN,
    ensures
        decimal_number(seconds(us as int)) == Some(us as int),
{
    let m: nat = if us < 0 {
        (-us) as nat
    } else {
        us as nat
    };
    let whole = decimal(m / 1_000_000);
    let part = fixed_digits(m % 1_000_000, 6);
    let body = whole + seq!['.'] + part;
    let s = seconds(us as int);
    lemma_decimal_value(m / 1_000_000);
    reveal_with_fuel(pow10, 7);
    lemma_fixed_digits_value(m % 1_000_000, 6);
    assert(is_digit(whole[0]));
    if us < 0 {
        assert(s =~= seq!['-'] + body);
        assert(s.skip(1) =~= body);
    } else {
        assert(s =~= body);
        assert(s[0] == whole[0]);
    }
    assert(without_sign(s) == body);
    let n = whole.len() as int;
    assert forall|i: int| 0 <= i < n implies is_digit(#[trigger] body[i]) by {
        assert(body[i] == whole[i]);
    }
    assert(body[n] == '.');
    lemma_run_stops(body, 0, n);
    assert forall|i: int| n + 1 <= i < n + 7 implies is_digit(#[trigger] body[i]) by {
        assert(body[i] == part[i - n - 1]);
    }
    lemma_run_stops(body, n + 1, n + 7);
    let digits = body.subrange(0, n) + body.subrange(n + 1, n + 7);
    assert(digits =~= whole + part);
    assert(decimal_parts(body) == Some((digits, n)));
    lemma_value_concat(whole, part);
    assert(pow10(6) == 1_000_000 && pow10(0) == 1);
    assert(m / 1_000_000 * pow10(6) == m / 1_000_000 * 1_000_000) by (nonlinear_arith)
        requires
            pow10(6) == 1_000_000,
    ;
    assert(m * pow10(0) == m) by (nonlinear_arith)
        requires
            pow10(0) == 1,
    ;
    assert(millionths(digits, n) == m);
}

/// A run of digits stands for ten times the number of all but its last digit, and that digit; powers
/// of ten grow tenfold.
pub proof fn law_digits_have_their_weight(s: Seq<char>, c: char, n: nat)
    requires
        '0' <= c <= '9',
    ensures
        digits_value(s.push(c)) == 10 * digits_value(s) + (c as int - '0' as int),
        digits_value(Seq::<char>::empty()) == 0,
        pow10(0) == 1,
        pow10(n + 1) == 10 * pow10(n),
{
    assert(s.push(c).drop_last() =~= s);
}

/// Reading a whole number goes digit by digit: one more digit makes it ten times the number and that
/// digit, as long as a `u64` can hold it. One that is too large, or with any other character, reads
/// as nothing, and stays so however it goes on. A plus sign may stand in front.
pub proof fn law_whole_number_goes_by_digits(s: Seq<char>, c: char)
    ensures
        ({
            let digit = '0' <= c <= '9';
            let d = c as int - '0' as int;
            &&& whole_number(Seq::<char>::empty()) is None
            &&& whole_number(seq!['+']) is None
            &&& digit ==> whole_number(seq![c]) == Some(d as u64)
            &&& digit ==> whole_number(seq!['+', c]) == Some(d as u64)
            &&& !digit ==> whole_number(seq![c]) is None
            &&& !digit ==> whole_number(seq!['+', c]) is None
            &&& whole_number(s) matches Some(n) ==> {
                &&& digit && 10 * n + d <= u64::MAX ==> whole_number(s.push(c)) == Some(
                    (10 * n + d) as u64,
                )
                &&& !(digit && 10 * n + d <= u64::MAX) ==> whole_number(s.push(c)) is None
            }
            &&& whole_number(s) is None && s.len() > 0 && s != seq!['+'] ==> whole_number(
                s.push(c),
            ) is None
        }),
{
    let e = Seq::<char>::empty();
    let one = e.push(c);
    assert(seq![c] =~= one);
    assert(one.drop_last() =~= e);
    assert(digits_value(e) == 0);
    assert(digits_value(one) == 10 * digits_value(e) + digit_value(c));
    assert(seq!['+', c].skip(1) =~= one);
    assert(seq!['+'].skip(1) =~= e);
    assert(one[0] == c);
    assert('0' <= c <= '9' ==> all_digits(one));
    assert(c == '+' ==> without_plus(one) =~= e);
    if s.len() > 0 && s != seq!['+'] {
        let digits = without_plus(s);
        let more = without_plus(s.push(c));
        assert(s.push(c)[0] == s[0]);
        assert(more =~= digits.push(c));
        if s[0] == '+' && digits.len() == 0 {
            assert(s =~= seq!['+']);
        }
        assert(more.drop_last() =~= digits);
        assert(more.last() == c);
        if all_digits(more) {
            assert forall|i: int| 0 <= i < digits.len() implies is_digit(#[trigger] digits[i]) by {
                assert(more[i] == digits[i]);
            }
            assert(is_digit(more[more.len() - 1]));
        }
        if all_digits(digits) && '0' <= c <= '9' {
            assert forall|i: int| 0 <= i < more.len() implies is_digit(#[trigger] more[i]) by {
                if i < digits.len() {
                    assert(more[i] == digits[i]);
                }
            }
        }
    }
}

/// A decimal reads as the nearest number of millionths: `whole.part` with or without an exponent
/// stands for its digits, the point and the exponent saying how many of them count as millionths.
/// Beyond what an `i64` holds, it reads as the largest one. A minus sign in front negates it.
pub proof fn law_decimal_reads_as_the_nearest(
    whole: Seq<char>,
    part: Seq<char>,
    exponent_digits: Seq<char>,
    negative_exponent: bool,
)
    requires
        forall|i: int| 0 <= i < whole.len() ==> '0' <= #[trigger] whole[i] <= '9',
        forall|i: int| 0 <= i < part.len() ==> '0' <= #[trigger] part[i] <= '9',
        forall|i: int| 0 <= i < exponent_digits.len() ==> '0' <= #[trigger] exponent_digits[i] <= '9',
        whole.len() + part.len() > 0,
    ensures
        ({
            let mark = if negative_exponent {
                seq!['e', '-']
            } else {
                seq!['e']
            };
            let text = whole + seq!['.'] + part + if exponent_digits.len() == 0 {
                Seq::<char>::empty()
            } else {
                mark + exponent_digits
            };
            let e = if negative_exponent {
                -(digits_value(exponent_digits) as int)
            } else {
                digits_value(exponent_digits) as int
            };
            let d = digits_value(whole + part);
            let shift = 6 + e - part.len();
            &&& decimal_number(text) matches Some(v) && {
                &&& shift >= 0 && d * pow10(shift as nat) <= i64::MAX ==> v == d * pow10(
                    shift as nat,
                )
                &&& shift >= 0 && d * pow10(shift as nat) > i64::MAX ==> v == i64::MAX
                &&& shift < 0 ==> {
                    let unit = pow10((-shift) as nat);
                    ||| -unit <= 2 * (v * unit - d) <= unit
                    ||| v == i64::MAX && 2 * d >= (2 * i64::MAX + 1) * unit
                }
                &&& decimal_number(seq!['-'] + text) == Some(-v)
                &&& decimal_number(seq!['+'] + text) == Some(v)
            }
        }),
{
    let mark = if negative_exponent {
        seq!['e', '-']
    } else {
        seq!['e']
    };
    let suffix = if exponent_digits.len() == 0 {
        Seq::<char>::empty()
    } else {
        mark + exponent_digits
    };
    let e = if negative_exponent {
        -(digits_value(exponent_digits) as int)
    } else {
        digits_value(exponent_digits) as int
    };
    let text = whole + seq!['.'] + part + suffix;
    let n = whole.len() as int;
    let end = n + 1 + part.len();
    assert(text[n] == '.');
    assert forall|i: int| 0 <= i < n implies is_digit(#[trigger] text[i]) by {
        assert(text[i] == whole[i]);
    }
    lemma_run_stops(text, 0, n);
    assert forall|i: int| n + 1 <= i < end implies is_digit(#[trigger] text[i]) by {
        assert(text[i] == part[i - n - 1]);
    }
    assert(end == text.len() || text[end] == 'e') by {
        if suffix.len() > 0 {
            assert(text[end] == suffix[0]);
            assert(suffix[0] == mark[0]);
        }
    }
    lemma_run_stops(text, n + 1, end);
    let digits = text.subrange(0, n) + text.subrange(n + 1, end);
    assert(digits =~= whole + part);
    assert(mantissa(text) == (digits, n, end));
    assert(text.skip(end) =~= suffix);
    if exponent_digits.len() > 0 {
        lemma_exponent(exponent_digits, negative_exponent);
    } else {
        assert(digits_value(exponent_digits) == 0);
    }
    let point = n + e;
    assert(decimal_parts(text) == Some((digits, point)));
    assert(text[0] == '.' || is_digit(text[0])) by {
        if n > 0 {
            assert(is_digit(text[0]));
        }
    }
    assert((seq!['-'] + text).skip(1) =~= text);
    assert((seq!['+'] + text).skip(1) =~= text);
    let d = digits_value(whole + part);
    let shift = 6 + e - part.len();
    assert(digits.len() - (point + 6) == -shift);
    if shift < 0 {
        lemma_pow10_positive((-shift) as nat);
        lemma_nearest(d as int, pow10((-shift) as nat) as int, millionths(digits, point) as int);
    }
}

proof fn lemma_exponent(digits: Seq<char>, negative: bool)
    requires
        digits.len() > 0,
        forall|i: int| 0 <= i < digits.len() ==> '0' <= #[trigger] digits[i] <= '9',
    ensures
        !negative ==> exponent(seq!['e'] + digits) == Some(digits_value(digits) as int),
        negative ==> exponent(seq!['e', '-'] + digits) == Some(-(digits_value(digits) as int)),
{
    let plain = seq!['e'] + digits;
    let minus = seq!['e', '-'] + digits;
    assert(plain[1] == digits[0]);
    assert(plain.skip(1) =~= digits);
    assert(minus[1] == '-');
    assert(minus.skip(2) =~= digits);
    assert(all_digits(digits));
}

/// Rounding by adding half of the divisor gives a nearest number.
proof fn lemma_nearest(d: int, unit: int, m: int)
    requires
        0 <= d,
        m == (2 * d + unit) / (2 * unit),
        unit > 0,
    ensures
        -unit <= 2 * (m * unit - d) <= unit,
        m > i64::MAX ==> 2 * d >= (2 * i64::MAX + 1) * unit,
{
    vstd::arithmetic::div_mod::lemma_fundamental_div_mod(2 * d + unit, 2 * unit);
    vstd::arithmetic::div_mod::lemma_mod_bound(2 * d + unit, 2 * unit);
    assert(2 * unit * m == 2 * (m * unit)) by (nonlinear_arith);
    if m > i64::MAX {
        assert(m * unit >= (i64::MAX + 1) * unit) by (nonlinear_arith)
            requires
                m >= i64::MAX + 1,
                unit > 0,
        ;
        assert((i64::MAX + 1) * unit == i64::MAX * unit + unit) by (nonlinear_arith);
        assert((2 * i64::MAX + 1) * unit == 2 * (i64::MAX * unit) + unit) by (nonlinear_arith);
    }
}

/// The decimal text of a number has only digits, stands for the number, and has no leading zero; digits
/// of a fixed count stand for the number without its higher digits.
pub proof fn law_written_digits_stand_for_the_number(n: nat, width: nat)
    ensures
        forall|i: int| 0 <= i < decimal(n).len() ==> '0' <= #[trigger] decimal(n)[i] <= '9',
        digits_value(decimal(n)) == n,
        decimal(n).len() > 0,
        decimal(n).len() > 1 ==> decimal(n)[0] != '0',
        fixed_digits(n, width).len() == width,
        forall|i: int|
            0 <= i < width ==> '0' <= #[trigger] fixed_digits(n, width)[i] <= '9',
        n < pow10(width) ==> digits_value(fixed_digits(n, width)) == n,
    decreases n,
{
    lemma_decimal_value(n);
    lemma_fixed_digits_value(n, width);
    assert forall|i: int| 0 <= i < decimal(n).len() implies '0' <= #[trigger] decimal(n)[i] <= '9' by {
        assert(is_digit(decimal(n)[i]));
    }
    assert forall|i: int| 0 <= i < width implies '0' <= #[trigger] fixed_digits(n, width)[i]
        <= '9' by {
        assert(is_digit(fixed_digits(n, width)[i]));
    }
    if n >= 10 {
        law_written_digits_stand_for_the_number(n / 10, width);
        assert(decimal(n)[0] == decimal(n / 10)[0]);
        if decimal(n / 10).len() == 1 {
            assert(n / 10 < 10) by {
                if n / 10 >= 10 {
                    lemma_decimal_value(n / 10 / 10);
                }
            }
            assert(decimal(n / 10)[0] == digit_char(n / 10));
        }
    }
}

} // verus!
