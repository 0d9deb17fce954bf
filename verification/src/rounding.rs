//! Binary floating point, in whole-number arithmetic.
//!
//! Bitrates, frame rates and progress are shown as a computation in floating point gives them. A
//! positive number of that kind is `digits * 2^exponent` with 24 binary digits in single and 53 in
//! double precision; every operation gives the number nearest to the exact result, and the even one
//! of two that are equally near. What is computed here lies far inside the range of both formats, so
//! exponents have no limits.
use vstd::prelude::*;

use crate::text::{decimal, fixed_digits, fixed_digits_text, pow10, wide_decimal_text};

verus! {

/// Binary digits of a number in single precision.
pub const SINGLE: u32 = 24;

/// Binary digits of a number in double precision.
pub const DOUBLE: u32 = 53;

/// Two to the power of `n`.
pub open spec fn pow2(n: nat) -> nat
    decreases n,
{
    if n == 0 {
        1
    } else {
        2 * pow2((n - 1) as nat)
    }
}

/// The whole number nearest to `p / q`, and the even one of two that are equally near.
pub open spec fn nearest(p: nat, q: nat) -> nat
    recommends
        q > 0,
{
    let below = p / q;
    let rest = p % q;
    if 2 * rest < q || (2 * rest == q && below % 2 == 0) {
        below
    } else {
        below + 1
    }
}

/// How far `p / q` is from lying between one and two.
pub open spec fn distance_to_scale(p: nat, q: nat) -> nat {
    if p == 0 || q == 0 {
        0
    } else if p < q {
        (q - p) as nat
    } else if p >= 2 * q {
        (p - 2 * q + 1) as nat
    } else {
        0
    }
}

/// A fraction from one up to two, as numerator and denominator, and the power of two that makes it
/// `p / q`.
pub open spec fn scaled(p: nat, q: nat) -> (nat, nat, int)
    decreases distance_to_scale(p, q),
{
    if p == 0 || q == 0 {
        (p, q, 0)
    } else if p < q {
        let (a, b, e) = scaled(2 * p, q);
        (a, b, e - 1)
    } else if p >= 2 * q {
        let (a, b, e) = scaled(p, 2 * q);
        (a, b, e + 1)
    } else {
        (p, q, 0)
    }
}

/// The digits and the exponent of the number nearest to `p / q` with the given count of binary
/// digits.
pub open spec fn rounded(p: nat, q: nat, bits: nat) -> (nat, int)
    recommends
        q > 0,
        bits > 0,
{
    if p == 0 {
        (0, 0)
    } else {
        let (a, b, e) = scaled(p, q);
        (nearest(pow2((bits - 1) as nat) * a, b), e - (bits - 1))
    }
}

/// The rounded quotient of two numbers.
pub open spec fn quotient(x: (nat, int), y: (nat, int), bits: nat) -> (nat, int)
    recommends
        y.0 > 0,
{
    let (digits, exponent) = rounded(x.0, y.0, bits);
    (digits, exponent + x.1 - y.1)
}

/// The rounded product of a number and a whole number.
pub open spec fn product(x: (nat, int), n: nat, bits: nat) -> (nat, int) {
    let (digits, exponent) = rounded(x.0 * n, 1, bits);
    (digits, exponent + x.1)
}

/// The whole part of a number.
pub open spec fn whole_part(x: (nat, int)) -> nat {
    if x.1 >= 0 {
        x.0 * pow2(x.1 as nat)
    } else {
        x.0 / pow2((-x.1) as nat)
    }
}

/// A number with a fixed count of decimals: the nearest one, and the even one of two that are
/// equally near.
pub open spec fn fixed(x: (nat, int), places: nat) -> Seq<char> {
    let n = if x.1 >= 0 {
        x.0 * pow2(x.1 as nat) * pow10(places)
    } else {
        nearest(x.0 * pow10(places), pow2((-x.1) as nat))
    };
    decimal(n / pow10(places)) + seq!['.'] + fixed_digits(n % pow10(places), places)
}

// ── Powers of two ─────────────────────────────────────────────────────────────

proof fn lemma_pow2_grows(a: nat, b: nat)
    requires
        a <= b,
    ensures
        1 <= pow2(a) <= pow2(b),
    decreases b,
{
    if a < b {
        lemma_pow2_grows(a, (b - 1) as nat);
    } else if b > 0 {
        lemma_pow2_grows((a - 1) as nat, (b - 1) as nat);
    }
}

/// The exponent of the larger power is larger.
proof fn lemma_pow2_orders(a: nat, b: nat)
    requires
        pow2(a) < pow2(b),
    ensures
        a < b,
{
    if b <= a {
        lemma_pow2_grows(b, a);
    }
}

proof fn lemma_powers()
    ensures
        pow2(0) == 1,
        pow2(1) == 2,
        pow2(2) == 4,
        pow2(23) == 0x80_0000,
        pow2(24) == 0x100_0000,
        pow2(48) == 0x1_0000_0000_0000,
        pow2(52) == 0x10_0000_0000_0000,
        pow2(53) == 0x20_0000_0000_0000,
        pow2(72) == 0x100_0000_0000_0000_0000u128,
        pow2(120) == 0x100_0000_0000_0000_0000_0000_0000_0000u128,
{
    reveal_with_fuel(pow2, 25);
    assert(pow2(24) == 0x100_0000);
    assert(pow2(48) == 0x100_0000 * pow2(24));
    assert(pow2(53) == 32 * pow2(48));
    assert(pow2(52) == 16 * pow2(48));
    assert(pow2(72) == 0x100_0000 * pow2(48));
    assert(pow2(96) == 0x100_0000 * pow2(72));
    assert(pow2(120) == 0x100_0000 * pow2(96));
}

fn power_of_two(n: u32) -> (r: u128)
    requires
        n <= 120,
    ensures
        r == pow2(n as nat),
{
    let mut out: u128 = 1;
    let mut i: u32 = 0;
    while i < n
        invariant
            i <= n <= 120,
            out == pow2(i as nat),
        decreases n - i,
    {
        proof {
            lemma_pow2_grows((i + 1) as nat, 120);
            lemma_powers();
        }
        out = 2 * out;
        i = i + 1;
    }
    out
}

// ── Numbers ───────────────────────────────────────────────────────────────────

fn nearest_whole(p: u128, q: u128) -> (r: u128)
    requires
        0 < q <= 0x100_0000_0000_0000_0000_0000_0000_0000,
        p / q < u128::MAX,
    ensures
        r == nearest(p as nat, q as nat),
{
    let below = p / q;
    let rest = p % q;
    if 2 * rest < q || (2 * rest == q && below % 2 == 0) {
        below
    } else {
        below + 1
    }
}

/// The power of two by which `p / q` is away from the numbers between one and two.
pub open spec fn scaled_by(p: nat, q: nat, e: int) -> bool {
    &&& e < 0 ==> p * pow2((-e) as nat) < 2 * q
    &&& e > 0 ==> q * pow2(e as nat) <= p
}

/// A number that is doubled and stays small was not doubled often.
proof fn lemma_few_doublings(p: nat, n: nat)
    requires
        0 < p,
        p * pow2(n) < 0x100_0000_0000_0000_0000u128,
    ensures
        n < 72,
{
    lemma_pow2_grows(0, n);
    assert(pow2(n) <= p * pow2(n)) by (nonlinear_arith)
        requires
            0 < p,
    ;
    lemma_powers();
    lemma_pow2_orders(n, 72);
}

fn scale(p: u64, q: u64) -> (r: (u128, u128, i32))
    requires
        0 < p,
        0 < q,
    ensures
        (r.0 as nat, r.1 as nat, r.2 as int) == scaled(p as nat, q as nat),
        r.1 <= r.0 < 2 * r.1,
        0 < r.1 <= u64::MAX,
        -72 < r.2 < 72,
        scaled_by(p as nat, q as nat, r.2 as int),
{
    let ghost goal = scaled(p as nat, q as nat);
    let mut a: u128 = p as u128;
    let mut b: u128 = q as u128;
    let mut e: i32 = 0;
    assert(p * pow2(0) == p) by (nonlinear_arith)
        requires
            pow2(0) == 1,
    ;
    assert(q * pow2(0) == q) by (nonlinear_arith)
        requires
            pow2(0) == 1,
    ;
    while a < b
        invariant
            0 < p,
            b == q,
            0 < a,
            -72 < e <= 0,
            a <= u64::MAX || a < 2 * b,
            e < 0 ==> a < 2 * b,
            e == 0 ==> a == p,
            a == p * pow2((-e) as nat),
            goal == (scaled(a as nat, b as nat).0, scaled(a as nat, b as nat).1, scaled(
                a as nat,
                b as nat,
            ).2 + e),
        decreases 2 * b - a,
    {
        let ghost n = (-e) as nat;
        assert(pow2(n + 1) == 2 * pow2(n));
        assert(p * (2 * pow2(n)) == 2 * (p * pow2(n))) by (nonlinear_arith);
        proof {
            lemma_few_doublings(p as nat, n + 1);
        }
        a = 2 * a;
        e = e - 1;
    }
    let ghost lowest = e;
    while a >= 2 * b
        invariant
            0 < p,
            0 < q,
            0 < b <= a,
            b <= u64::MAX,
            -72 < lowest <= 0,
            lowest <= e < 72,
            e > lowest ==> lowest == 0,
            lowest < 0 ==> b == q && a < 2 * b,
            lowest == 0 ==> a == p,
            a == p * pow2((-lowest) as nat),
            b == q * pow2((e - lowest) as nat),
            goal == (scaled(a as nat, b as nat).0, scaled(a as nat, b as nat).1, scaled(
                a as nat,
                b as nat,
            ).2 + e),
        decreases a - b,
    {
        let ghost n = e as nat;
        assert(pow2(n + 1) == 2 * pow2(n));
        assert(q * (2 * pow2(n)) == 2 * (q * pow2(n))) by (nonlinear_arith);
        proof {
            lemma_few_doublings(q as nat, n + 1);
        }
        b = 2 * b;
        e = e + 1;
    }
    (a, b, e)
}

/// A number that is not negative: `digits * 2^exponent`.
#[derive(Debug, Clone, Copy, PartialEq, Eq, Structural)]
pub struct Float {
    pub digits: u64,
    pub exponent: i32,
}

impl Float {
    /// The digits and the exponent.
    pub open spec fn parts(self) -> (nat, int) {
        (self.digits as nat, self.exponent as int)
    }

    /// The number is zero, or has its full count of binary digits.
    pub open spec fn full(self, bits: nat) -> bool {
        self.digits == 0 || pow2((bits - 1) as nat) <= self.digits <= pow2(bits)
    }

    /// A number in single precision has 24 digits at most, one in double precision 53.
    proof fn lemma_digits(self)
        ensures
            self.full(SINGLE as nat) ==> self.digits <= 0x100_0000,
            self.full(DOUBLE as nat) ==> self.digits <= 0x20_0000_0000_0000,
    {
        lemma_powers();
    }

    /// The number nearest to `p / q`.
    pub(crate) fn new(p: u64, q: u64, bits: u32) -> (r: Float)
        requires
            0 < q,
            bits == SINGLE || bits == DOUBLE,
        ensures
            r.parts() == rounded(p as nat, q as nat, bits as nat),
            r.full(bits as nat),
            p == 0 ==> r.digits == 0 && r.exponent == 0,
            p > 0 ==> r.digits > 0 && scaled_by(p as nat, q as nat, r.exponent + bits - 1)
                && -72 < r.exponent + bits - 1 < 72,
    {
        if p == 0 {
            return Float { digits: 0, exponent: 0 };
        }
        let (a, b, e) = scale(p, q);
        let least = power_of_two(bits - 1);
        proof {
            lemma_powers();
            assert(pow2(bits as nat) == 2 * pow2((bits - 1) as nat));
            assert(0 <= least * a <= 0x10_0000_0000_0000 * 0x2_0000_0000_0000_0000)
                by (nonlinear_arith)
                requires
                    0 <= least <= 0x10_0000_0000_0000,
                    0 <= a <= 0x2_0000_0000_0000_0000,
            ;
            lemma_quotient_range(least as int, a as int, b as int);
        }
        let digits = nearest_whole(least * a, b);
        Float { digits: digits as u64, exponent: e - (bits as i32 - 1) }
    }

    /// The quotient of two numbers.
    pub(crate) fn divided_by(&self, other: &Float, bits: u32) -> (r: Float)
        requires
            bits == SINGLE || bits == DOUBLE,
            self.full(bits as nat),
            other.full(bits as nat),
            other.digits > 0,
            -200 <= self.exponent <= 200,
            -200 <= other.exponent <= 200,
        ensures
            r.parts() == quotient(self.parts(), other.parts(), bits as nat),
            r.full(bits as nat),
            -(bits as int) <= r.exponent - self.exponent + other.exponent <= 0,
    {
        let ratio = Float::new(self.digits, other.digits, bits);
        proof {
            lemma_powers();
            let e = ratio.exponent + bits - 1;
            if self.digits > 0 && e < 0 {
                let power = pow2((-e) as nat);
                assert(power < 4) by (nonlinear_arith)
                    requires
                        self.digits * power < 2 * other.digits,
                        other.digits <= 2 * pow2((bits - 1) as nat),
                        pow2((bits - 1) as nat) <= self.digits,
                        0 < self.digits,
                ;
                lemma_pow2_orders((-e) as nat, 2);
            }
            if self.digits > 0 && e > 0 {
                let power = pow2(e as nat);
                assert(power < 4) by (nonlinear_arith)
                    requires
                        other.digits * power <= self.digits,
                        self.digits <= 2 * pow2((bits - 1) as nat),
                        pow2((bits - 1) as nat) <= other.digits,
                        0 < other.digits,
                ;
                lemma_pow2_orders(e as nat, 2);
            }
        }
        Float {
            digits: ratio.digits,
            exponent: ratio.exponent + self.exponent - other.exponent,
        }
    }

    /// The product of a number and a small whole number.
    pub(crate) fn times(&self, n: u64, bits: u32) -> (r: Float)
        requires
            bits == SINGLE || bits == DOUBLE,
            self.full(SINGLE as nat) || self.full(DOUBLE as nat),
            0 < n <= 100,
            -400 <= self.exponent <= 400,
        ensures
            r.parts() == product(self.parts(), n as nat, bits as nat),
            r.full(bits as nat),
            -124 <= r.exponent - self.exponent <= 72,
    {
        proof {
            self.lemma_digits();
            lemma_powers();
        }
        assert(0 <= self.digits * n <= 0x20_0000_0000_0000 * 100) by (nonlinear_arith)
            requires
                0 <= self.digits <= 0x20_0000_0000_0000,
                0 < n <= 100,
        ;
        let scaled = Float::new(self.digits * n, 1, bits);
        Float { digits: scaled.digits, exponent: scaled.exponent + self.exponent }
    }

    /// The whole part of a number, or the largest `u16` where that is smaller.
    pub(crate) fn whole(&self) -> (r: u16)
        requires
            self.full(SINGLE as nat),
            self.exponent > i32::MIN,
        ensures
            r == (if whole_part(self.parts()) > u16::MAX {
                u16::MAX as nat
            } else {
                whole_part(self.parts())
            }),
    {
        proof {
            lemma_powers();
        }
        if self.digits == 0 {
            proof {
                if self.exponent < 0 {
                    lemma_pow2_grows(0, (-self.exponent) as nat);
                    vstd::arithmetic::div_mod::lemma_div_basics_1(
                        pow2((-self.exponent) as nat) as int,
                    );
                } else {
                    vstd::arithmetic::mul::lemma_mul_basics_1(
                        pow2(self.exponent as nat) as int,
                    );
                }
            }
            0
        } else if self.exponent >= 0 {
            proof {
                lemma_pow2_grows(0, self.exponent as nat);
                assert(self.digits <= self.digits * pow2(self.exponent as nat))
                    by (nonlinear_arith)
                    requires
                        pow2(self.exponent as nat) >= 1,
                ;
            }
            u16::MAX
        } else if self.exponent <= -72 {
            proof {
                lemma_pow2_grows(72, (-self.exponent) as nat);
                vstd::arithmetic::div_mod::lemma_basic_div(
                    self.digits as int,
                    pow2((-self.exponent) as nat) as int,
                );
            }
            0
        } else {
            let power = power_of_two((-self.exponent) as u32);
            proof {
                lemma_pow2_grows(0, (-self.exponent) as nat);
            }
            let n = self.digits as u128 / power;
            if n > u16::MAX as u128 {
                u16::MAX
            } else {
                n as u16
            }
        }
    }

    /// The number with `places` decimals.
    pub(crate) fn fixed_text(&self, places: u32) -> (r: String)
        requires
            places <= 3,
            self.full(SINGLE as nat),
            -120 <= self.exponent <= 72,
        ensures
            r@ == fixed(self.parts(), places as nat),
    {
        let mut unit: u128 = 1;
        let mut i: u32 = 0;
        proof {
            reveal_with_fuel(pow10, 4);
            self.lemma_digits();
        }
        while i < places
            invariant
                i <= places <= 3,
                unit == pow10(i as nat),
                pow10(0) == 1,
                pow10(1) == 10,
                pow10(2) == 100,
                pow10(3) == 1000,
            decreases places - i,
        {
            unit = 10 * unit;
            i = i + 1;
        }
        let digits = self.digits as u128;
        let n: u128 = if self.exponent >= 0 {
            let power = power_of_two(self.exponent as u32);
            proof {
                lemma_pow2_grows(self.exponent as nat, 72);
                lemma_powers();
                assert(0 <= digits * power <= 0x100_0000 * 0x100_0000_0000_0000_0000)
                    by (nonlinear_arith)
                    requires
                        0 <= digits <= 0x100_0000,
                        0 <= power <= 0x100_0000_0000_0000_0000,
                ;
                assert(digits * power * unit <= 0x100_0000 * 0x100_0000_0000_0000_0000 * 1000)
                    by (nonlinear_arith)
                    requires
                        0 <= digits * power <= 0x100_0000 * 0x100_0000_0000_0000_0000,
                        0 <= unit <= 1000,
                ;
            }
            digits * power * unit
        } else {
            let power = power_of_two((-self.exponent) as u32);
            proof {
                lemma_pow2_grows(0, (-self.exponent) as nat);
                lemma_pow2_grows((-self.exponent) as nat, 120);
                lemma_powers();
                assert(0 <= digits * unit <= 0x100_0000 * 1000) by (nonlinear_arith)
                    requires
                        0 <= digits <= 0x100_0000,
                        0 <= unit <= 1000,
                ;
                assert(digits * unit / power as int <= digits * unit) by (nonlinear_arith)
                    requires
                        power > 0,
                        0 <= digits * unit,
                ;
            }
            nearest_whole(digits * unit, power)
        };
        let mut out = wide_decimal_text(n / unit);
        out.push('.');
        out.append(fixed_digits_text((n % unit) as u64, places).as_str());
        assert(out@ =~= fixed(self.parts(), places as nat));
        out
    }
}

/// A fraction between one and two, times `least`, lies between `least` and twice that.
proof fn lemma_quotient_range(least: int, a: int, b: int)
    requires
        0 < least,
        0 < b <= a < 2 * b,
    ensures
        least <= least * a / b < 2 * least,
{
    assert(least * b <= least * a < 2 * least * b) by (nonlinear_arith)
        requires
            0 < least,
            0 < b <= a < 2 * b,
    ;
    assert(least <= least * a / b < 2 * least) by (nonlinear_arith)
        requires
            0 < b,
            least * b <= least * a < 2 * least * b,
    ;
}

/// A number that is neither very large nor very small has an exponent of that kind.
pub(crate) proof fn lemma_moderate(p: nat, q: nat, e: int)
    requires
        0 < p < 0x1_0000_0000_0000 * q,
        0 < q <= 0x80_0000,
        scaled_by(p, q, e),
    ensures
        -24 < e < 48,
{
    lemma_powers();
    if e < 0 {
        let power = pow2((-e) as nat);
        assert(power <= p * power) by (nonlinear_arith)
            requires
                0 < p,
        ;
        lemma_pow2_orders((-e) as nat, 24);
    }
    if e > 0 {
        let power = pow2(e as nat);
        assert(power < 0x1_0000_0000_0000) by (nonlinear_arith)
            requires
                q * power <= p,
                p < 0x1_0000_0000_0000 * q,
                0 < q,
        ;
        lemma_pow2_orders(e as nat, 48);
    }
}

// ── Laws ──────────────────────────────────────────────────────────────────────

/// The nearest whole number is at most half away, and even where two are.
pub proof fn law_nearest_is_at_most_half_away(p: nat, q: nat)
    requires
        q > 0,
    ensures
        -q <= 2 * (nearest(p, q) * q - p) <= q,
        2 * (nearest(p, q) * q - p) == q || 2 * (nearest(p, q) * q - p) == -q ==> nearest(p, q) % 2
            == 0,
{
    let below = p / q;
    let rest = p % q;
    vstd::arithmetic::div_mod::lemma_fundamental_div_mod(p as int, q as int);
    vstd::arithmetic::div_mod::lemma_mod_bound(p as int, q as int);
    assert(q * below == below * q) by (nonlinear_arith);
    assert((below + 1) * q == below * q + q) by (nonlinear_arith);
}

proof fn lemma_pow2_adds(a: nat, b: nat)
    ensures
        pow2(a + b) == pow2(a) * pow2(b),
    decreases a,
{
    if a == 0 {
        assert(pow2(0) * pow2(b) == pow2(b)) by (nonlinear_arith)
            requires
                pow2(0) == 1,
        ;
    } else {
        lemma_pow2_adds((a - 1) as nat, b);
        assert(2 * pow2((a - 1) as nat) * pow2(b) == 2 * (pow2((a - 1) as nat) * pow2(b)))
            by (nonlinear_arith);
    }
}

/// Scaling multiplies numerator or denominator by a power of two and leaves the other.
proof fn lemma_scaled(p: nat, q: nat)
    requires
        p > 0,
        q > 0,
    ensures
        ({
            let (a, b, k) = scaled(p, q);
            &&& 0 < b <= a < 2 * b
            &&& k >= 0 ==> a == p && b == q * pow2(k as nat)
            &&& k <= 0 ==> a == p * pow2((-k) as nat) && b == q
        }),
    decreases distance_to_scale(p, q),
{
    assert(p * pow2(0) == p) by (nonlinear_arith)
        requires
            pow2(0) == 1,
    ;
    assert(q * pow2(0) == q) by (nonlinear_arith)
        requires
            pow2(0) == 1,
    ;
    if p < q {
        lemma_scaled(2 * p, q);
        let (a, b, k) = scaled(2 * p, q);
        lemma_doubled_stays_low(p, q);
        assert(2 * p * pow2((-k) as nat) == p * (2 * pow2((-k) as nat))) by (nonlinear_arith);
    } else if p >= 2 * q {
        lemma_scaled(p, 2 * q);
        let (a, b, k) = scaled(p, 2 * q);
        lemma_halved_stays_high(p, q);
        assert(2 * q * pow2(k as nat) == q * (2 * pow2(k as nat))) by (nonlinear_arith);
    }
}

proof fn lemma_doubled_stays_low(p: nat, q: nat)
    requires
        0 < p < q,
    ensures
        scaled(2 * p, q).2 <= 0,
    decreases q - p,
{
    if 2 * p < q {
        lemma_doubled_stays_low(2 * p, q);
    }
}

proof fn lemma_halved_stays_high(p: nat, q: nat)
    requires
        0 < q,
        p >= 2 * q,
    ensures
        scaled(p, 2 * q).2 >= 0,
    decreases p - q,
{
    if p >= 2 * (2 * q) {
        lemma_halved_stays_high(p, 2 * q);
    }
}

/// Rounding gives a number with the full count of binary digits that is at most half of its last digit
/// away from `p / q`.
pub proof fn law_rounding_errs_by_half_a_digit(p: nat, q: nat, bits: nat)
    requires
        p > 0,
        q > 0,
        bits > 0,
    ensures
        ({
            let (digits, e) = rounded(p, q, bits);
            &&& pow2((bits - 1) as nat) <= digits <= pow2(bits)
            &&& e >= 0 ==> {
                let unit = q * pow2(e as nat);
                -unit <= 2 * (digits * unit - p) <= unit
            }
            &&& e < 0 ==> -q <= 2 * (digits * q - p * pow2((-e) as nat)) <= q
        }),
{
    let (a, b, k) = scaled(p, q);
    let (digits, e) = rounded(p, q, bits);
    let top = (bits - 1) as nat;
    let least = pow2(top);
    lemma_scaled(p, q);
    lemma_pow2_grows(0, top);
    law_nearest_is_at_most_half_away(least * a, b);
    lemma_quotient_range(least as int, a as int, b as int);
    assert(pow2(bits) == 2 * least);
    assert(e == k - top);
    if k >= 0 {
        let scale = pow2(k as nat);
        lemma_pow2_grows(0, k as nat);
        if e >= 0 {
            lemma_pow2_adds(e as nat, top);
            let unit = q * pow2(e as nat);
            assert(b == unit * least) by (nonlinear_arith)
                requires
                    b == q * scale,
                    scale == pow2(e as nat) * least,
                    unit == q * pow2(e as nat),
            ;
            assert(digits * b - least * a == least * (digits * unit - p)) by (nonlinear_arith)
                requires
                    b == unit * least,
                    a == p,
            ;
            lemma_cancel(least as int, unit as int, digits * unit - p);
        } else {
            lemma_pow2_adds(k as nat, (-e) as nat);
            let power = pow2((-e) as nat);
            assert(least == scale * power);
            assert(digits * b - least * a == scale * (digits * q - p * power)) by (nonlinear_arith)
                requires
                    b == q * scale,
                    least == scale * power,
                    a == p,
            ;
            assert(b == q * scale);
            assert(q * scale == scale * q) by (nonlinear_arith);
            lemma_cancel(scale as int, q as int, digits * q - p * power);
        }
    } else {
        lemma_pow2_adds(top, (-k) as nat);
        assert(top + (-k) as nat == (-e) as nat);
        assert(least * a == p * pow2((-e) as nat)) by (nonlinear_arith)
            requires
                a == p * pow2((-k) as nat),
                pow2((-e) as nat) == least * pow2((-k) as nat),
        ;
    }
}

proof fn lemma_cancel(m: int, u: int, x: int)
    requires
        m > 0,
        -(u * m) <= 2 * (m * x) <= u * m || -(m * u) <= 2 * (m * x) <= m * u,
    ensures
        -u <= 2 * x <= u,
{
    assert(-u <= 2 * x <= u) by (nonlinear_arith)
        requires
            m > 0,
            -(u * m) <= 2 * (m * x) <= u * m || -(m * u) <= 2 * (m * x) <= m * u,
    ;
}

/// Decimals of a fixed count are the nearest ones: the text shows a number of the smallest of them that
/// is at most half of one away.
pub proof fn law_fixed_decimals_are_nearest(x: (nat, int), places: nat)
    ensures
        exists|n: nat|
            {
                &&& fixed(x, places) == #[trigger] decimal(n / pow10(places)) + seq!['.']
                    + fixed_digits(n % pow10(places), places)
                &&& x.1 >= 0 ==> n == x.0 * pow2(x.1 as nat) * pow10(places)
                &&& x.1 < 0 ==> {
                    let unit = pow2((-x.1) as nat);
                    -unit <= 2 * (n * unit - x.0 * pow10(places)) <= unit
                }
            },
{
    let n = if x.1 >= 0 {
        x.0 * pow2(x.1 as nat) * pow10(places)
    } else {
        nearest(x.0 * pow10(places), pow2((-x.1) as nat))
    };
    if x.1 < 0 {
        lemma_pow2_grows(0, (-x.1) as nat);
        law_nearest_is_at_most_half_away(x.0 * pow10(places), pow2((-x.1) as nat));
    }
    assert(fixed(x, places) == decimal(n / pow10(places)) + seq!['.'] + fixed_digits(
        n % pow10(places),
        places,
    ));
}

/// Quotients and products are rounded once, and exponents add up; a whole part leaves out what is below
/// one.
pub proof fn law_operations_round_once(x: (nat, int), y: (nat, int), n: nat, bits: nat)
    ensures
        quotient(x, y, bits) == (
            rounded(x.0, y.0, bits).0,
            rounded(x.0, y.0, bits).1 + x.1 - y.1,
        ),
        product(x, n, bits) == (rounded(x.0 * n, 1, bits).0, rounded(x.0 * n, 1, bits).1 + x.1),
        x.1 >= 0 ==> whole_part(x) == x.0 * pow2(x.1 as nat),
        x.1 < 0 ==> whole_part(x) * pow2((-x.1) as nat) <= x.0 < (whole_part(x) + 1) * pow2(
            (-x.1) as nat,
        ),
        pow2(0) == 1,
        pow2(n + 1) == 2 * pow2(n),
{
    if x.1 < 0 {
        let u = pow2((-x.1) as nat);
        lemma_pow2_grows(0, (-x.1) as nat);
        vstd::arithmetic::div_mod::lemma_fundamental_div_mod(x.0 as int, u as int);
        vstd::arithmetic::div_mod::lemma_mod_bound(x.0 as int, u as int);
        let w = whole_part(x);
        assert(u * w == w * u) by (nonlinear_arith);
        assert((w + 1) * u == w * u + u) by (nonlinear_arith);
    }
}

/// A whole number of up to 24 binary digits is held in single precision as it is.
pub proof fn law_small_numbers_are_exact(p: nat)
    requires
        0 < p < 0x100_0000,
    ensures
        ({
            let (digits, e) = rounded(p, 1, 24);
            &&& -23 <= e <= 0
            &&& digits == p * pow2((-e) as nat)
            &&& 0x80_0000 <= digits <= 0x100_0000
        }),
{
    let (a, b, k) = scaled(p, 1);
    let (digits, e) = rounded(p, 1, 24);
    lemma_scaled(p, 1);
    lemma_powers();
    law_rounding_errs_by_half_a_digit(p, 1, 24);
    assert(e == k - 23);
    if k < 0 {
        lemma_pow2_grows(1, (-k) as nat);
        assert(p * pow2((-k) as nat) >= 2) by (nonlinear_arith)
            requires
                p >= 1,
                pow2((-k) as nat) >= 2,
        ;
    }
    lemma_pow2_orders(k as nat, 24);
    if e == 0 {
        assert(1 * pow2(0) == 1);
        assert(digits * (1 * pow2(0)) == digits) by (nonlinear_arith)
            requires
                pow2(0) == 1,
        ;
        assert(p * pow2(0) == p) by (nonlinear_arith)
            requires
                pow2(0) == 1,
        ;
    } else {
        assert(digits * 1 == digits);
    }
}

/// The quotient of two numbers of 24 binary digits has one digit more behind the point, or none, and is
/// at most half of its last digit away.
pub(crate) proof fn lemma_ratio(p: nat, q: nat)
    requires
        0x80_0000 <= p <= 0x100_0000,
        0x80_0000 <= q <= 0x100_0000,
    ensures
        ({
            let (d, e) = rounded(p, q, 24);
            &&& -24 <= e <= -22
            &&& p < 2 * q ==> e <= -23
            &&& -q <= 2 * (d * q - p * pow2((-e) as nat)) <= q
        }),
{
    let (a, b, k) = scaled(p, q);
    lemma_scaled(p, q);
    lemma_powers();
    law_rounding_errs_by_half_a_digit(p, q, 24);
    if k < 0 {
        assert(pow2((-k) as nat) < 4) by (nonlinear_arith)
            requires
                p * pow2((-k) as nat) < 2 * q,
                p >= 0x80_0000,
                q <= 0x100_0000,
        ;
        lemma_pow2_orders((-k) as nat, 2);
    } else {
        assert(pow2(k as nat) < 4) by (nonlinear_arith)
            requires
                q * pow2(k as nat) <= p,
                q >= 0x80_0000,
                p <= 0x100_0000,
        ;
        lemma_pow2_orders(k as nat, 2);
        if k == 1 {
            assert(q * pow2(1) == 2 * q) by (nonlinear_arith)
                requires
                    pow2(1) == 2,
            ;
        }
    }
}

/// Dividing a number of thousands by a thousand and showing one decimal gives the nearest tenth.
pub(crate) proof fn lemma_thousandth_to_a_tenth(p: nat, n: nat)
    requires
        1000 <= p < 0x100_0000,
        ({
            let x = quotient(rounded(p, 1, 24), rounded(1000, 1, 24), 24);
            x.1 < 0 ==> {
                let unit = pow2((-x.1) as nat);
                -unit <= 2 * (n * unit - x.0 * 10) <= unit
            }
        }),
    ensures
        -50 <= 100 * n - p <= 50,
{
    let (m, e) = rounded(p, 1, 24);
    let (m2, e2) = rounded(1000, 1, 24);
    let (d, c) = rounded(m, m2, 24);
    law_small_numbers_are_exact(p);
    law_small_numbers_are_exact(1000);
    lemma_ratio(m, m2);
    lemma_powers();
    reveal_with_fuel(pow2, 16);
    assert(e2 == -14) by {
        lemma_pow2_orders(13, (-e2) as nat);
        lemma_pow2_orders((-e2) as nat, 15);
    }
    assert(m2 == 16_384_000);
    // The exponent of the quotient, and the powers of two that it is made of.
    let low = (-e) as nat;
    let high = (-c) as nat;
    let x = c + e + 14;
    assert(quotient((m, e), (m2, e2), 24) == (d, x));
    assert(x < 0);
    let unit = pow2((-x) as nat);
    lemma_pow2_adds((-x) as nat, 14);
    lemma_pow2_adds(low, high);
    assert(low + high == (-x) as nat + 14);
    assert(pow2(low) * pow2(high) == unit * 16_384);
    lemma_pow2_grows(9, (-x) as nat);
    lemma_exact_tenth(p as int, n as int, d as int, m as int, pow2(low) as int, pow2(high) as int, unit as int);
}

proof fn lemma_exact_tenth(p: int, n: int, d: int, m: int, low: int, high: int, unit: int)
    requires
        unit >= 512,
        low * high == unit * 16_384,
        m == p * low,
        -unit <= 2 * (n * unit - d * 10) <= unit,
        -16_384_000 <= 2 * (d * 16_384_000 - m * high) <= 16_384_000,
    ensures
        -50 <= 100 * n - p <= 50,
{
    assert(m * high == p * unit * 16_384) by (nonlinear_arith)
        requires
            m == p * low,
            low * high == unit * 16_384,
    ;
    let pu = p * unit;
    let nu = n * unit;
    assert(m * high == pu * 16_384);
    assert(-1000 <= 2 * (d * 1000 - pu) <= 1000);
    assert((100 * n - p) * unit == 100 * nu - pu) by (nonlinear_arith)
        requires
            nu == n * unit,
            pu == p * unit,
    ;
    assert(-(100 * unit + 1000) <= 2 * ((100 * n - p) * unit) <= 100 * unit + 1000);
    assert(-50 <= 100 * n - p <= 50) by (nonlinear_arith)
        requires
            unit >= 512,
            -(100 * unit + 1000) <= 2 * ((100 * n - p) * unit) <= 100 * unit + 1000,
    ;
}

} // verus!
