//! Arithmetic on binary64 patterns that rounds: the binary64 of an
//! integer, products and quotients by whole numbers, rounding to a whole
//! number and to so many decimals, sums and differences.
//!
//! Every result is the one that IEEE-754 asks for in its default mode: the
//! representable number nearest to the exact result, and of two equally
//! near ones the one with the even significand. The exact result is held
//! as a whole number times a power of two, so that nothing is lost before
//! the one rounding at the end.

use crate::float::{
    bit_length, lemma_bit_length_bounds, lemma_fields, power_of_two, Float64, FRACTION_UNIT,
    INFINITY_BITS, NAN_BITS, SIGN_BIT,
};
use vstd::arithmetic::div_mod::*;
use vstd::arithmetic::mul::*;
use vstd::arithmetic::power2::*;
use vstd::prelude::*;

verus! {

/// The most decimals that a number can be rounded to here: up to this
/// power, ten to the power is itself a binary64.
pub const MAX_DECIMALS: u32 = 15;

/// Ten to the power `d`.
pub open spec fn ten_to(d: nat) -> nat
    decreases d,
{
    if d == 0 {
        1
    } else {
        10 * ten_to((d - 1) as nat)
    }
}

/// The whole number `n / 2^s` rounded to the nearest, ties to the even one.
/// With `more`, `n` stands for a little more than `n`, which breaks a tie upwards.
pub open spec fn round_half_even(n: nat, s: nat, more: bool) -> nat {
    let unit = pow2(s);
    let q = n / unit;
    let r = n % unit;
    if 2 * r > unit || (2 * r == unit && (more || q % 2 == 1)) {
        q + 1
    } else {
        q
    }
}

/// How many low bits of `n`, counted in units of `2^e`, a binary64 cannot
/// hold: it holds 53 bits, and none below `2^-1074`. Not positive where
/// the number fits as it is.
pub open spec fn lost_bits(n: nat, e: int) -> int {
    let by_width = bit_length(n) - 53;
    let by_depth = -1074 - e;
    if by_width >= by_depth {
        by_width
    } else {
        by_depth
    }
}

/// The pattern, without sign, of the binary64 nearest to `n * 2^e`.
pub open spec fn nearest_magnitude(n: nat, e: int, more: bool) -> int {
    let s = lost_bits(n, e);
    let m = if s <= 0 {
        n * pow2((-s) as nat)
    } else {
        round_half_even(n, s as nat, more)
    };
    let bits = (e + s + 1074) * FRACTION_UNIT + m;
    if n == 0 {
        0
    } else if bits >= INFINITY_BITS {
        INFINITY_BITS as int
    } else {
        bits
    }
}

/// The binary64 nearest to `n * 2^e`, or to a little more with `more`,
/// with the sign given: ties go to the even significand, and what is too
/// large for any finite number is infinite.
pub open spec fn nearest(negative: bool, n: nat, e: int, more: bool) -> Float64 {
    if negative {
        Float64 { bits: (nearest_magnitude(n, e, more) + SIGN_BIT) as u64 }
    } else {
        Float64 { bits: nearest_magnitude(n, e, more) as u64 }
    }
}

impl Float64 {
    /// The power of two that the significand of a finite number counts.
    pub open spec fn unit_exponent(self) -> int {
        if self.exponent_field() == 0 {
            -1074
        } else {
            self.exponent_field() - 1075
        }
    }

    /// The binary64 nearest to a whole number.
    pub open spec fn of_nat(n: nat) -> Float64 {
        nearest(false, n, 0, false)
    }

    /// The binary64 nearest to an integer.
    pub open spec fn of_int(n: int) -> Float64 {
        if n < 0 {
            nearest(true, (-n) as nat, 0, false)
        } else {
            nearest(false, n as nat, 0, false)
        }
    }

    /// The number times a whole number, rounded once. NaN gives the quiet
    /// NaN; infinities and zeros stay as they are.
    pub open spec fn product(self, factor: nat) -> Float64 {
        if self.nan() {
            Float64 { bits: NAN_BITS }
        } else if !self.finite() || self.zero() {
            self
        } else {
            nearest(
                self.negative(),
                (self.significand() * factor) as nat,
                self.unit_exponent(),
                false,
            )
        }
    }

    /// The number divided by a whole number, rounded once.
    pub open spec fn quotient(self, divisor: nat) -> Float64 {
        let scaled = self.significand() * pow2(64);
        if self.nan() {
            Float64 { bits: NAN_BITS }
        } else if !self.finite() || self.zero() {
            self
        } else {
            nearest(
                self.negative(),
                (scaled / divisor as int) as nat,
                self.unit_exponent() - 64,
                scaled % divisor as int != 0,
            )
        }
    }

    /// The nearest whole number, with halves going away from zero. The
    /// sign stays, also on a zero.
    pub open spec fn whole(self) -> Float64 {
        let f = -self.unit_exponent();
        let m = self.significand();
        let below = m / pow2(f as nat) as int;
        let n = if 2 * (m % pow2(f as nat) as int) >= pow2(f as nat) {
            below + 1
        } else {
            below
        };
        if self.nan() {
            Float64 { bits: NAN_BITS }
        } else if !self.finite() || self.zero() || self.unit_exponent() >= 0 {
            self
        } else {
            nearest(self.negative(), n as nat, 0, false)
        }
    }

    /// The number rounded to so many decimals: multiplied by the power of
    /// ten, rounded to a whole number, divided by the power of ten. Each of
    /// the two outer steps rounds its own result to a binary64.
    pub open spec fn rounded_to(self, decimals: nat) -> Float64 {
        self.product(ten_to(decimals)).whole().quotient(ten_to(decimals))
    }

    /// The exact sum of two finite numbers that are not zero, counted in
    /// the smaller of their two units.
    pub open spec fn exact_sum(self, other: Float64) -> int {
        let e = if self.unit_exponent() <= other.unit_exponent() {
            self.unit_exponent()
        } else {
            other.unit_exponent()
        };
        let a = self.significand() * pow2((self.unit_exponent() - e) as nat);
        let b = other.significand() * pow2((other.unit_exponent() - e) as nat);
        (if self.negative() {
            -a
        } else {
            a
        }) + (if other.negative() {
            -b
        } else {
            b
        })
    }

    /// The sum of two numbers, rounded once. Infinities of opposite sign
    /// have the quiet NaN for their sum; a sum that is exactly zero is
    /// positive, unless both numbers are negative zeros.
    pub open spec fn sum(self, other: Float64) -> Float64 {
        let e = if self.unit_exponent() <= other.unit_exponent() {
            self.unit_exponent()
        } else {
            other.unit_exponent()
        };
        let s = self.exact_sum(other);
        if self.nan() || other.nan() {
            Float64 { bits: NAN_BITS }
        } else if !self.finite() {
            if !other.finite() && self.negative() != other.negative() {
                Float64 { bits: NAN_BITS }
            } else {
                self
            }
        } else if !other.finite() {
            other
        } else if self.zero() && other.zero() {
            if self.negative() && other.negative() {
                self
            } else {
                Float64 { bits: 0 }
            }
        } else if self.zero() {
            other
        } else if other.zero() {
            self
        } else if s == 0 {
            Float64 { bits: 0 }
        } else if s < 0 {
            nearest(true, (-s) as nat, e, false)
        } else {
            nearest(false, s as nat, e, false)
        }
    }

    /// The difference of two numbers, rounded once.
    pub open spec fn difference(self, other: Float64) -> Float64 {
        self.sum(other.negated())
    }
}

/// A power of ten is positive.
pub proof fn lemma_ten_to_positive(d: nat)
    ensures
        ten_to(d) > 0,
    decreases d,
{
    if d > 0 {
        lemma_ten_to_positive((d - 1) as nat);
    }
}

/// The powers of ten add up in their exponents.
pub proof fn lemma_ten_to_adds(a: nat, b: nat)
    ensures
        ten_to(a + b) == ten_to(a) * ten_to(b),
    decreases a,
{
    if a == 0 {
        assert(ten_to(0) * ten_to(b) == ten_to(b)) by (nonlinear_arith)
            requires
                ten_to(0) == 1,
        ;
    } else {
        lemma_ten_to_adds((a - 1) as nat, b);
        assert(ten_to(a + b) == 10 * ten_to((a - 1 + b) as nat));
        assert(10 * (ten_to((a - 1) as nat) * ten_to(b)) == (10 * ten_to((a - 1) as nat)) * ten_to(
            b,
        )) by (nonlinear_arith);
    }
}

/// A power of two is no more than the same power of ten.
pub proof fn lemma_pow2_below_ten_to(n: nat)
    ensures
        pow2(n) <= ten_to(n),
    decreases n,
{
    lemma2_to64();
    if n > 0 {
        lemma_pow2_below_ten_to((n - 1) as nat);
        lemma_pow2_unfold(n);
    }
}

/// The powers of ten grow with their exponents.
pub proof fn lemma_ten_to_grows(a: nat, b: nat)
    requires
        a <= b,
    ensures
        ten_to(a) <= ten_to(b),
    decreases b - a,
{
    if a < b {
        lemma_ten_to_grows(a, (b - 1) as nat);
        lemma_ten_to_positive((b - 1) as nat);
    }
}

/// What a binary64 can hold, it holds as it is: where no bit of `n` is
/// lost and the result is finite, the nearest number to `n * 2^e` has that
/// very value. Rounding only ever touches what does not fit.
pub proof fn lemma_nearest_exact(negative: bool, n: nat, e: int)
    requires
        n > 0,
        lost_bits(n, e) <= 0,
        nearest_magnitude(n, e, false) < INFINITY_BITS,
    ensures
        nearest(negative, n, e, false).finite(),
        nearest(negative, n, e, false).negative() == negative,
        nearest(negative, n, e, false).scaled() == if negative {
            -(n * pow2((e + 1074) as nat))
        } else {
            (n * pow2((e + 1074) as nat)) as int
        },
{
    lemma2_to64();
    lemma2_to64_rest();
    let k = bit_length(n);
    lemma_bit_length_bounds(n);
    let s = lost_bits(n, e);
    let up = (-s) as nat;
    let u = e + s + 1074;
    let m = n * pow2(up);
    lemma_pow2_pos(up);
    lemma_pow2_grows(up, (53 - k) as nat);
    lemma_pow2_adds(k, (53 - k) as nat);
    assert(0 < m < pow2(53)) by (nonlinear_arith)
        requires
            m == n * pow2(up),
            0 < n < pow2(k),
            0 < pow2(up) <= pow2((53 - k) as nat),
            pow2(k) * pow2((53 - k) as nat) == pow2(53),
    ;
    let bits = u * FRACTION_UNIT + m;
    assert(bits == nearest_magnitude(n, e, false));
    assert(0 <= u);
    assert(u < 2047) by (nonlinear_arith)
        requires
            u * FRACTION_UNIT + m < INFINITY_BITS,
            m > 0,
            u >= 0,
            FRACTION_UNIT == 0x10_0000_0000_0000,
            INFINITY_BITS == 0x7FF0_0000_0000_0000,
    ;
    let x = Float64 { bits: bits as u64 };
    if m < FRACTION_UNIT {
        if s == k - 53 {
            lemma_pow2_adds((k - 1) as nat, (53 - k) as nat);
            assert(m >= pow2(52)) by (nonlinear_arith)
                requires
                    m == n * pow2(up),
                    n >= pow2((k - 1) as nat),
                    pow2((k - 1) as nat) * pow2(up) == pow2(52),
                    pow2(up) > 0,
            ;
        }
        assert(u == 0);
        lemma_fields(0, m as int);
        assert(x.significand() == m);
        assert(up == e + 1074);
        assert(m * pow2(0) == m) by (nonlinear_arith)
            requires
                pow2(0) == 1,
        ;
    } else {
        assert(bits == (u + 1) * FRACTION_UNIT + (m - FRACTION_UNIT)) by (nonlinear_arith)
            requires
                bits == u * FRACTION_UNIT + m,
        ;
        assert(u + 1 < 2047) by (nonlinear_arith)
            requires
                (u + 1) * FRACTION_UNIT + (m - FRACTION_UNIT) < INFINITY_BITS,
                m >= FRACTION_UNIT,
                FRACTION_UNIT == 0x10_0000_0000_0000,
                INFINITY_BITS == 0x7FF0_0000_0000_0000,
        ;
        lemma_fields(u + 1, m - FRACTION_UNIT);
        assert(x.significand() == m);
        lemma_pow2_adds(up, u as nat);
        assert(m * pow2(u as nat) == n * pow2((e + 1074) as nat)) by (nonlinear_arith)
            requires
                m == n * pow2(up),
                pow2(up) * pow2(u as nat) == pow2((e + 1074) as nat),
        ;
    }
    if negative {
        let y = nearest(negative, n, e, false);
        assert(y.bits == bits + SIGN_BIT);
        assert(y.magnitude() == x.magnitude());
        assert(y.scaled() == -x.scaled());
    }
}

/// The value of a pattern that is made of a unit and a significand: a
/// significand with its top bit set, or any significand in the smallest unit.
proof fn lemma_packed_value(u: int, m: int)
    requires
        0 <= u,
        0 <= m <= 2 * FRACTION_UNIT,
        u == 0 || m >= FRACTION_UNIT,
        u * FRACTION_UNIT + m < INFINITY_BITS,
    ensures
        (Float64 { bits: (u * FRACTION_UNIT + m) as u64 }).finite(),
        !(Float64 { bits: (u * FRACTION_UNIT + m) as u64 }).negative(),
        (Float64 { bits: (u * FRACTION_UNIT + m) as u64 }).scaled() == m * pow2(u as nat),
{
    lemma2_to64();
    lemma2_to64_rest();
    let x = Float64 { bits: (u * FRACTION_UNIT + m) as u64 };
    assert(u * FRACTION_UNIT >= 0) by (nonlinear_arith)
        requires
            u >= 0,
            FRACTION_UNIT == 0x10_0000_0000_0000,
    ;
    if m < FRACTION_UNIT {
        lemma_fields(0, m);
        assert(x.scaled() == m * pow2(0));
    } else if m < 2 * FRACTION_UNIT {
        assert(u * FRACTION_UNIT + m == (u + 1) * FRACTION_UNIT + (m - FRACTION_UNIT))
            by (nonlinear_arith);
        assert(u + 1 < 2047) by (nonlinear_arith)
            requires
                (u + 1) * FRACTION_UNIT + (m - FRACTION_UNIT) < INFINITY_BITS,
                m >= FRACTION_UNIT,
                FRACTION_UNIT == 0x10_0000_0000_0000,
                INFINITY_BITS == 0x7FF0_0000_0000_0000,
        ;
        lemma_fields(u + 1, m - FRACTION_UNIT);
        assert(x.significand() == m);
    } else {
        assert(u * FRACTION_UNIT + m == (u + 2) * FRACTION_UNIT + 0) by (nonlinear_arith)
            requires
                m == 2 * FRACTION_UNIT,
        ;
        assert(u + 2 < 2047) by (nonlinear_arith)
            requires
                (u + 2) * FRACTION_UNIT < INFINITY_BITS,
                FRACTION_UNIT == 0x10_0000_0000_0000,
                INFINITY_BITS == 0x7FF0_0000_0000_0000,
        ;
        lemma_fields(u + 2, 0);
        assert(x.significand() == FRACTION_UNIT);
        lemma_pow2_unfold((u + 1) as nat);
        assert(FRACTION_UNIT * pow2((u + 1) as nat) == (2 * FRACTION_UNIT) * pow2(u as nat))
            by (nonlinear_arith)
            requires
                pow2((u + 1) as nat) == 2 * pow2(u as nat),
        ;
    }
}

/// The nearest number is near: where the result is finite, it is a
/// multiple of its unit, which is `2^(e + s)` with `s` the number of bits
/// that were lost, and differs from `n * 2^e` by half a unit at most. The
/// values are compared after both have been multiplied by `2^s`, which
/// makes them whole numbers.
pub proof fn lemma_nearest_is_near(negative: bool, n: nat, e: int)
    requires
        n > 0,
        lost_bits(n, e) > 0,
        nearest_magnitude(n, e, false) < INFINITY_BITS,
    ensures
        nearest(negative, n, e, false).finite(),
        nearest(negative, n, e, false).negative() == negative,
        ({
            let got = nearest(false, n, e, false).scaled();
            let cut = pow2(lost_bits(n, e) as nat);
            let unit = pow2((e + lost_bits(n, e) + 1074) as nat);
            &&& got % unit as int == 0
            &&& -(cut * unit) <= 2 * (got * cut - n * unit) <= cut * unit
        }),
        nearest(true, n, e, false).scaled() == -nearest(false, n, e, false).scaled(),
{
    lemma2_to64();
    lemma2_to64_rest();
    let k = bit_length(n);
    lemma_bit_length_bounds(n);
    let s = lost_bits(n, e) as nat;
    let u = e + s + 1074;
    let cut = pow2(s);
    lemma_pow2_pos(s);
    lemma_pow2_pos(u as nat);
    let q = n / cut;
    let r = n % cut;
    lemma_fundamental_div_mod(n as int, cut as int);
    let m = round_half_even(n, s, false);
    lemma_pow2_grows(k, (53 + s) as nat);
    lemma_pow2_adds(53, s);
    assert(q < pow2(53)) by (nonlinear_arith)
        requires
            n < pow2(53) * cut,
            q == n / cut,
            cut > 0,
    ;
    assert(m <= 2 * FRACTION_UNIT);
    if u > 0 {
        assert(s == k - 53);
        lemma_pow2_adds(52, s);
        assert(q >= pow2(52)) by (nonlinear_arith)
            requires
                n >= pow2(52) * cut,
                q == n / cut,
                cut > 0,
        ;
    }
    lemma_packed_value(u, m as int);
    let x = nearest(false, n, e, false);
    assert(x.scaled() == m * pow2(u as nat));
    lemma_mod_multiples_basic(m as int, pow2(u as nat) as int);
    let unit = pow2(u as nat);
    assert(-(cut * unit) <= 2 * ((m * unit) * cut - n * unit) <= cut * unit)
        by (nonlinear_arith)
        requires
            n == cut * q + r,
            0 <= r < cut,
            m == if 2 * r > cut || (2 * r == cut && q % 2 == 1) {
                q + 1
            } else {
                q
            },
            unit > 0,
            cut > 0,
    ;
    let y = nearest(true, n, e, false);
    assert(y.bits == x.bits + SIGN_BIT);
    assert(y.magnitude() == x.magnitude());
    if negative {
        assert(nearest(negative, n, e, false) == y);
    }
}

/// An integer of magnitude below `2^53` becomes the binary64 with its
/// value: every integer of up to 32 bits, and most of those of 64, read
/// as numbers without loss.
pub proof fn lemma_of_int_exact(n: int)
    requires
        -0x20_0000_0000_0000 < n < 0x20_0000_0000_0000,
    ensures
        Float64::of_int(n).finite(),
        Float64::of_int(n).negative() == (n < 0),
        Float64::of_int(n).scaled() == n * pow2(1074),
{
    lemma2_to64();
    lemma2_to64_rest();
    if n == 0 {
        let zero = Float64 { bits: 0 };
        assert(zero.significand() == 0);
        lemma_mul_basics(pow2(0) as int);
        lemma_mul_basics(pow2(1074) as int);
    } else {
        let m: nat = if n < 0 {
            (-n) as nat
        } else {
            n as nat
        };
        let k = bit_length(m);
        lemma_bit_length_bounds(m);
        if k > 53 {
            lemma_pow2_grows(53, (k - 1) as nat);
        }
        assert(lost_bits(m, 0) <= 0);
        let up = (-lost_bits(m, 0)) as nat;
        lemma_pow2_grows(up, (53 - k) as nat);
        lemma_pow2_adds(k, (53 - k) as nat);
        assert(m * pow2(up) < pow2(53)) by (nonlinear_arith)
            requires
                0 < m < pow2(k),
                0 < pow2(up) <= pow2((53 - k) as nat),
                pow2(k) * pow2((53 - k) as nat) == pow2(53),
        ;
        assert((0 + lost_bits(m, 0) + 1074) * FRACTION_UNIT + m * pow2(up) < INFINITY_BITS)
            by (nonlinear_arith)
            requires
                lost_bits(m, 0) <= 0,
                m * pow2(up) < 0x20_0000_0000_0000,
                FRACTION_UNIT == 0x10_0000_0000_0000,
                INFINITY_BITS == 0x7FF0_0000_0000_0000,
        ;
        lemma_nearest_exact(n < 0, m, 0);
        assert(-(m * pow2(1074)) == (-(m as int)) * pow2(1074)) by (nonlinear_arith);
    }
}

/// The nearest whole number of a finite number is a whole number, and no
/// more than a half away from the number itself.
pub proof fn lemma_whole_is_near(x: Float64)
    requires
        x.finite(),
    ensures
        x.whole().finite(),
        x.whole().negative() == x.negative(),
        x.whole().scaled() % pow2(1074) as int == 0,
        -(pow2(1074) as int) <= 2 * (x.whole().scaled() - x.scaled()) <= pow2(1074),
{
    lemma2_to64();
    lemma2_to64_rest();
    lemma_pow2_pos(1074);
    let m = x.significand();
    let e = x.unit_exponent();
    lemma_fundamental_div_mod(x.magnitude() as int, FRACTION_UNIT as int);
    assert(0 <= m < 2 * FRACTION_UNIT);
    assert(-1074 <= e <= 971);
    let power: nat = (e + 1074) as nat;
    assert(x.scaled() == if x.negative() {
        -(m * pow2(power))
    } else {
        m * pow2(power)
    });
    if x.zero() {
        lemma_mul_basics(pow2(0) as int);
        lemma_mod_multiples_basic(0, pow2(1074) as int);
    } else if e >= 0 {
        lemma_pow2_adds(e as nat, 1074);
        assert(m * pow2(power) == (m * pow2(e as nat)) * pow2(1074)) by (nonlinear_arith)
            requires
                pow2(e as nat) * pow2(1074) == pow2(power),
        ;
        lemma_mod_multiples_basic(m * pow2(e as nat), pow2(1074) as int);
        lemma_mod_multiples_basic(-(m * pow2(e as nat)), pow2(1074) as int);
        assert((-(m * pow2(e as nat))) * pow2(1074) == -((m * pow2(e as nat)) * pow2(1074)))
            by (nonlinear_arith);
    } else {
        let f = (-e) as nat;
        let unit = pow2(f);
        lemma_pow2_pos(f);
        lemma_pow2_pos(power);
        lemma_pow2_adds(f, power);
        let below = m / unit as int;
        let rest = m % unit as int;
        lemma_fundamental_div_mod(m, unit as int);
        assert(0 <= rest < unit);
        assert(below >= 0) by {
            lemma_div_pos_is_pos(m, unit as int);
        }
        let n: int = if 2 * rest >= unit {
            below + 1
        } else {
            below
        };
        lemma_pow2_unfold(f);
        lemma_pow2_pos((f - 1) as nat);
        assert(below < FRACTION_UNIT) by (nonlinear_arith)
            requires
                m == unit * below + rest,
                rest >= 0,
                m < 2 * FRACTION_UNIT,
                unit >= 2,
                below >= 0,
        ;
        assert(2 * (n * pow2(1074) - m * pow2(power)) <= pow2(1074) && 2 * (n * pow2(1074) - m
            * pow2(power)) >= -(pow2(1074) as int)) by (nonlinear_arith)
            requires
                m == unit * below + rest,
                0 <= rest < unit,
                n == if 2 * rest >= unit {
                    below + 1
                } else {
                    below
                },
                unit * pow2(power) == pow2(1074),
                pow2(power) > 0,
        ;
        lemma_mod_multiples_basic(n, pow2(1074) as int);
        lemma_mod_multiples_basic(-n, pow2(1074) as int);
        assert((-n) * pow2(1074) == -(n * pow2(1074))) by (nonlinear_arith);
        if n == 0 {
            let zero = Float64 { bits: 0 };
            assert(zero.significand() == 0);
            lemma_mul_basics(pow2(0) as int);
            let w = x.whole();
            assert(w.magnitude() == 0);
            assert(w.significand() == 0);
            assert(w.scaled() == 0);
        } else {
            lemma_bit_length_bounds(n as nat);
            let k = bit_length(n as nat);
            if k > 53 {
                lemma_pow2_grows(53, (k - 1) as nat);
            }
            assert(lost_bits(n as nat, 0) <= 0);
            lemma_pow2_grows(0, (53 - k) as nat);
            lemma_pow2_adds(k, (53 - k) as nat);
            assert(nearest_magnitude(n as nat, 0, false) < INFINITY_BITS) by {
                let up = (-lost_bits(n as nat, 0)) as nat;
                lemma_pow2_grows(up, (53 - k) as nat);
                assert(n * pow2(up) < pow2(53)) by (nonlinear_arith)
                    requires
                        0 < n < pow2(k),
                        0 < pow2(up) <= pow2((53 - k) as nat),
                        pow2(k) * pow2((53 - k) as nat) == pow2(53),
                ;
                assert((0 + lost_bits(n as nat, 0) + 1074) * FRACTION_UNIT + n * pow2(up)
                    < INFINITY_BITS) by (nonlinear_arith)
                    requires
                        lost_bits(n as nat, 0) <= 0,
                        n * pow2(up) < 0x20_0000_0000_0000,
                        FRACTION_UNIT == 0x10_0000_0000_0000,
                        INFINITY_BITS == 0x7FF0_0000_0000_0000,
                ;
            }
            lemma_nearest_exact(x.negative(), n as nat, 0);
        }
    }
}

/// Two to the power 124: exact results stay below it.
pub const WIDE_LIMIT: u128 = 0x1000_0000_0000_0000_0000_0000_0000_0000;

/// Two to the power 64.
pub const TWO_POW_64: u128 = 0x1_0000_0000_0000_0000;

/// Ten to the power 15.
pub const TEN_POW_15: u64 = 1_000_000_000_000_000;

proof fn lemma_wide_powers()
    ensures
        pow2(53) == 0x20_0000_0000_0000,
        pow2(64) == TWO_POW_64,
        pow2(124) == WIDE_LIMIT,
        pow2(126) == 0x4000_0000_0000_0000_0000_0000_0000_0000,
        pow2(127) == 0x8000_0000_0000_0000_0000_0000_0000_0000,
{
    lemma2_to64();
    lemma2_to64_rest();
    lemma_pow2_adds(62, 62);
    lemma_pow2_adds(63, 63);
    lemma_pow2_adds(63, 64);
}

/// The powers of two grow with their exponents.
proof fn lemma_pow2_grows(a: nat, b: nat)
    requires
        a <= b,
    ensures
        pow2(a) <= pow2(b),
        pow2(a) > 0,
{
    lemma_pow2_pos(a);
    if a < b {
        lemma_pow2_strictly_increases(a, b);
    }
}

fn power_of_two_wide(e: u64) -> (r: u128)
    requires
        e <= 126,
    ensures
        r == pow2(e as nat),
{
    let mut r: u128 = 1;
    let mut i: u64 = 0;
    proof {
        lemma2_to64();
    }
    while i < e
        invariant
            i <= e <= 126,
            r == pow2(i as nat),
        decreases e - i,
    {
        proof {
            lemma_pow2_unfold((i + 1) as nat);
            lemma_pow2_grows((i + 1) as nat, 126);
            lemma_wide_powers();
        }
        r = r * 2;
        i += 1;
    }
    r
}

fn binary_digits_wide(n: u128) -> (k: u64)
    ensures
        k == bit_length(n as nat),
        k <= 128,
{
    let mut rest: u128 = n;
    let mut k: u64 = 0;
    proof {
        if n > 0 {
            lemma_bit_length_bounds(n as nat);
            lemma_wide_powers();
            if bit_length(n as nat) > 128 {
                lemma_pow2_grows(128, (bit_length(n as nat) - 1) as nat);
                lemma_pow2_adds(64, 64);
            }
        }
    }
    while rest > 0
        invariant
            k + bit_length(rest as nat) == bit_length(n as nat),
            bit_length(n as nat) <= 128,
        decreases rest,
    {
        rest = rest / 2;
        k += 1;
    }
    k
}

proof fn lemma_powers_of_ten()
    ensures
        ten_to(0) == 1,
        ten_to(1) == 10,
        ten_to(2) == 100,
        ten_to(3) == 1_000,
        ten_to(4) == 10_000,
        ten_to(5) == 100_000,
        ten_to(6) == 1_000_000,
        ten_to(7) == 10_000_000,
        ten_to(8) == 100_000_000,
        ten_to(9) == 1_000_000_000,
        ten_to(10) == 10_000_000_000,
        ten_to(11) == 100_000_000_000,
        ten_to(12) == 1_000_000_000_000,
        ten_to(13) == 10_000_000_000_000,
        ten_to(14) == 100_000_000_000_000,
        ten_to(15) == 1_000_000_000_000_000,
{
    reveal_with_fuel(ten_to, 16);
}

fn ten_to_the(decimals: u32) -> (r: u64)
    requires
        decimals <= MAX_DECIMALS,
    ensures
        r == ten_to(decimals as nat),
        0 < r <= TEN_POW_15,
{
    let mut r: u64 = 1;
    let mut i: u32 = 0;
    proof {
        lemma_powers_of_ten();
    }
    while i < decimals
        invariant
            i <= decimals <= MAX_DECIMALS,
            r == ten_to(i as nat),
            0 < r <= TEN_POW_15,
        decreases decimals - i,
    {
        proof {
            lemma_powers_of_ten();
        }
        r = r * 10;
        i += 1;
    }
    r
}

fn unpack(x: Float64) -> (parts: (bool, u64, i64))
    requires
        x.finite(),
    ensures
        parts.0 == x.negative(),
        parts.1 == x.significand(),
        parts.2 == x.unit_exponent(),
        parts.1 < 2 * FRACTION_UNIT,
        -1074 <= parts.2 <= 971,
        parts.1 == 0 <==> x.zero(),
{
    let magnitude = x.abs().bits;
    let field = magnitude / FRACTION_UNIT;
    let fraction = magnitude % FRACTION_UNIT;
    if field == 0 {
        (x.is_negative(), fraction, -1074)
    } else {
        (x.is_negative(), FRACTION_UNIT + fraction, field as i64 - 1075)
    }
}

fn signed(negative: bool, magnitude: u64) -> (r: Float64)
    requires
        magnitude < SIGN_BIT,
    ensures
        r.bits == if negative {
            magnitude + SIGN_BIT
        } else {
            magnitude as int
        },
{
    if negative {
        Float64 { bits: magnitude + SIGN_BIT }
    } else {
        Float64 { bits: magnitude }
    }
}

/// Rounds an exact result to the nearest binary64.
fn pack_nearest(negative: bool, n: u128, e: i64, more: bool) -> (r: Float64)
    requires
        0 < n < WIDE_LIMIT,
        -1200 <= e <= 1000,
    ensures
        r == nearest(negative, n as nat, e as int, more),
{
    let k = binary_digits_wide(n);
    proof {
        lemma_bit_length_bounds(n as nat);
        lemma_wide_powers();
        if k > 124 {
            lemma_pow2_grows(124, (k - 1) as nat);
        }
    }
    let by_width: i64 = k as i64 - 53;
    let by_depth: i64 = -1074 - e;
    let s: i64 = if by_width >= by_depth {
        by_width
    } else {
        by_depth
    };
    assert(s == lost_bits(n as nat, e as int));
    let m: u128 = if s <= 0 {
        let up = (-s) as u64;
        let scale = power_of_two_wide(up);
        proof {
            lemma_pow2_grows(up as nat, (53 - k) as nat);
            lemma_pow2_adds(k as nat, (53 - k) as nat);
            assert(n * scale < pow2(53)) by (nonlinear_arith)
                requires
                    n < pow2(k as nat),
                    scale <= pow2((53 - k) as nat),
                    pow2(k as nat) * pow2((53 - k) as nat) == pow2(53),
                    scale > 0,
            ;
        }
        n * scale
    } else {
        let unit = power_of_two_wide(s as u64);
        proof {
            lemma_pow2_pos(s as nat);
        }
        let q = n / unit;
        let r = n % unit;
        let half = unit / 2;
        proof {
            lemma_pow2_unfold(s as nat);
            lemma_pow2_pos((s - 1) as nat);
            lemma_pow2_grows(k as nat, (53 + s) as nat);
            lemma_pow2_adds(53, s as nat);
            assert(q < pow2(53)) by (nonlinear_arith)
                requires
                    n < pow2(53) * unit,
                    q == n / unit,
                    unit > 0,
            ;
        }
        if r > half || (r == half && (more || q % 2 == 1)) {
            q + 1
        } else {
            q
        }
    };
    assert(m <= pow2(53));
    let bits: u128 = ((e + s + 1074) as u128) * (FRACTION_UNIT as u128) + m;
    assert(bits == (e + s + 1074) * FRACTION_UNIT + m);
    if bits >= INFINITY_BITS as u128 {
        signed(negative, INFINITY_BITS)
    } else {
        signed(negative, bits as u64)
    }
}

impl Float64 {
    /// The binary64 nearest to `n`.
    pub fn from_unsigned(n: u64) -> (r: Float64)
        ensures
            r == Float64::of_nat(n as nat),
    {
        if n == 0 {
            Float64 { bits: 0 }
        } else {
            pack_nearest(false, n as u128, 0, false)
        }
    }

    /// The binary64 nearest to `n`.
    pub fn from_signed(n: i64) -> (r: Float64)
        ensures
            r == Float64::of_int(n as int),
    {
        if n < 0 {
            let magnitude: u64 = (-(n + 1)) as u64 + 1;
            pack_nearest(true, magnitude as u128, 0, false)
        } else if n == 0 {
            Float64 { bits: 0 }
        } else {
            pack_nearest(false, n as u128, 0, false)
        }
    }

    fn times(self, factor: u64) -> (r: Float64)
        requires
            0 < factor <= TEN_POW_15,
        ensures
            r == self.product(factor as nat),
    {
        if self.is_nan() {
            return Float64 { bits: NAN_BITS };
        }
        if !self.is_finite() || self.is_zero() {
            return self;
        }
        let (negative, m, e) = unpack(self);
        proof {
            assert(m * factor < WIDE_LIMIT) by (nonlinear_arith)
                requires
                    m < 0x20_0000_0000_0000,
                    factor <= 1_000_000_000_000_000,
            ;
            assert(m * factor > 0) by (nonlinear_arith)
                requires
                    m > 0,
                    factor > 0,
            ;
        }
        pack_nearest(negative, m as u128 * factor as u128, e, false)
    }

    fn over(self, divisor: u64) -> (r: Float64)
        requires
            0 < divisor <= TEN_POW_15,
        ensures
            r == self.quotient(divisor as nat),
    {
        if self.is_nan() {
            return Float64 { bits: NAN_BITS };
        }
        if !self.is_finite() || self.is_zero() {
            return self;
        }
        let (negative, m, e) = unpack(self);
        proof {
            lemma_wide_powers();
            assert(m * TWO_POW_64 < WIDE_LIMIT) by (nonlinear_arith)
                requires
                    m < 0x20_0000_0000_0000,
            ;
        }
        let scaled: u128 = m as u128 * TWO_POW_64;
        let q = scaled / divisor as u128;
        let rest = scaled % divisor as u128;
        proof {
            assert(q >= 1) by (nonlinear_arith)
                requires
                    scaled >= TWO_POW_64,
                    0 < divisor <= 1_000_000_000_000_000,
                    q == scaled / (divisor as u128),
            ;
            assert(q <= scaled) by (nonlinear_arith)
                requires
                    q == scaled / (divisor as u128),
                    divisor >= 1,
            ;
        }
        pack_nearest(negative, q, e - 64, rest != 0)
    }

    /// The nearest whole number, halves away from zero.
    pub fn round(self) -> (r: Float64)
        ensures
            r == self.whole(),
    {
        if self.is_nan() {
            return Float64 { bits: NAN_BITS };
        }
        if !self.is_finite() || self.is_zero() {
            return self;
        }
        let (negative, m, e) = unpack(self);
        if e >= 0 {
            return self;
        }
        let f = (-e) as u64;
        if f >= 64 {
            proof {
                lemma_wide_powers();
                lemma_pow2_grows(64, f as nat);
                lemma_small_mod(m as nat, pow2(f as nat));
                lemma_basic_div(m as int, pow2(f as nat) as int);
            }
            return signed(negative, 0);
        }
        let unit = power_of_two(f);
        proof {
            lemma2_to64_rest();
            lemma_pow2_grows(f as nat, 63);
        }
        let below = m / unit;
        let rest = m % unit;
        let n = if 2 * rest >= unit {
            below + 1
        } else {
            below
        };
        if n == 0 {
            signed(negative, 0)
        } else {
            pack_nearest(negative, n as u128, 0, false)
        }
    }

    /// The number rounded to so many decimals.
    pub fn round_to(self, decimals: u32) -> (r: Float64)
        requires
            decimals <= MAX_DECIMALS,
        ensures
            r == self.rounded_to(decimals as nat),
    {
        let power = ten_to_the(decimals);
        self.times(power).round().over(power)
    }

    /// The sum of two numbers.
    pub fn plus(self, other: Float64) -> (r: Float64)
        ensures
            r == self.sum(other),
    {
        if self.is_nan() || other.is_nan() {
            return Float64 { bits: NAN_BITS };
        }
        if !self.is_finite() {
            if !other.is_finite() && self.is_negative() != other.is_negative() {
                return Float64 { bits: NAN_BITS };
            }
            return self;
        }
        if !other.is_finite() {
            return other;
        }
        if self.is_zero() && other.is_zero() {
            if self.is_negative() && other.is_negative() {
                return self;
            }
            return Float64 { bits: 0 };
        }
        if self.is_zero() {
            return other;
        }
        if other.is_zero() {
            return self;
        }
        let (na, ma, ea) = unpack(self);
        let (nb, mb, eb) = unpack(other);
        if ea >= eb {
            sum_aligned(self, other, na, ma, ea, nb, mb, eb)
        } else {
            sum_aligned(other, self, nb, mb, eb, na, ma, ea)
        }
    }

    /// The difference of two numbers.
    pub fn minus(self, other: Float64) -> (r: Float64)
        ensures
            r == self.difference(other),
    {
        self.plus(other.neg())
    }
}

/// The sum of two finite numbers that are not zero, the first with the
/// unit that is not the smaller.
fn sum_aligned(
    a: Float64,
    b: Float64,
    na: bool,
    ma: u64,
    ea: i64,
    nb: bool,
    mb: u64,
    eb: i64,
) -> (r: Float64)
    requires
        a.finite() && !a.zero(),
        b.finite() && !b.zero(),
        na == a.negative() && ma == a.significand() && ea == a.unit_exponent(),
        nb == b.negative() && mb == b.significand() && eb == b.unit_exponent(),
        ea >= eb,
    ensures
        r == a.sum(b),
        r == b.sum(a),
{
    let d = (ea - eb) as u64;
    proof {
        lemma2_to64();
        assert(pow2(0) == 1);
    }
    if d > 70 {
        proof {
            lemma_far_smaller(a, b);
        }
        return a;
    }
    let scale = power_of_two_wide(d);
    proof {
        lemma_wide_powers();
        lemma_pow2_grows(d as nat, 70);
        lemma_pow2_adds(53, 70);
        lemma_pow2_grows(123, 124);
        assert(ma * scale < pow2(123)) by (nonlinear_arith)
            requires
                ma < pow2(53),
                scale <= pow2(70),
                pow2(53) * pow2(70) == pow2(123),
                scale > 0,
        ;
        assert(ma * scale > 0) by (nonlinear_arith)
            requires
                ma > 0,
                scale > 0,
        ;
        assert(mb < pow2(123)) by {
            lemma_pow2_grows(53, 123);
        }
        assert(pow2(124) == 2 * pow2(123)) by {
            lemma_pow2_unfold(124);
        }
    }
    let wide: u128 = ma as u128 * scale;
    let small: u128 = mb as u128;
    proof {
        assert(b.significand() * pow2(0) == small) by (nonlinear_arith)
            requires
                pow2(0) == 1,
                b.significand() == small,
        ;
        let signed_wide = if na {
            -(wide as int)
        } else {
            wide as int
        };
        let signed_small = if nb {
            -(small as int)
        } else {
            small as int
        };
        assert(a.exact_sum(b) == signed_wide + signed_small);
        assert(b.exact_sum(a) == signed_small + signed_wide);
    }
    if na == nb {
        pack_nearest(na, wide + small, eb, false)
    } else if wide > small {
        pack_nearest(na, wide - small, eb, false)
    } else if wide < small {
        pack_nearest(nb, small - wide, eb, false)
    } else {
        Float64 { bits: 0 }
    }
}

/// A number between two neighbouring powers of two has as many bits as
/// the larger one's exponent says.
proof fn lemma_bit_length_is(n: nat, j: nat)
    requires
        j >= 1,
        pow2((j - 1) as nat) <= n < pow2(j),
    ensures
        bit_length(n) == j,
{
    lemma_pow2_pos((j - 1) as nat);
    lemma_bit_length_bounds(n);
    let k = bit_length(n);
    if k < j {
        lemma_pow2_grows(k, (j - 1) as nat);
    }
    if k > j {
        lemma_pow2_grows(j, (k - 1) as nat);
    }
}

/// Rounding brings `n` back to the significand `ma` of a normal number
/// with unit `2^(e + d)`, where `n` counts units of `2^e`, is known by
/// quotient and remainder, and differs from `ma * 2^d` by less than a
/// quarter of `2^d`.
proof fn lemma_rounds_back(n: nat, e: int, d: nat, ma: nat, q: nat, r: nat, up: bool)
    requires
        -1074 <= e,
        d >= 1,
        0x10_0000_0000_0000 <= ma < 0x20_0000_0000_0000,
        0x10_0000_0000_0000 <= q < 0x20_0000_0000_0000,
        n == q * pow2(d) + r,
        r < pow2(d),
        up ==> 2 * r > pow2(d),
        !up ==> 2 * r < pow2(d),
        ma == if up {
            q + 1
        } else {
            q
        },
        (e + d + 1074) * FRACTION_UNIT + ma < INFINITY_BITS,
    ensures
        nearest_magnitude(n, e, false) == (e + d + 1074) * FRACTION_UNIT + ma,
{
    let unit = pow2(d);
    lemma_pow2_pos(d);
    lemma2_to64();
    lemma2_to64_rest();
    lemma_pow2_adds(52, d);
    lemma_pow2_adds(53, d);
    assert(n >= pow2(52 + d)) by (nonlinear_arith)
        requires
            n == q * unit + r,
            q >= pow2(52),
            pow2(52) * unit == pow2(52 + d),
            unit > 0,
    ;
    assert(n < pow2(53 + d)) by (nonlinear_arith)
        requires
            n == q * unit + r,
            r < unit,
            q + 1 <= pow2(53),
            pow2(53) * unit == pow2(53 + d),
            unit > 0,
    ;
    lemma_bit_length_is(n, 53 + d);
    assert(lost_bits(n, e) == d);
    lemma_fundamental_div_mod_converse(n as int, unit as int, q as int, r as int);
    assert(round_half_even(n, d, false) == ma);
}

/// Of two finite numbers whose units are more than seventy powers of two
/// apart, the sum is the one with the larger unit: the other is less than
/// a quarter of what the last bit of that one counts, and so is lost in
/// the rounding.
proof fn lemma_far_smaller(a: Float64, b: Float64)
    requires
        a.finite() && !a.zero(),
        b.finite() && !b.zero(),
        a.unit_exponent() - b.unit_exponent() > 70,
    ensures
        a.sum(b) == a,
        b.sum(a) == a,
{
    let ma = a.significand() as nat;
    let mb = b.significand() as nat;
    let ea = a.unit_exponent();
    let eb = b.unit_exponent();
    let d = (ea - eb) as nat;
    let unit = pow2(d);
    lemma2_to64();
    lemma2_to64_rest();
    lemma_wide_powers();
    lemma_pow2_grows(71, d);
    lemma_pow2_adds(64, 7);
    assert(pow2(71) == 0x80_0000_0000_0000_0000);
    assert(pow2(0) == 1);
    assert(mb * pow2(0) == mb) by (nonlinear_arith)
        requires
            pow2(0) == 1,
    ;
    assert(0 < mb < 0x20_0000_0000_0000);
    assert(0x10_0000_0000_0000 <= ma < 0x20_0000_0000_0000);
    assert(a.magnitude() == (ea + 1074) * FRACTION_UNIT + ma) by {
        lemma_fundamental_div_mod(a.magnitude() as int, FRACTION_UNIT as int);
    }
    assert(ma * unit >= 0x10_0000_0000_0000 * unit) by (nonlinear_arith)
        requires
            ma >= 0x10_0000_0000_0000,
            unit > 0,
    ;
    let wide = ma * unit;
    assert(wide > mb);
    assert(a.exact_sum(b) == b.exact_sum(a));
    if a.negative() == b.negative() {
        let n = wide + mb;
        lemma_rounds_back(n, eb, d, ma, ma, mb, false);
        assert(nearest_magnitude(n, eb, false) == a.magnitude());
    } else if ma > 0x10_0000_0000_0000 {
        let n = (wide - mb) as nat;
        assert(n == (ma - 1) * unit + (unit - mb)) by (nonlinear_arith)
            requires
                n == ma * unit - mb,
        ;
        lemma_rounds_back(n, eb, d, ma, (ma - 1) as nat, (unit - mb) as nat, true);
        assert(nearest_magnitude(n, eb, false) == a.magnitude());
    } else {
        let n = (wide - mb) as nat;
        let half = pow2((d - 1) as nat);
        lemma_pow2_unfold(d);
        lemma_pow2_grows(70, (d - 1) as nat);
        lemma_pow2_adds(64, 6);
        assert(half >= 0x40_0000_0000_0000_0000);
        assert(n == (0x20_0000_0000_0000 - 1) * half + (half - mb)) by (nonlinear_arith)
            requires
                n == ma * unit - mb,
                ma == 0x10_0000_0000_0000,
                unit == 2 * half,
        ;
        assert((eb + (d - 1) + 1074) * FRACTION_UNIT + 0x20_0000_0000_0000 == (ea + 1074)
            * FRACTION_UNIT + ma) by (nonlinear_arith)
            requires
                ea == eb + d,
                ma == 0x10_0000_0000_0000,
                FRACTION_UNIT == 0x10_0000_0000_0000,
        ;
        lemma_rounds_up_to_power(n, eb, (d - 1) as nat, (half - mb) as nat);
        assert(nearest_magnitude(n, eb, false) == a.magnitude());
    }
}

/// A number just below `2^53 * 2^d` rounds up to it.
proof fn lemma_rounds_up_to_power(n: nat, e: int, d: nat, r: nat)
    requires
        -1074 <= e,
        d >= 1,
        n == (0x20_0000_0000_0000 - 1) * pow2(d) + r,
        r < pow2(d),
        2 * r > pow2(d),
        (e + d + 1074) * FRACTION_UNIT + 0x20_0000_0000_0000 < INFINITY_BITS,
    ensures
        nearest_magnitude(n, e, false) == (e + d + 1074) * FRACTION_UNIT + 0x20_0000_0000_0000,
{
    let unit = pow2(d);
    let q: nat = (0x20_0000_0000_0000 - 1) as nat;
    lemma_pow2_pos(d);
    lemma2_to64();
    lemma2_to64_rest();
    lemma_pow2_adds(52, d);
    lemma_pow2_adds(53, d);
    assert(n >= pow2(52 + d)) by (nonlinear_arith)
        requires
            n == q * unit + r,
            q >= pow2(52),
            pow2(52) * unit == pow2(52 + d),
            unit > 0,
    ;
    assert(n < pow2(53 + d)) by (nonlinear_arith)
        requires
            n == q * unit + r,
            r < unit,
            q + 1 <= pow2(53),
            pow2(53) * unit == pow2(53 + d),
            unit > 0,
    ;
    lemma_bit_length_is(n, 53 + d);
    assert(lost_bits(n, e) == d);
    lemma_fundamental_div_mod_converse(n as int, unit as int, q as int, r as int);
    assert(round_half_even(n, d, false) == q + 1);
}

} // verus!
