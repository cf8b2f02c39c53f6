//! IEEE-754 numbers held as bit patterns.
//!
//! The device reports binary32 and binary64 readings. This module keeps them
//! as their bit patterns and works on the patterns with integer arithmetic
//! only: classification, order, sign changes, widening and the integer
//! part. Whatever rounds is in `arith`; decimal numerals are in `numeral`.

use vstd::arithmetic::div_mod::*;
use vstd::arithmetic::mul::*;
use vstd::arithmetic::power2::*;
use vstd::prelude::*;

verus! {

/// The sign bit of a binary64 pattern.
pub const SIGN_BIT: u64 = 0x8000_0000_0000_0000;

/// The pattern of positive infinity; larger magnitudes are NaN.
pub const INFINITY_BITS: u64 = 0x7FF0_0000_0000_0000;

/// Two to the power 52: the weight of the exponent field.
pub const FRACTION_UNIT: u64 = 0x0010_0000_0000_0000;

/// The pattern of the quiet NaN that conversions produce.
pub const NAN_BITS: u64 = 0x7FF8_0000_0000_0000;

/// The pattern of 1.0.
pub const ONE_BITS: u64 = 0x3FF0_0000_0000_0000;

/// The pattern of 10.0.
pub const TEN_BITS: u64 = 0x4024_0000_0000_0000;

/// The pattern of two to the power 64.
pub const TWO_POW_64_BITS: u64 = 0x43F0_0000_0000_0000;

/// The pattern of the binary64 nearest to 1e-10.
pub const EPSILON_BITS: u64 = 0x3DDB_7CDF_D9D7_BDBB;

/// The sign bit of a binary32 pattern.
pub const SIGN_BIT_32: u32 = 0x8000_0000;

/// The binary32 pattern of positive infinity.
pub const INFINITY_BITS_32: u32 = 0x7F80_0000;

/// Two to the power 23: the weight of the binary32 exponent field.
pub const FRACTION_UNIT_32: u32 = 0x0080_0000;

/// The pattern of the binary32 nearest to 1e-10.
pub const EPSILON_BITS_32: u32 = 0x2EDB_E6FF;

/// A binary64 number, by its bit pattern.
#[derive(Clone, Copy, Debug, PartialEq, Eq, Structural)]
pub struct Float64 {
    pub bits: u64,
}

/// A binary32 number, by its bit pattern.
#[derive(Clone, Copy, Debug, PartialEq, Eq, Structural)]
pub struct Float32 {
    pub bits: u32,
}

/// The number of binary digits of `n`: 0 for 0, else the position of its top bit plus one.
pub open spec fn bit_length(n: nat) -> nat
    decreases n,
{
    if n == 0 {
        0
    } else {
        1 + bit_length(n / 2)
    }
}

pub(crate) fn power_of_two(e: u64) -> (r: u64)
    requires
        e < 64,
    ensures
        r == pow2(e as nat),
{
    let mut r: u64 = 1;
    let mut i: u64 = 0;
    proof {
        lemma2_to64();
    }
    while i < e
        invariant
            i <= e < 64,
            r == pow2(i as nat),
        decreases e - i,
    {
        proof {
            lemma_pow2_unfold((i + 1) as nat);
            lemma_pow2_strictly_increases((i + 1) as nat, 64);
            lemma2_to64();
        }
        r = r * 2;
        i += 1;
    }
    r
}

pub(crate) fn binary_digits(n: u64) -> (k: u64)
    ensures
        k == bit_length(n as nat),
        k <= 64,
{
    let mut rest: u64 = n;
    let mut k: u64 = 0;
    proof {
        if n > 0 {
            lemma_bit_length_bounds(n as nat);
            lemma2_to64();
            if bit_length(n as nat) > 64 {
                lemma_pow2_strictly_increases(64, (bit_length(n as nat) - 1) as nat);
            }
        }
    }
    while rest > 0
        invariant
            k + bit_length(rest as nat) == bit_length(n as nat),
            bit_length(n as nat) <= 64,
        decreases rest,
    {
        rest = rest / 2;
        k += 1;
    }
    k
}

impl Float64 {
    /// The sign bit is set.
    pub open spec fn negative(self) -> bool {
        self.bits >= SIGN_BIT
    }

    /// The pattern without its sign bit.
    pub open spec fn magnitude(self) -> u64 {
        if self.bits >= SIGN_BIT {
            (self.bits - SIGN_BIT) as u64
        } else {
            self.bits
        }
    }

    /// Not a number.
    pub open spec fn nan(self) -> bool {
        self.magnitude() > INFINITY_BITS
    }

    /// Neither NaN nor infinite.
    pub open spec fn finite(self) -> bool {
        self.magnitude() < INFINITY_BITS
    }

    /// Positive or negative zero.
    pub open spec fn zero(self) -> bool {
        self.magnitude() == 0
    }

    /// The biased exponent field.
    pub open spec fn exponent_field(self) -> int {
        self.magnitude() as int / FRACTION_UNIT as int
    }

    /// The fraction field.
    pub open spec fn fraction(self) -> int {
        self.magnitude() as int % FRACTION_UNIT as int
    }

    /// The significand, with the hidden bit of a normal number.
    pub open spec fn significand(self) -> int {
        if self.exponent_field() == 0 {
            self.fraction()
        } else {
            FRACTION_UNIT + self.fraction()
        }
    }

    /// The exact value of a finite number, in units of `2^-1074`.
    pub open spec fn scaled(self) -> int {
        let e = if self.exponent_field() == 0 {
            1
        } else {
            self.exponent_field()
        };
        let m = self.significand() * pow2((e - 1) as nat);
        if self.negative() {
            -m
        } else {
            m
        }
    }

    /// The place of a number that is not NaN in the order of values: the
    /// encoding grows with the magnitude, and both zeros share place 0.
    pub open spec fn ordinal(self) -> int {
        if self.negative() {
            -(self.magnitude() as int)
        } else {
            self.magnitude() as int
        }
    }

    /// `self >= other` as IEEE-754 compares: false when either is NaN.
    pub open spec fn at_least(self, other: Float64) -> bool {
        !self.nan() && !other.nan() && self.ordinal() >= other.ordinal()
    }

    /// `self == other` as IEEE-754 compares: NaN equals nothing, the two zeros are equal.
    pub open spec fn equals(self, other: Float64) -> bool {
        !self.nan() && !other.nan() && self.ordinal() == other.ordinal()
    }

    /// The number with its sign bit cleared.
    pub open spec fn abs_value(self) -> Float64 {
        Float64 { bits: self.magnitude() }
    }

    /// The number with its sign bit flipped.
    pub open spec fn negated(self) -> Float64 {
        if self.negative() {
            Float64 { bits: self.magnitude() }
        } else {
            Float64 { bits: (self.bits + SIGN_BIT) as u64 }
        }
    }

    /// 1.0 for true, 0.0 for false.
    pub open spec fn of_bool(b: bool) -> Float64 {
        if b {
            Float64 { bits: ONE_BITS }
        } else {
            Float64 { bits: 0 }
        }
    }

    /// The number can be read as an unsigned 64-bit integer: it is not
    /// below zero and below `2^64`.
    pub open spec fn fits_unsigned(self) -> bool {
        (!self.negative() || self.zero()) && self.magnitude() < TWO_POW_64_BITS
    }

    /// The integer part of a number that `fits_unsigned`.
    pub open spec fn truncated(self) -> int {
        let e = self.exponent_field();
        if e < 1023 {
            0
        } else if e <= 1075 {
            self.significand() / pow2((1075 - e) as nat) as int
        } else {
            self.significand() * pow2((e - 1075) as nat)
        }
    }

    /// A magnitude of at least 1e-10: what counts as true.
    pub open spec fn truthy(self) -> bool {
        EPSILON_BITS <= self.magnitude() <= INFINITY_BITS
    }

    pub fn from_bits(bits: u64) -> (r: Float64)
        ensures
            r.bits == bits,
    {
        Float64 { bits }
    }

    pub fn is_negative(self) -> (r: bool)
        ensures
            r == self.negative(),
    {
        self.bits >= SIGN_BIT
    }

    pub fn is_nan(self) -> (r: bool)
        ensures
            r == self.nan(),
    {
        self.abs().bits > INFINITY_BITS
    }

    pub fn is_finite(self) -> (r: bool)
        ensures
            r == self.finite(),
    {
        self.abs().bits < INFINITY_BITS
    }

    pub fn is_zero(self) -> (r: bool)
        ensures
            r == self.zero(),
    {
        self.abs().bits == 0
    }

    pub fn abs(self) -> (r: Float64)
        ensures
            r == self.abs_value(),
    {
        if self.bits >= SIGN_BIT {
            Float64 { bits: self.bits - SIGN_BIT }
        } else {
            self
        }
    }

    pub fn neg(self) -> (r: Float64)
        ensures
            r == self.negated(),
    {
        if self.bits >= SIGN_BIT {
            Float64 { bits: self.bits - SIGN_BIT }
        } else {
            Float64 { bits: self.bits + SIGN_BIT }
        }
    }

    /// `self >= other`.
    pub fn ge(self, other: Float64) -> (r: bool)
        ensures
            r == self.at_least(other),
    {
        if self.is_nan() || other.is_nan() {
            return false;
        }
        let a = self.abs().bits;
        let b = other.abs().bits;
        if self.is_negative() {
            if other.is_negative() {
                a <= b
            } else {
                a == 0 && b == 0
            }
        } else {
            if other.is_negative() {
                true
            } else {
                a >= b
            }
        }
    }

    /// `self == other`, as numbers.
    pub fn same(self, other: Float64) -> (r: bool)
        ensures
            r == self.equals(other),
    {
        if self.is_nan() || other.is_nan() {
            return false;
        }
        self.bits == other.bits || (self.is_zero() && other.is_zero())
    }

    /// 1.0 for true, 0.0 for false.
    pub fn from_bool(b: bool) -> (r: Float64)
        ensures
            r == Float64::of_bool(b),
    {
        if b {
            Float64 { bits: ONE_BITS }
        } else {
            Float64 { bits: 0 }
        }
    }

    /// The integer part as a `u64`, or `None` for a number that is NaN,
    /// below zero, or `2^64` or more.
    pub fn to_unsigned(self) -> (r: Option<u64>)
        ensures
            r is Some <==> self.fits_unsigned(),
            r matches Some(v) ==> v == self.truncated(),
    {
        let magnitude = self.abs().bits;
        if (self.is_negative() && magnitude != 0) || magnitude >= TWO_POW_64_BITS {
            return None;
        }
        let e = magnitude / FRACTION_UNIT;
        let fraction = magnitude % FRACTION_UNIT;
        if e < 1023 {
            return Some(0);
        }
        let significand = FRACTION_UNIT + fraction;
        if e <= 1075 {
            let unit = power_of_two(1075 - e);
            proof {
                lemma_pow2_pos((1075 - e) as nat);
            }
            Some(significand / unit)
        } else {
            assert(e <= 1086);
            let unit = power_of_two(e - 1075);
            proof {
                lemma2_to64();
                if e < 1086 {
                    lemma_pow2_strictly_increases((e - 1075) as nat, 11);
                }
                assert(significand * unit < 0x1_0000_0000_0000_0000) by (nonlinear_arith)
                    requires
                        significand < 0x20_0000_0000_0000,
                        unit <= 2048,
                ;
            }
            Some(significand * unit)
        }
    }

    /// Whether the number counts as true: its magnitude is at least 1e-10.
    pub fn is_truthy(self) -> (r: bool)
        ensures
            r == self.truthy(),
    {
        let magnitude = self.abs().bits;
        EPSILON_BITS <= magnitude && magnitude <= INFINITY_BITS
    }
}

/// Two lists are equal as lists of numbers: same length, and equal place by place.
pub open spec fn lists_equal(a: Seq<Float64>, b: Seq<Float64>) -> bool {
    a.len() == b.len() && forall|i: int| 0 <= i < a.len() ==> (#[trigger] a[i]).equals(b[i])
}

/// Compares two lists of numbers place by place.
pub fn same_list(a: &Vec<Float64>, b: &Vec<Float64>) -> (r: bool)
    ensures
        r == lists_equal(a@, b@),
{
    if a.len() != b.len() {
        return false;
    }
    let mut i: usize = 0;
    while i < a.len()
        invariant
            i <= a.len(),
            a.len() == b.len(),
            forall|j: int| 0 <= j < i ==> (#[trigger] a@[j]).equals(b@[j]),
        decreases a.len() - i,
    {
        if !a[i].same(b[i]) {
            return false;
        }
        i += 1;
    }
    true
}

impl Float32 {
    /// The sign bit is set.
    pub open spec fn negative(self) -> bool {
        self.bits >= SIGN_BIT_32
    }

    /// The pattern without its sign bit.
    pub open spec fn magnitude(self) -> u32 {
        if self.bits >= SIGN_BIT_32 {
            (self.bits - SIGN_BIT_32) as u32
        } else {
            self.bits
        }
    }

    /// Not a number.
    pub open spec fn nan(self) -> bool {
        self.magnitude() > INFINITY_BITS_32
    }

    /// The biased exponent field.
    pub open spec fn exponent_field(self) -> int {
        self.magnitude() as int / FRACTION_UNIT_32 as int
    }

    /// The fraction field.
    pub open spec fn fraction(self) -> int {
        self.magnitude() as int % FRACTION_UNIT_32 as int
    }

    /// The exact value of a finite number, in units of `2^-149`.
    pub open spec fn scaled(self) -> int {
        let e = self.exponent_field();
        let m = if e == 0 {
            self.fraction()
        } else {
            (FRACTION_UNIT_32 + self.fraction()) * pow2((e - 1) as nat)
        };
        if self.negative() {
            -m
        } else {
            m
        }
    }

    /// The magnitude of the binary64 with the same value; a NaN gives the quiet NaN.
    pub open spec fn widened_magnitude(self) -> int {
        let e = self.exponent_field();
        let f = self.fraction();
        if self.magnitude() > INFINITY_BITS_32 {
            NAN_BITS as int
        } else if self.magnitude() == INFINITY_BITS_32 {
            INFINITY_BITS as int
        } else if e == 0 {
            if f == 0 {
                0
            } else {
                let k = bit_length(f as nat);
                (873 + k) * FRACTION_UNIT + (f * pow2((53 - k) as nat) - FRACTION_UNIT)
            }
        } else {
            (e + 896) * FRACTION_UNIT + f * 0x2000_0000
        }
    }

    /// The binary64 with the same sign and value.
    pub open spec fn widened(self) -> Float64 {
        if self.negative() {
            Float64 { bits: (self.widened_magnitude() + SIGN_BIT) as u64 }
        } else {
            Float64 { bits: self.widened_magnitude() as u64 }
        }
    }

    /// A magnitude of at least the binary32 nearest to 1e-10.
    pub open spec fn truthy(self) -> bool {
        EPSILON_BITS_32 <= self.magnitude() <= INFINITY_BITS_32
    }

    pub fn from_bits(bits: u32) -> (r: Float32)
        ensures
            r.bits == bits,
    {
        Float32 { bits }
    }

    pub(crate) fn magnitude_bits(self) -> (r: u32)
        ensures
            r == self.magnitude(),
    {
        if self.bits >= SIGN_BIT_32 {
            self.bits - SIGN_BIT_32
        } else {
            self.bits
        }
    }

    /// The same number as a binary64.
    pub fn widen(self) -> (r: Float64)
        ensures
            r == self.widened(),
            r.nan() == self.nan(),
            r.negative() == self.negative(),
    {
        let magnitude = self.magnitude_bits();
        let e = (magnitude / FRACTION_UNIT_32) as u64;
        let f = (magnitude % FRACTION_UNIT_32) as u64;
        let wide: u64 = if magnitude > INFINITY_BITS_32 {
            NAN_BITS
        } else if magnitude == INFINITY_BITS_32 {
            INFINITY_BITS
        } else if e == 0 {
            if f == 0 {
                0
            } else {
                let k = binary_digits(f);
                proof {
                    lemma_bit_length_bounds(f as nat);
                    lemma2_to64();
                    if k > 23 {
                        lemma_pow2_strictly_increases(23, (k - 1) as nat);
                    }
                }
                let scale = power_of_two(53 - k);
                proof {
                    lemma_pow2_pos((53 - k) as nat);
                    lemma_pow2_adds((k - 1) as nat, (53 - k) as nat);
                    lemma_pow2_adds(k as nat, (53 - k) as nat);
                    lemma_mul_inequality(pow2((k - 1) as nat) as int, f as int, scale as int);
                    lemma_mul_strict_inequality(f as int, pow2(k as nat) as int, scale as int);
                    lemma2_to64_rest();
                }
                (873 + k) * FRACTION_UNIT + (f * scale - FRACTION_UNIT)
            }
        } else {
            (e + 896) * FRACTION_UNIT + f * 0x2000_0000
        };
        if self.bits >= SIGN_BIT_32 {
            Float64 { bits: wide + SIGN_BIT }
        } else {
            Float64 { bits: wide }
        }
    }

    /// Whether the number counts as true.
    pub fn is_truthy(self) -> (r: bool)
        ensures
            r == self.truthy(),
    {
        let magnitude = self.magnitude_bits();
        EPSILON_BITS_32 <= magnitude && magnitude <= INFINITY_BITS_32
    }
}

/// A number with `k` binary digits lies between `2^(k-1)` and `2^k`.
pub proof fn lemma_bit_length_bounds(n: nat)
    requires
        n > 0,
    ensures
        bit_length(n) >= 1,
        pow2((bit_length(n) - 1) as nat) <= n < pow2(bit_length(n)),
    decreases n,
{
    if n == 1 {
        assert(bit_length(1) == 1 + bit_length(0));
        lemma2_to64();
    } else {
        lemma_bit_length_bounds(n / 2);
        let k = bit_length(n / 2);
        lemma_pow2_unfold(k);
        lemma_pow2_unfold(k + 1);
    }
}

/// A pattern made of an exponent field and a fraction reads back as both.
pub proof fn lemma_fields(field: int, fraction: int)
    requires
        0 <= field < 2047,
        0 <= fraction < FRACTION_UNIT,
    ensures
        ({
            let x = Float64 { bits: (field * FRACTION_UNIT + fraction) as u64 };
            &&& x.finite()
            &&& !x.negative()
            &&& x.magnitude() == field * FRACTION_UNIT + fraction
            &&& x.exponent_field() == field
            &&& x.fraction() == fraction
        }),
{
    let bits = field * FRACTION_UNIT + fraction;
    assert(0 <= bits < INFINITY_BITS) by (nonlinear_arith)
        requires
            bits == field * FRACTION_UNIT + fraction,
            0 <= field < 2047,
            0 <= fraction < FRACTION_UNIT,
            FRACTION_UNIT == 0x10_0000_0000_0000,
            INFINITY_BITS == 0x7FF0_0000_0000_0000,
    ;
    lemma_fundamental_div_mod_converse(bits, FRACTION_UNIT as int, field, fraction);
}

/// The integer part of a number that can be read as unsigned is the whole
/// part of its value: digits after the point are cut off, nothing is
/// rounded and nothing is clamped.
pub proof fn lemma_truncated_is_the_whole_part(x: Float64)
    requires
        x.fits_unsigned(),
    ensures
        x.truncated() == x.scaled() / pow2(1074) as int,
        0 <= x.truncated() <= u64::MAX,
{
    lemma2_to64();
    lemma2_to64_rest();
    let e = x.exponent_field();
    let m = x.significand();
    lemma_fundamental_div_mod(x.magnitude() as int, FRACTION_UNIT as int);
    assert(0 <= m < 2 * FRACTION_UNIT);
    assert(0 <= e <= 1086);
    if x.zero() {
        lemma_mul_basics(pow2(0) as int);
        lemma_pow2_pos(1074);
        lemma_div_basics(pow2(1074) as int);
    } else if e < 1023 {
        let power: nat = if e == 0 {
            0
        } else {
            (e - 1) as nat
        };
        lemma_pow2_pos(power);
        lemma_pow2_adds(53, 1021);
        if power < 1021 {
            lemma_pow2_strictly_increases(power, 1021);
        }
        assert(m * pow2(power) < pow2(1074)) by (nonlinear_arith)
            requires
                0 <= m < pow2(53),
                0 < pow2(power) <= pow2(1021),
                pow2(53) * pow2(1021) == pow2(1074),
        ;
        assert(m * pow2(power) >= 0) by (nonlinear_arith)
            requires
                m >= 0,
                pow2(power) > 0,
        ;
        lemma_basic_div(m * pow2(power), pow2(1074) as int);
    } else if e <= 1075 {
        let low = pow2((e - 1) as nat);
        let high = pow2((1075 - e) as nat);
        lemma_pow2_pos((e - 1) as nat);
        lemma_pow2_pos((1075 - e) as nat);
        lemma_pow2_adds((e - 1) as nat, (1075 - e) as nat);
        lemma_div_multiples_vanish_quotient(low as int, m, high as int);
        assert(m * low == low * m) by (nonlinear_arith);
        lemma_pow2_strictly_increases(53, 64);
        lemma_div_nonincreasing(m, high as int);
        lemma_div_pos_is_pos(m, high as int);
    } else {
        let up = pow2((e - 1075) as nat);
        lemma_pow2_pos(1074);
        lemma_pow2_adds((e - 1075) as nat, 1074);
        assert(m * pow2((e - 1) as nat) == (m * up) * pow2(1074)) by (nonlinear_arith)
            requires
                up * pow2(1074) == pow2((e - 1) as nat),
        ;
        lemma_div_by_multiple(m * up, pow2(1074) as int);
        if e < 1086 {
            lemma_pow2_strictly_increases((e - 1075) as nat, 11);
        }
        assert(0 <= m * up < 0x1_0000_0000_0000_0000) by (nonlinear_arith)
            requires
                0 <= m < 0x20_0000_0000_0000,
                0 < up <= 2048,
        ;
    }
}

/// Among finite numbers the order of the patterns is the order of the
/// values.
pub proof fn lemma_order_is_by_value(a: Float64, b: Float64)
    requires
        a.finite(),
        b.finite(),
    ensures
        a.ordinal() <= b.ordinal() <==> a.scaled() <= b.scaled(),
        a.at_least(b) <==> a.scaled() >= b.scaled(),
        a.equals(b) <==> a.scaled() == b.scaled(),
{
    lemma_magnitude_order(a.abs_value(), b.abs_value());
    lemma_magnitude_order(b.abs_value(), a.abs_value());
    lemma_magnitude_order(a.abs_value(), Float64 { bits: 0 });
    lemma_magnitude_order(b.abs_value(), Float64 { bits: 0 });
    lemma_magnitude_order(Float64 { bits: 0 }, a.abs_value());
    lemma_magnitude_order(Float64 { bits: 0 }, b.abs_value());
    assert(a.abs_value().significand() == a.significand());
    assert(a.abs_value().exponent_field() == a.exponent_field());
    assert(b.abs_value().significand() == b.significand());
    assert(b.abs_value().exponent_field() == b.exponent_field());
    let zero = Float64 { bits: 0 };
    assert(zero.significand() == 0);
    lemma_mul_basics(pow2(0) as int);
}

/// Among finite numbers without sign, the smaller pattern is the smaller value.
proof fn lemma_magnitude_order(a: Float64, b: Float64)
    requires
        a.finite() && !a.negative(),
        b.finite() && !b.negative(),
    ensures
        a.bits <= b.bits ==> a.scaled() <= b.scaled(),
        a.bits < b.bits ==> a.scaled() < b.scaled(),
        a.scaled() >= 0,
{
    let ea = a.exponent_field();
    let eb = b.exponent_field();
    let ma = a.significand();
    let mb = b.significand();
    lemma_fundamental_div_mod(a.bits as int, FRACTION_UNIT as int);
    lemma_fundamental_div_mod(b.bits as int, FRACTION_UNIT as int);
    let pa: nat = if ea == 0 {
        0
    } else {
        (ea - 1) as nat
    };
    let pb: nat = if eb == 0 {
        0
    } else {
        (eb - 1) as nat
    };
    lemma_pow2_pos(pa);
    lemma_pow2_pos(pb);
    assert(ma * pow2(pa) >= 0) by (nonlinear_arith)
        requires
            ma >= 0,
            pow2(pa) > 0,
    ;
    if a.bits < b.bits {
        assert(ea <= eb) by (nonlinear_arith)
            requires
                a.bits == FRACTION_UNIT * ea + a.fraction(),
                b.bits == FRACTION_UNIT * eb + b.fraction(),
                0 <= a.fraction() < FRACTION_UNIT,
                0 <= b.fraction() < FRACTION_UNIT,
                a.bits < b.bits,
        ;
        if pa == pb {
            assert(ma < mb);
            assert(ma * pow2(pa) < mb * pow2(pa)) by (nonlinear_arith)
                requires
                    ma < mb,
                    pow2(pa) > 0,
            ;
        } else {
            assert(pa < pb);
            lemma_pow2_unfold((pa + 1) as nat);
            if pa + 1 < pb {
                lemma_pow2_strictly_increases((pa + 1) as nat, pb);
            }
            assert(ma * pow2(pa) < mb * pow2(pb)) by (nonlinear_arith)
                requires
                    0 <= ma < 2 * FRACTION_UNIT,
                    mb >= FRACTION_UNIT,
                    pow2(pb) >= 2 * pow2(pa),
                    pow2(pa) > 0,
            ;
        }
    }
}

/// A finite binary32 widens to the binary64 with its sign and its value:
/// the wider format holds every narrower number, so nothing is lost.
pub proof fn lemma_widened_exact(x: Float32)
    requires
        x.magnitude() < INFINITY_BITS_32,
    ensures
        x.widened().finite(),
        x.widened().negative() == x.negative(),
        x.widened().scaled() == x.scaled() * pow2(925),
{
    lemma2_to64();
    lemma2_to64_rest();
    let e = x.exponent_field();
    let f = x.fraction();
    lemma_fundamental_div_mod(x.magnitude() as int, FRACTION_UNIT_32 as int);
    assert(0 <= f < FRACTION_UNIT_32);
    assert(0 <= e < 255);
    let wide = x.widened_magnitude();
    let w = Float64 { bits: wide as u64 };
    if e == 0 && f == 0 {
        assert(w.significand() == 0);
        lemma_mul_basics(pow2(0) as int);
        lemma_mul_basics(pow2(925) as int);
        assert(w.scaled() == 0);
    } else if e == 0 {
        let k = bit_length(f as nat);
        lemma_bit_length_bounds(f as nat);
        if k > 23 {
            lemma_pow2_strictly_increases(23, k);
            if k > 24 {
                lemma_pow2_strictly_increases(23, (k - 1) as nat);
            }
        }
        assert(1 <= k <= 23);
        let scale = pow2((53 - k) as nat);
        lemma_pow2_pos((53 - k) as nat);
        lemma_pow2_adds((k - 1) as nat, (53 - k) as nat);
        lemma_pow2_adds(k, (53 - k) as nat);
        lemma_mul_inequality(pow2((k - 1) as nat) as int, f, scale as int);
        lemma_mul_strict_inequality(f, pow2(k) as int, scale as int);
        lemma_fields((873 + k) as int, f * scale - FRACTION_UNIT);
        assert(w.significand() == f * scale);
        lemma_pow2_adds((53 - k) as nat, (872 + k) as nat);
        assert((f * scale) * pow2((872 + k) as nat) == f * pow2(925)) by (nonlinear_arith)
            requires
                scale * pow2((872 + k) as nat) == pow2(925),
        ;
    } else {
        assert(f * 0x2000_0000 < FRACTION_UNIT) by (nonlinear_arith)
            requires
                0 <= f < 0x80_0000,
                FRACTION_UNIT == 0x10_0000_0000_0000,
        ;
        lemma_fields(e + 896, f * 0x2000_0000);
        assert(w.significand() == (FRACTION_UNIT_32 + f) * pow2(29)) by (nonlinear_arith)
            requires
                w.significand() == FRACTION_UNIT + f * 0x2000_0000,
                pow2(29) == 0x2000_0000,
                FRACTION_UNIT == 0x10_0000_0000_0000,
                FRACTION_UNIT_32 == 0x80_0000,
        ;
        lemma_pow2_adds(29, (e + 895) as nat);
        lemma_pow2_adds((e - 1) as nat, 925);
        assert(((FRACTION_UNIT_32 + f) * pow2(29)) * pow2((e + 895) as nat) == ((FRACTION_UNIT_32
            + f) * pow2((e - 1) as nat)) * pow2(925)) by (nonlinear_arith)
            requires
                pow2(29) * pow2((e + 895) as nat) == pow2((e - 1) as nat) * pow2(925),
        ;
    }
    if x.negative() {
        let signed = x.widened();
        assert(wide < SIGN_BIT);
        assert(signed.bits == wide + SIGN_BIT);
        assert(signed.magnitude() == w.magnitude());
        assert(signed.scaled() == -w.scaled());
        assert(-(x.scaled()) * pow2(925) == -(x.scaled() * pow2(925))) by (nonlinear_arith);
    }
}

} // verus!
