//! The decimal numeral of a binary floating point number: the shortest one
//! that reads back as the number, written without an exponent.
//!
//! The digits come from the free-format algorithm of Steele and White, in
//! the form of Burger and Dybvig: the number and the two halfway points to
//! its neighbours are held as exact fractions over a common denominator,
//! and digits are produced until what is written lies between the halfway
//! points. Where the halfway points themselves read back as the number,
//! which they do for an even significand, they count as lying between.

use crate::arith::{
    lemma_pow2_below_ten_to, lemma_ten_to_adds, lemma_ten_to_grows, lemma_ten_to_positive, ten_to,
};
use crate::float::{
    lemma_fields, Float32, Float64, FRACTION_UNIT, FRACTION_UNIT_32, INFINITY_BITS_32, SIGN_BIT_32,
};
use crate::natural::Natural;
use crate::text::{digit_char, digit_str};
use vstd::arithmetic::power2::*;
use vstd::prelude::*;
use vstd::string::*;

verus! {

/// How often the denominator, or the number, is scaled by ten at most.
pub const SCALE_STEPS: u32 = 1200;

/// How many digits are produced at most.
pub const DIGIT_STEPS: u32 = 40;

/// The upper halfway point `(r + plus) / s` reaches one.
pub open spec fn reaches(r: nat, s: nat, plus: nat, inclusive: bool) -> bool {
    if inclusive {
        r + plus >= s
    } else {
        r + plus > s
    }
}

/// The denominator and the exponent after the denominator has been made
/// ten times larger as often as the upper halfway point reached one.
pub open spec fn scaled_up(r: nat, s: nat, plus: nat, inclusive: bool, k: int, fuel: nat) -> (
    nat,
    int,
)
    decreases fuel,
{
    if fuel == 0 || !reaches(r, s, plus, inclusive) {
        (s, k)
    } else {
        scaled_up(r, 10 * s, plus, inclusive, k + 1, (fuel - 1) as nat)
    }
}

/// The number, its two margins and the exponent after they have been made
/// ten times larger as often as the upper halfway point stayed below a tenth.
pub open spec fn scaled_down(
    r: nat,
    s: nat,
    minus: nat,
    plus: nat,
    inclusive: bool,
    k: int,
    fuel: nat,
) -> (nat, nat, nat, int)
    decreases fuel,
{
    if fuel == 0 || reaches(10 * r, s, 10 * plus, inclusive) {
        (r, minus, plus, k)
    } else {
        scaled_down(10 * r, s, 10 * minus, 10 * plus, inclusive, k - 1, (fuel - 1) as nat)
    }
}

/// How often `s` can be taken from `r`, up to `steps` times, and what is left.
pub open spec fn taken(r: nat, s: nat, steps: nat) -> (nat, nat)
    decreases steps,
{
    if steps == 0 || r < s {
        (0, r)
    } else {
        let (d, rest) = taken((r - s) as nat, s, (steps - 1) as nat);
        (d + 1, rest)
    }
}

/// The digits of `r / s`, after those in `acc`: digits are produced until
/// what is written lies between the two halfway points, and the last digit
/// is the one that brings it nearer to the number. The last digit may be a
/// ten, which stands for a carry.
pub open spec fn generated(
    acc: Seq<u8>,
    r: nat,
    s: nat,
    minus: nat,
    plus: nat,
    inclusive: bool,
    fuel: nat,
) -> Seq<u8>
    decreases fuel,
{
    let (d, rest) = taken(10 * r, s, 9);
    let down = if inclusive {
        rest <= 10 * minus
    } else {
        rest < 10 * minus
    };
    let up = reaches(rest, s, 10 * plus, inclusive);
    if fuel == 0 {
        acc
    } else if !down && !up {
        generated(acc.push(d as u8), rest, s, 10 * minus, 10 * plus, inclusive, (fuel - 1) as nat)
    } else if up && (!down || 2 * rest >= s) {
        acc.push((d + 1) as u8)
    } else {
        acc.push(d as u8)
    }
}

/// The digits with a ten at the end carried over to the digits before it.
/// Where the carry runs through all digits, there is one digit more.
pub open spec fn carried(digits: Seq<u8>) -> Seq<u8>
    decreases digits.len(),
{
    if digits.len() == 0 || digits.last() != 10 {
        digits
    } else if digits.len() == 1 {
        seq![1u8, 0u8]
    } else {
        let before = digits.drop_last();
        carried(before.update(before.len() - 1, (before.last() + 1) as u8)).push(0u8)
    }
}

/// The whole part of `2^exp`: what a numerator is multiplied by.
pub open spec fn raised(exp: int) -> nat {
    if exp >= 0 {
        pow2(exp as nat)
    } else {
        1
    }
}

/// The denominator of `2^exp`.
pub open spec fn lowered(exp: int) -> nat {
    if exp >= 0 {
        1
    } else {
        pow2((-exp) as nat)
    }
}

/// The shortest digits of `mant * 2^exp` that, read back, give a number
/// between `(mant - minus) * 2^exp` and `(mant + plus) * 2^exp`, with the
/// power of ten that the digits, read as a fraction below one, are to be
/// multiplied by.
pub open spec fn shortest_digits(mant: nat, minus: nat, plus: nat, exp: int, inclusive: bool) -> (
    Seq<u8>,
    int,
) {
    let up = raised(exp);
    let s0 = lowered(exp);
    let r0 = mant * up;
    let (s, k1) = scaled_up(r0, s0, plus * up, inclusive, 0, SCALE_STEPS as nat);
    let (r, m, p, k) = scaled_down(r0, s, minus * up, plus * up, inclusive, k1, SCALE_STEPS as nat);
    let digits = generated(Seq::empty(), r, s, m, p, inclusive, DIGIT_STEPS as nat);
    (carried(digits), k + carried(digits).len() - digits.len())
}

/// The digits as characters.
pub open spec fn digit_text(digits: Seq<u8>) -> Seq<char> {
    Seq::new(digits.len(), |i: int| digit_char(digits[i] as int))
}

/// So many zeros.
pub open spec fn zeros(n: nat) -> Seq<char> {
    Seq::new(n, |i: int| '0')
}

/// The numeral of the fraction `0.d1d2...` times ten to the power `k`,
/// written without an exponent: with a zero before the point where the
/// number is below one, with the point among the digits where it falls
/// there, and with zeros after the digits where the number is whole.
pub open spec fn laid_out(digits: Seq<u8>, k: int) -> Seq<char> {
    if k <= 0 {
        "0."@ + zeros((-k) as nat) + digit_text(digits)
    } else if k < digits.len() {
        digit_text(digits.take(k)) + "."@ + digit_text(digits.skip(k))
    } else {
        digit_text(digits) + zeros((k - digits.len()) as nat)
    }
}

/// The sign of a numeral.
pub open spec fn sign_text(negative: bool) -> Seq<char> {
    if negative {
        "-"@
    } else {
        Seq::empty()
    }
}

/// A number with its margins: the number is `mant * 2^exp`, and half the
/// way to its neighbours is `minus * 2^exp` below it and `plus * 2^exp`
/// above it. Where `inclusive` holds, the halfway points read back as the
/// number too.
pub struct Margins {
    pub mant: nat,
    pub minus: nat,
    pub plus: nat,
    pub exp: int,
    pub inclusive: bool,
}

impl Margins {
    /// The shortest digits that read back between the margins, and their
    /// power of ten.
    pub open spec fn digits(self) -> (Seq<u8>, int) {
        shortest_digits(self.mant, self.minus, self.plus, self.exp, self.inclusive)
    }
}

impl Float64 {
    /// A finite number that is not zero, with its margins. The halfway
    /// points count for an even significand, as rounding to nearest breaks
    /// ties to the even one. Where the significand is a power of two, the
    /// neighbour below is half as far away as the one above.
    pub open spec fn margins(self) -> Margins {
        let m = self.significand() as nat;
        if self.exponent_field() != 0 && self.fraction() == 0 {
            Margins { mant: 4 * m, minus: 1, plus: 2, exp: self.unit_exponent() - 2, inclusive: true }
        } else {
            Margins {
                mant: 2 * m,
                minus: 1,
                plus: 1,
                exp: self.unit_exponent() - 1,
                inclusive: m % 2 == 0,
            }
        }
    }

    /// The digits of a finite number that is not zero, and their power of ten.
    pub open spec fn digits(self) -> (Seq<u8>, int) {
        self.margins().digits()
    }

    /// The numeral of the number: `NaN`, `inf` and `-inf` for what is no
    /// finite number, `0` and `-0` for the zeros, and else the shortest
    /// digits that read back as the number.
    pub open spec fn numeral(self) -> Seq<char> {
        if self.nan() {
            "NaN"@
        } else if !self.finite() {
            sign_text(self.negative()) + "inf"@
        } else if self.zero() {
            sign_text(self.negative()) + "0"@
        } else {
            sign_text(self.negative()) + laid_out(self.digits().0, self.digits().1)
        }
    }
}

impl Float32 {
    /// The significand, with the hidden bit of a normal number.
    pub open spec fn significand(self) -> int {
        if self.exponent_field() == 0 {
            self.fraction()
        } else {
            FRACTION_UNIT_32 + self.fraction()
        }
    }

    /// The power of two that the significand of a finite number counts.
    pub open spec fn unit_exponent(self) -> int {
        if self.exponent_field() == 0 {
            -149
        } else {
            self.exponent_field() - 150
        }
    }

    /// A finite number that is not zero, with its margins, as for a binary64.
    pub open spec fn margins(self) -> Margins {
        let m = self.significand() as nat;
        if self.exponent_field() != 0 && self.fraction() == 0 {
            Margins { mant: 4 * m, minus: 1, plus: 2, exp: self.unit_exponent() - 2, inclusive: true }
        } else {
            Margins {
                mant: 2 * m,
                minus: 1,
                plus: 1,
                exp: self.unit_exponent() - 1,
                inclusive: m % 2 == 0,
            }
        }
    }

    /// The digits of a finite number that is not zero, and their power of ten.
    pub open spec fn digits(self) -> (Seq<u8>, int) {
        self.margins().digits()
    }

    /// The numeral of the number, as for a binary64.
    pub open spec fn numeral(self) -> Seq<char> {
        if self.nan() {
            "NaN"@
        } else if self.magnitude() == INFINITY_BITS_32 {
            sign_text(self.negative()) + "inf"@
        } else if self.magnitude() == 0 {
            sign_text(self.negative()) + "0"@
        } else {
            sign_text(self.negative()) + laid_out(self.digits().0, self.digits().1)
        }
    }
}

/// While the number is below ten times the denominator, taking the
/// denominator away as often as it goes gives quotient and remainder: the
/// quotient is a digit.
pub proof fn lemma_taken_divides(r: nat, s: nat, steps: nat)
    requires
        s > 0,
        r < steps * s + s,
    ensures
        taken(r, s, steps).0 == r / s,
        taken(r, s, steps).1 == r % s,
    decreases steps,
{
    if r < s {
        vstd::arithmetic::div_mod::lemma_small_mod(r, s);
        vstd::arithmetic::div_mod::lemma_basic_div(r as int, s as int);
    } else {
        assert(steps > 0) by (nonlinear_arith)
            requires
                r >= s,
                r < steps * s + s,
                s > 0,
        ;
        assert(r - s < (steps - 1) * s + s) by (nonlinear_arith)
            requires
                r < steps * s + s,
                steps > 0,
        ;
        lemma_taken_divides((r - s) as nat, s, (steps - 1) as nat);
        vstd::arithmetic::div_mod::lemma_fundamental_div_mod((r - s) as int, s as int);
        let q = (r - s) as int / s as int;
        let rest = (r - s) as int % s as int;
        assert(r == (q + 1) * s + rest) by (nonlinear_arith)
            requires
                r - s == s * q + rest,
        ;
        vstd::arithmetic::div_mod::lemma_fundamental_div_mod_converse(
            r as int,
            s as int,
            q + 1,
            rest,
        );
    }
}

/// The whole number that the digits write.
pub open spec fn number_of(digits: Seq<u8>) -> nat
    decreases digits.len(),
{
    if digits.len() == 0 {
        0
    } else {
        10 * number_of(digits.drop_last()) + digits.last() as nat
    }
}

/// Writing digits comes to an end before the steps run out.
pub open spec fn generation_stops(
    r: nat,
    s: nat,
    minus: nat,
    plus: nat,
    inclusive: bool,
    fuel: nat,
) -> bool
    decreases fuel,
{
    let (d, rest) = taken(10 * r, s, 9);
    let down = if inclusive {
        rest <= 10 * minus
    } else {
        rest < 10 * minus
    };
    let up = reaches(rest, s, 10 * plus, inclusive);
    if fuel == 0 {
        false
    } else if !down && !up {
        generation_stops(rest, s, 10 * minus, 10 * plus, inclusive, (fuel - 1) as nat)
    } else {
        true
    }
}

/// `low <= x <= high`, and `low < x < high` where the ends do not count.
pub open spec fn lies_between(low: int, x: int, high: int, inclusive: bool) -> bool {
    if inclusive {
        low <= x <= high
    } else {
        low < x < high
    }
}

/// What is written lies between the halfway points.
///
/// Digits are written of `R / s`, a number below one with the margins `M / s`
/// below it and `P / s` above it. The digits written so far, `acc`, leave
/// `r / s` of the number unwritten, counted in units of their last place.
/// When writing has come to an end, the digits read, as a whole number `N`
/// of `j` digits, so that `N / 10^j` is at least `(R - M) / s` and at
/// most `(R + P) / s`, and strictly between the two where they do not
/// count as lying between.
pub proof fn lemma_generated_between(
    acc: Seq<u8>,
    r: nat,
    s: nat,
    minus: nat,
    plus: nat,
    inclusive: bool,
    fuel: nat,
    whole: nat,
    below: nat,
    above: nat,
)
    requires
        s > 0,
        r < s,
        number_of(acc) * s + r == whole * ten_to(acc.len()),
        minus == below * ten_to(acc.len()),
        plus == above * ten_to(acc.len()),
        above > 0,
        generation_stops(r, s, minus, plus, inclusive, fuel),
    ensures
        ({
            let digits = generated(acc, r, s, minus, plus, inclusive, fuel);
            lies_between(
                (whole - below) * ten_to(digits.len()),
                (number_of(digits) * s) as int,
                ((whole + above) * ten_to(digits.len())) as int,
                inclusive,
            )
        }),
    decreases fuel,
{
    let (d, rest) = taken(10 * r, s, 9);
    assert(10 * r < 9 * s + s);
    lemma_taken_divides(10 * r, s, 9);
    vstd::arithmetic::div_mod::lemma_fundamental_div_mod((10 * r) as int, s as int);
    assert(10 * r == s * d + rest);
    assert(rest < s);
    let n = acc.len();
    let scale = ten_to(n);
    let next = ten_to(n + 1);
    assert(next == 10 * scale);
    lemma_ten_to_positive(n + 1);
    let down = if inclusive {
        rest <= 10 * minus
    } else {
        rest < 10 * minus
    };
    let up = reaches(rest, s, 10 * plus, inclusive);
    // After one more digit `d`, what is written and what is left make up the number.
    let more = acc.push(d as u8);
    assert(more.drop_last() =~= acc);
    assert(d <= 9) by {
        lemma_taken_at_most(10 * r, s, 9);
    }
    assert(number_of(more) == 10 * number_of(acc) + d);
    assert(number_of(more) * s + rest == whole * next) by (nonlinear_arith)
        requires
            number_of(more) == 10 * number_of(acc) + d,
            number_of(acc) * s + r == whole * scale,
            10 * r == s * d + rest,
            next == 10 * scale,
    ;
    assert(10 * minus == below * next) by (nonlinear_arith)
        requires
            minus == below * scale,
            next == 10 * scale,
    ;
    assert(10 * plus == above * next) by (nonlinear_arith)
        requires
            plus == above * scale,
            next == 10 * scale,
    ;
    if !down && !up {
        lemma_generated_between(
            more,
            rest,
            s,
            10 * minus,
            10 * plus,
            inclusive,
            (fuel - 1) as nat,
            whole,
            below,
            above,
        );
    } else {
        let last = acc.push((d + 1) as u8);
        assert(last.drop_last() =~= acc);
        assert(number_of(last) == 10 * number_of(acc) + d + 1);
        assert(number_of(last) * s == number_of(more) * s + s) by (nonlinear_arith)
            requires
                number_of(last) == number_of(more) + 1,
        ;
        assert((whole - below) * next == whole * next - below * next) by (nonlinear_arith);
        assert((whole + above) * next == whole * next + above * next) by (nonlinear_arith);
        assert(above * next > 0) by (nonlinear_arith)
            requires
                above > 0,
                next > 0,
        ;
        let digits = generated(acc, r, s, minus, plus, inclusive, fuel);
        if up && (!down || 2 * rest >= s) {
            assert(digits == last);
        } else {
            assert(digits == more);
            assert(down);
        }
        assert(digits.len() == n + 1);
    }
}

/// What scaling the denominator up comes to: the denominator has grown by
/// a power of ten, which the exponent counts. Where steps are left, the
/// upper halfway point is below one; where a step was taken, it is a tenth
/// at least. And where the upper halfway point is below `10^n` to begin
/// with, no more than `n` steps are taken.
pub proof fn lemma_scaled_up(r: nat, s: nat, plus: nat, inclusive: bool, k: int, fuel: nat, n: nat)
    requires
        s > 0,
        r + plus < s * ten_to(n),
    ensures
        ({
            let (s2, k2) = scaled_up(r, s, plus, inclusive, k, fuel);
            &&& k <= k2 <= k + fuel
            &&& k2 <= k + n
            &&& s2 == s * ten_to((k2 - k) as nat)
            &&& k2 - k < fuel ==> !reaches(r, s2, plus, inclusive)
            &&& k2 > k ==> 10 * (r + plus) >= s2
        }),
    decreases fuel,
{
    assert(s * ten_to(0) == s) by (nonlinear_arith)
        requires
            ten_to(0) == 1,
    ;
    if fuel > 0 && reaches(r, s, plus, inclusive) {
        assert(n > 0);
        assert((10 * s) * ten_to((n - 1) as nat) == s * ten_to(n)) by (nonlinear_arith)
            requires
                ten_to(n) == 10 * ten_to((n - 1) as nat),
        ;
        lemma_scaled_up(r, 10 * s, plus, inclusive, k + 1, (fuel - 1) as nat, (n - 1) as nat);
        let (s2, k2) = scaled_up(r, 10 * s, plus, inclusive, k + 1, (fuel - 1) as nat);
        let steps = (k2 - k - 1) as nat;
        assert(ten_to(steps + 1) == 10 * ten_to(steps));
        assert((10 * s) * ten_to(steps) == s * ten_to(steps + 1)) by (nonlinear_arith)
            requires
                ten_to(steps + 1) == 10 * ten_to(steps),
        ;
        assert((k2 - k) as nat == steps + 1);
        if k2 == k + 1 {
            assert(s2 == 10 * s) by (nonlinear_arith)
                requires
                    s2 == (10 * s) * ten_to(0),
                    ten_to(0) == 1,
            ;
        }
    }
}

/// What scaling the number up comes to: the number and its margins have
/// grown by a power of ten, which the exponent counts down. The upper
/// halfway point stays below one; where steps are left, it is a tenth at
/// least. And where the denominator is less than `10^(n + 1)` times the
/// upper halfway point to begin with, no more than `n` steps are taken.
pub proof fn lemma_scaled_down(
    r: nat,
    s: nat,
    minus: nat,
    plus: nat,
    inclusive: bool,
    k: int,
    fuel: nat,
    n: nat,
)
    requires
        !reaches(r, s, plus, inclusive),
        s < (r + plus) * ten_to(n + 1),
    ensures
        ({
            let (r2, m2, p2, k2) = scaled_down(r, s, minus, plus, inclusive, k, fuel);
            let a = (k - k2) as nat;
            &&& k - fuel <= k2 <= k
            &&& k - n <= k2
            &&& r2 == r * ten_to(a)
            &&& m2 == minus * ten_to(a)
            &&& p2 == plus * ten_to(a)
            &&& !reaches(r2, s, p2, inclusive)
            &&& k - k2 < fuel ==> reaches(10 * r2, s, 10 * p2, inclusive)
        }),
    decreases fuel,
{
    assert(r * ten_to(0) == r && minus * ten_to(0) == minus && plus * ten_to(0) == plus)
        by (nonlinear_arith)
        requires
            ten_to(0) == 1,
    ;
    if fuel > 0 && !reaches(10 * r, s, 10 * plus, inclusive) {
        assert(ten_to(n + 1) == 10 * ten_to(n));
        if n == 0 {
            assert(s < (r + plus) * 10);
        }
        assert(n > 0);
        assert((10 * r + 10 * plus) * ten_to(n) == (r + plus) * ten_to(n + 1)) by (nonlinear_arith)
            requires
                ten_to(n + 1) == 10 * ten_to(n),
        ;
        lemma_scaled_down(
            10 * r,
            s,
            10 * minus,
            10 * plus,
            inclusive,
            k - 1,
            (fuel - 1) as nat,
            (n - 1) as nat,
        );
        let (r2, m2, p2, k2) = scaled_down(
            10 * r,
            s,
            10 * minus,
            10 * plus,
            inclusive,
            k - 1,
            (fuel - 1) as nat,
        );
        let steps = (k - 1 - k2) as nat;
        assert(ten_to(steps + 1) == 10 * ten_to(steps));
        assert((10 * r) * ten_to(steps) == r * ten_to(steps + 1) && (10 * minus) * ten_to(steps)
            == minus * ten_to(steps + 1) && (10 * plus) * ten_to(steps) == plus * ten_to(steps + 1))
            by (nonlinear_arith)
            requires
                ten_to(steps + 1) == 10 * ten_to(steps),
        ;
    }
}

/// Writing digits comes to an end: where the denominator is no more than
/// `10^n` times the upper margin, within `n` digits and one.
pub proof fn lemma_generation_stops(
    r: nat,
    s: nat,
    minus: nat,
    plus: nat,
    inclusive: bool,
    fuel: nat,
    n: nat,
)
    requires
        s > 0,
        s <= plus * ten_to(n),
        fuel > n,
    ensures
        generation_stops(r, s, minus, plus, inclusive, fuel),
    decreases fuel,
{
    let (d, rest) = taken(10 * r, s, 9);
    let up = reaches(rest, s, 10 * plus, inclusive);
    if n == 0 {
        assert(s <= plus) by (nonlinear_arith)
            requires
                s <= plus * ten_to(0),
                ten_to(0) == 1,
        ;
        assert(up);
    } else {
        assert((10 * plus) * ten_to((n - 1) as nat) == plus * ten_to(n)) by (nonlinear_arith)
            requires
                ten_to(n) == 10 * ten_to((n - 1) as nat),
        ;
        lemma_generation_stops(
            rest,
            s,
            10 * minus,
            10 * plus,
            inclusive,
            (fuel - 1) as nat,
            (n - 1) as nat,
        );
    }
}

/// Carrying changes the digits, not the number they write.
pub proof fn lemma_carried_number(digits: Seq<u8>)
    requires
        forall|i: int| 0 <= i < digits.len() - 1 ==> digits[i] <= 9,
    ensures
        number_of(carried(digits)) == number_of(digits),
    decreases digits.len(),
{
    if digits.len() > 0 && digits.last() == 10 {
        if digits.len() == 1 {
            let two = seq![1u8, 0u8];
            assert(two.drop_last() =~= seq![1u8]);
            assert(seq![1u8].drop_last() =~= Seq::<u8>::empty());
            reveal_with_fuel(number_of, 3);
            assert(digits.drop_last() =~= Seq::<u8>::empty());
        } else {
            let before = digits.drop_last();
            let bumped = before.update(before.len() - 1, (before.last() + 1) as u8);
            assert(bumped.drop_last() =~= before.drop_last());
            assert(bumped.last() == before.last() + 1);
            assert(number_of(bumped) == number_of(before) + 1);
            assert(before.last() == digits[digits.len() - 2]);
            assert forall|i: int| 0 <= i < bumped.len() - 1 implies bumped[i] <= 9 by {
                assert(bumped[i] == digits[i]);
            }
            lemma_carried_number(bumped);
            let settled = carried(bumped).push(0u8);
            assert(settled.drop_last() =~= carried(bumped));
        }
    }
}

/// `n * 10^e` is at least `low / den` and at most `high / den`, and strictly
/// between the two where the ends do not count.
pub open spec fn reads_between(
    n: nat,
    e: int,
    low: int,
    high: int,
    den: nat,
    inclusive: bool,
) -> bool {
    if e >= 0 {
        lies_between(low, (n * ten_to(e as nat) * den) as int, high, inclusive)
    } else {
        lies_between(
            low * ten_to((-e) as nat),
            (n * den) as int,
            high * ten_to((-e) as nat),
            inclusive,
        )
    }
}

/// All digits but the last are nines at most: only the last can be a ten.
pub proof fn lemma_generated_digits(
    acc: Seq<u8>,
    r: nat,
    s: nat,
    minus: nat,
    plus: nat,
    inclusive: bool,
    fuel: nat,
)
    requires
        s > 0,
        r < s,
        forall|i: int| 0 <= i < acc.len() ==> acc[i] <= 9,
    ensures
        ({
            let digits = generated(acc, r, s, minus, plus, inclusive, fuel);
            &&& forall|i: int| 0 <= i < digits.len() - 1 ==> digits[i] <= 9
            &&& digits.len() > 0 ==> digits.last() <= 10
        }),
    decreases fuel,
{
    let (d, rest) = taken(10 * r, s, 9);
    assert(10 * r < 9 * s + s);
    lemma_taken_divides(10 * r, s, 9);
    lemma_taken_at_most(10 * r, s, 9);
    assert(rest < s) by {
        vstd::arithmetic::div_mod::lemma_mod_bound((10 * r) as int, s as int);
    }
    let down = if inclusive {
        rest <= 10 * minus
    } else {
        rest < 10 * minus
    };
    let up = reaches(rest, s, 10 * plus, inclusive);
    let more = acc.push(d as u8);
    let last = acc.push((d + 1) as u8);
    assert forall|i: int| 0 <= i < more.len() implies more[i] <= 9 by {
        if i < acc.len() {
            assert(more[i] == acc[i]);
        }
    }
    assert forall|i: int| 0 <= i < last.len() - 1 implies last[i] <= 9 by {
        assert(last[i] == acc[i]);
    }
    if fuel > 0 && !down && !up {
        lemma_generated_digits(more, rest, s, 10 * minus, 10 * plus, inclusive, (fuel - 1) as nat);
    }
}

/// After carrying, every digit is a nine at most.
proof fn lemma_carried_digits(digits: Seq<u8>)
    requires
        forall|i: int| 0 <= i < digits.len() - 1 ==> digits[i] <= 9,
        digits.len() > 0 ==> digits.last() <= 10,
    ensures
        forall|i: int| 0 <= i < carried(digits).len() ==> carried(digits)[i] <= 9,
    decreases digits.len(),
{
    if digits.len() > 1 && digits.last() == 10 {
        let before = digits.drop_last();
        let bumped = before.update(before.len() - 1, (before.last() + 1) as u8);
        assert(before.last() == digits[digits.len() - 2]);
        assert forall|i: int| 0 <= i < bumped.len() - 1 implies bumped[i] <= 9 by {
            assert(bumped[i] == digits[i]);
        }
        lemma_carried_digits(bumped);
        let settled = carried(bumped).push(0u8);
        assert forall|i: int| 0 <= i < settled.len() implies settled[i] <= 9 by {
            if i < carried(bumped).len() {
                assert(settled[i] == carried(bumped)[i]);
            }
        }
    } else if digits.len() == 1 && digits.last() == 10 {
        assert(carried(digits) == seq![1u8, 0u8]);
    } else {
        assert forall|i: int| 0 <= i < digits.len() implies digits[i] <= 9 by {
            if i == digits.len() - 1 {
                assert(digits[i] == digits.last());
            }
        }
    }
}

/// What lies between two numbers after all three were multiplied by the
/// same positive number, lay between them before.
proof fn lemma_cancels(low: int, x: int, high: int, by_what: nat, inclusive: bool)
    requires
        by_what > 0,
        lies_between(low * by_what, x * by_what, high * by_what, inclusive),
    ensures
        lies_between(low, x, high, inclusive),
{
    assert(low * by_what <= x * by_what ==> low <= x) by (nonlinear_arith)
        requires
            by_what > 0,
    ;
    assert(x * by_what <= high * by_what ==> x <= high) by (nonlinear_arith)
        requires
            by_what > 0,
    ;
    assert(low * by_what < x * by_what ==> low < x) by (nonlinear_arith)
        requires
            by_what > 0,
    ;
    assert(x * by_what < high * by_what ==> x < high) by (nonlinear_arith)
        requires
            by_what > 0,
    ;
}

/// The denominator is scaled within the steps that are allowed, for a
/// number of 64 bits at most and an exponent as a binary64 has it.
proof fn lemma_denominator_settles(mant: nat, plus: nat, exp: int, inclusive: bool)
    requires
        plus > 0,
        mant + plus < 0x1_0000_0000_0000_0000,
        -1100 <= exp <= 1000,
    ensures
        ({
            let up = raised(exp);
            let s0 = lowered(exp);
            let (s, k1) = scaled_up(mant * up, s0, plus * up, inclusive, 0, SCALE_STEPS as nat);
            &&& up > 0
            &&& s0 > 0
            &&& 0 <= k1 < SCALE_STEPS
            &&& s > 0
            &&& s == s0 * ten_to(k1 as nat)
            &&& !reaches(mant * up, s, plus * up, inclusive)
            &&& s < (mant * up + plus * up) * ten_to(1102)
        }),
{
    let up = raised(exp);
    let s0 = lowered(exp);
    let r0 = mant * up;
    let p0 = plus * up;
    let top = (mant + plus) as nat;
    lemma2_to64();
    lemma2_to64_rest();
    lemma_pow2_below_ten_to(64);
    assert(up > 0 && s0 > 0) by {
        if exp >= 0 {
            lemma_pow2_pos(exp as nat);
        } else {
            lemma_pow2_pos((-exp) as nat);
        }
    }
    assert(r0 + p0 == top * up) by (nonlinear_arith)
        requires
            r0 == mant * up,
            p0 == plus * up,
            top == mant + plus,
    ;
    assert(r0 + p0 > 0) by (nonlinear_arith)
        requires
            r0 + p0 == top * up,
            top > 0,
            up > 0,
    ;
    let n1: nat = if exp >= 0 {
        (64 + exp) as nat
    } else {
        64
    };
    assert(r0 + p0 < s0 * ten_to(n1)) by {
        if exp >= 0 {
            lemma_pow2_adds(64, exp as nat);
            lemma_pow2_below_ten_to(n1);
            assert(top * up < pow2(64) * up) by (nonlinear_arith)
                requires
                    top < pow2(64),
                    up > 0,
            ;
            assert(s0 * ten_to(n1) == ten_to(n1)) by (nonlinear_arith)
                requires
                    s0 == 1,
            ;
        } else {
            assert(top * up == top) by (nonlinear_arith)
                requires
                    up == 1,
            ;
            assert(s0 * ten_to(64) >= ten_to(64)) by (nonlinear_arith)
                requires
                    s0 > 0,
            ;
        }
    }
    lemma_scaled_up(r0, s0, p0, inclusive, 0, SCALE_STEPS as nat, n1);
    let (s, k1) = scaled_up(r0, s0, p0, inclusive, 0, SCALE_STEPS as nat);
    let b = k1 as nat;
    lemma_ten_to_positive(b);
    assert(s > 0) by (nonlinear_arith)
        requires
            s == s0 * ten_to(b),
            s0 > 0,
            ten_to(b) > 0,
    ;
    let n2: nat = if k1 > 0 {
        1
    } else if exp >= 0 {
        0
    } else {
        (-exp) as nat
    };
    lemma_ten_to_positive(n2 + 1);
    lemma_ten_to_positive(n2);
    assert(ten_to(n2 + 1) == 10 * ten_to(n2));
    assert(s <= (r0 + p0) * ten_to(n2 + 1)) by {
        if k1 > 0 {
            assert(s <= (r0 + p0) * ten_to(n2 + 1)) by (nonlinear_arith)
                requires
                    10 * (r0 + p0) >= s,
                    ten_to(n2 + 1) == 10 * ten_to(n2),
                    ten_to(n2) > 0,
            ;
        } else {
            assert(s == s0) by (nonlinear_arith)
                requires
                    s == s0 * ten_to(0),
                    ten_to(0) == 1,
            ;
            if exp < 0 {
                lemma_pow2_below_ten_to(n2);
            }
            assert(s0 <= ten_to(n2));
            assert(ten_to(n2) <= (r0 + p0) * ten_to(n2 + 1)) by (nonlinear_arith)
                requires
                    r0 + p0 > 0,
                    ten_to(n2 + 1) == 10 * ten_to(n2),
                    ten_to(n2) > 0,
            ;
        }
    }
    lemma_ten_to_grows(n2 + 2, 1102);
    assert(ten_to(n2 + 2) == 10 * ten_to(n2 + 1));
    assert((r0 + p0) * ten_to(n2 + 1) < (r0 + p0) * ten_to(1102)) by (nonlinear_arith)
        requires
            r0 + p0 > 0,
            10 * ten_to(n2 + 1) <= ten_to(1102),
            ten_to(n2 + 1) > 0,
    ;
}

/// The number is scaled within the steps that are allowed, and is then
/// below one and a tenth at least: so digits can be written of it, and
/// stop within the digits that are allowed.
proof fn lemma_number_settles(mant: nat, minus: nat, plus: nat, exp: int, inclusive: bool)
    requires
        plus > 0,
        mant + plus < 0x1_0000_0000_0000_0000,
        -1100 <= exp <= 1000,
    ensures
        ({
            let up = raised(exp);
            let (s, k1) = scaled_up(
                mant * up,
                lowered(exp),
                plus * up,
                inclusive,
                0,
                SCALE_STEPS as nat,
            );
            let (r, m, p, k) = scaled_down(
                mant * up,
                s,
                minus * up,
                plus * up,
                inclusive,
                k1,
                SCALE_STEPS as nat,
            );
            let a = (k1 - k) as nat;
            &&& k <= k1
            &&& r == (mant * up) * ten_to(a)
            &&& m == (minus * up) * ten_to(a)
            &&& p == (plus * up) * ten_to(a)
            &&& p > 0
            &&& r < s
            &&& generation_stops(r, s, m, p, inclusive, DIGIT_STEPS as nat)
        }),
{
    let up = raised(exp);
    let s0 = lowered(exp);
    let r0 = mant * up;
    let m0 = minus * up;
    let p0 = plus * up;
    let top = (mant + plus) as nat;
    lemma_denominator_settles(mant, plus, exp, inclusive);
    let (s, k1) = scaled_up(r0, s0, p0, inclusive, 0, SCALE_STEPS as nat);
    lemma_scaled_down(r0, s, m0, p0, inclusive, k1, SCALE_STEPS as nat, 1101);
    let (r, m, p, k) = scaled_down(r0, s, m0, p0, inclusive, k1, SCALE_STEPS as nat);
    let a = (k1 - k) as nat;
    let grown = ten_to(a);
    lemma_ten_to_positive(a);
    assert(reaches(10 * r, s, 10 * p, inclusive));
    assert(p0 >= up) by (nonlinear_arith)
        requires
            p0 == plus * up,
            plus > 0,
    ;
    assert(p > 0 && p >= up * grown) by (nonlinear_arith)
        requires
            p == p0 * grown,
            p0 >= up,
            up > 0,
            grown > 0,
    ;
    assert(r < s);
    assert(s <= p * ten_to(21)) by {
        lemma2_to64();
        lemma2_to64_rest();
        assert(ten_to(20) == 100_000_000_000_000_000_000) by {
            reveal_with_fuel(ten_to, 21);
        }
        assert(ten_to(21) == 10 * ten_to(20));
        assert(r + p == top * (up * grown)) by (nonlinear_arith)
            requires
                r == (mant * up) * grown,
                p == (plus * up) * grown,
                top == mant + plus,
        ;
        assert(10 * (top * (up * grown)) <= p * ten_to(21)) by (nonlinear_arith)
            requires
                top < ten_to(20),
                ten_to(21) == 10 * ten_to(20),
                p >= up * grown,
                up * grown >= 0,
        ;
    }
    lemma_generation_stops(r, s, m, p, inclusive, DIGIT_STEPS as nat, 21);
}

/// What is written reads back between the halfway points.
///
/// For a number `mant * 2^exp` with the margins `minus * 2^exp` below it and
/// `plus * 2^exp` above it, the digits that are written, read as the whole
/// number `N`, and their power of ten `k` give the number
/// `N * 10^(k - j)`, where `j` is the number of digits. That number is at
/// least `(mant - minus) * 2^exp` and at most `(mant + plus) * 2^exp`, and
/// strictly between the two where the ends do not count.
pub proof fn lemma_shortest_between(mant: nat, minus: nat, plus: nat, exp: int, inclusive: bool)
    requires
        plus > 0,
        mant + plus < 0x1_0000_0000_0000_0000,
        -1100 <= exp <= 1000,
    ensures
        ({
            let (digits, k) = shortest_digits(mant, minus, plus, exp, inclusive);
            &&& forall|i: int| 0 <= i < digits.len() ==> digits[i] <= 9
            &&& reads_between(
                number_of(digits),
                k - digits.len(),
                (mant - minus) * raised(exp),
                ((mant + plus) * raised(exp)) as int,
                lowered(exp),
                inclusive,
            )
        }),
{
    let up = raised(exp);
    let s0 = lowered(exp);
    let r0 = mant * up;
    let m0 = minus * up;
    let p0 = plus * up;
    lemma_denominator_settles(mant, plus, exp, inclusive);
    lemma_number_settles(mant, minus, plus, exp, inclusive);
    let (s, k1) = scaled_up(r0, s0, p0, inclusive, 0, SCALE_STEPS as nat);
    let (r, m, p, k) = scaled_down(r0, s, m0, p0, inclusive, k1, SCALE_STEPS as nat);
    let a = (k1 - k) as nat;
    let b = k1 as nat;
    let grown = ten_to(a);
    let none = Seq::<u8>::empty();
    assert(number_of(none) * s + r == r * ten_to(0) && m == m * ten_to(0) && p == p * ten_to(0))
        by (nonlinear_arith)
        requires
            number_of(none) == 0,
            ten_to(0) == 1,
    ;
    lemma_generated_between(none, r, s, m, p, inclusive, DIGIT_STEPS as nat, r, m, p);
    lemma_generated_digits(none, r, s, m, p, inclusive, DIGIT_STEPS as nat);
    let written = generated(none, r, s, m, p, inclusive, DIGIT_STEPS as nat);
    let j = written.len();
    lemma_carried_number(written);
    lemma_carried_digits(written);
    let digits = carried(written);
    let n = number_of(digits);
    let e = k + digits.len() - written.len() - digits.len();
    assert(shortest_digits(mant, minus, plus, exp, inclusive) == (digits, e + digits.len()));
    assert(e == b - a - j);
    let low = (mant - minus) * up;
    let high = ((mant + plus) * up) as int;
    let both = ten_to(a + j);
    lemma_ten_to_adds(a, j);
    lemma_ten_to_positive(a + j);
    lemma_ten_to_positive(b);
    assert((r - m) * ten_to(j) == low * both && (r + p) * ten_to(j) == high * both)
        by (nonlinear_arith)
        requires
            r == (mant * up) * grown,
            m == (minus * up) * grown,
            p == (plus * up) * grown,
            low == (mant - minus) * up,
            high == (mant + plus) * up,
            both == grown * ten_to(j),
    ;
    if e >= 0 {
        lemma_ten_to_adds(e as nat, a + j);
        let x = n * ten_to(e as nat) * s0;
        assert(n * s == x * both) by (nonlinear_arith)
            requires
                s == s0 * ten_to(b),
                ten_to(b) == ten_to(e as nat) * both,
                x == n * ten_to(e as nat) * s0,
        ;
        lemma_cancels(low, x as int, high, both, inclusive);
    } else {
        let f = (-e) as nat;
        lemma_ten_to_adds(f, b);
        let x = n * s0;
        assert(n * s == x * ten_to(b)) by (nonlinear_arith)
            requires
                s == s0 * ten_to(b),
                x == n * s0,
        ;
        assert(low * both == (low * ten_to(f)) * ten_to(b) && high * both == (high * ten_to(f))
            * ten_to(b)) by (nonlinear_arith)
            requires
                both == ten_to(f) * ten_to(b),
        ;
        lemma_cancels(low * ten_to(f), x as int, high * ten_to(f), ten_to(b), inclusive);
    }
}

impl Margins {
    /// What the digits write lies between the halfway points: read as the
    /// whole number `N`, with `j` digits and the power of ten `k`, the
    /// number `N * 10^(k - j)` is at least `(mant - minus) * 2^exp` and at
    /// most `(mant + plus) * 2^exp`, and strictly between the two where
    /// the halfway points do not count.
    pub open spec fn read_back(self) -> bool {
        let (digits, k) = self.digits();
        &&& forall|i: int| 0 <= i < digits.len() ==> digits[i] <= 9
        &&& reads_between(
            number_of(digits),
            k - digits.len(),
            (self.mant - self.minus) * raised(self.exp),
            ((self.mant + self.plus) * raised(self.exp)) as int,
            lowered(self.exp),
            self.inclusive,
        )
    }
}

/// The margins of a binary64 are half the way to its neighbours.
///
/// Counted in quarters of the smallest unit, `2^-1076`, the number with
/// its margins is the number itself; its upper halfway point is the mean
/// of the number and the next binary64 above it, where that one is
/// finite; and its lower halfway point is the mean of the number and the
/// next one below it. The one exception is the smallest normal number,
/// whose lower margin is taken as half of what it is: its lower halfway
/// point lies above that mean.
pub proof fn lemma_margins_are_halfway(x: Float64)
    requires
        x.finite(),
        !x.zero(),
        !x.negative(),
    ensures
        ({
            let m = x.margins();
            let unit = pow2((m.exp + 1076) as nat);
            let above = Float64 { bits: (x.bits + 1) as u64 };
            let below = Float64 { bits: (x.bits - 1) as u64 };
            &&& m.exp + 1076 >= 0
            &&& m.mant * unit == 4 * x.scaled()
            &&& above.finite() ==> (m.mant + m.plus) * unit == 2 * (x.scaled() + above.scaled())
            &&& (m.mant - m.minus) * unit >= 2 * (x.scaled() + below.scaled())
            &&& x.bits != FRACTION_UNIT ==> (m.mant - m.minus) * unit == 2 * (x.scaled()
                + below.scaled())
        }),
{
    let g = x.bits as int;
    let unit_of = FRACTION_UNIT as int;
    let field = x.exponent_field();
    let fraction = x.fraction();
    vstd::arithmetic::div_mod::lemma_fundamental_div_mod(g, unit_of);
    assert(0 <= field < 2047 && 0 <= fraction < unit_of) by (nonlinear_arith)
        requires
            g == unit_of * field + fraction,
            0 <= fraction < unit_of,
            0 <= g < 0x7FF0_0000_0000_0000,
            unit_of == 0x10_0000_0000_0000,
    ;
    let e: int = if field == 0 {
        1
    } else {
        field
    };
    let q = pow2((e - 1) as nat) as int;
    lemma_pow2_pos((e - 1) as nat);
    lemma2_to64();
    let sig = x.significand();
    assert(x.scaled() == sig * q);
    let m = x.margins();
    let unit = pow2((m.exp + 1076) as nat) as int;
    let narrow = field != 0 && fraction == 0;
    if narrow {
        assert(unit == q);
    } else {
        lemma_pow2_unfold(e as nat);
        assert(unit == 2 * q);
    }
    assert(m.mant * unit == 4 * (sig * q)) by (nonlinear_arith)
        requires
            narrow ==> m.mant == 4 * sig && unit == q,
            !narrow ==> m.mant == 2 * sig && unit == 2 * q,
    ;
    let above = Float64 { bits: (x.bits + 1) as u64 };
    if above.finite() {
        if fraction + 1 < unit_of {
            lemma_fields(field, fraction + 1);
            assert(field * unit_of + (fraction + 1) == g + 1) by (nonlinear_arith)
                requires
                    g == unit_of * field + fraction,
            ;
            assert(above.scaled() == (sig + 1) * q);
        } else {
            assert(field + 1 < 2047) by (nonlinear_arith)
                requires
                    g == unit_of * field + fraction,
                    fraction + 1 == unit_of,
                    g + 1 < 0x7FF0_0000_0000_0000,
                    unit_of == 0x10_0000_0000_0000,
            ;
            lemma_fields(field + 1, 0);
            assert((field + 1) * unit_of + 0 == g + 1) by (nonlinear_arith)
                requires
                    g == unit_of * field + fraction,
                    fraction + 1 == unit_of,
            ;
            if field > 0 {
                lemma_pow2_unfold(field as nat);
            }
            assert(above.scaled() == unit_of * pow2(field as nat));
            assert(unit_of * pow2(field as nat) == (sig + 1) * q) by (nonlinear_arith)
                requires
                    field == 0 ==> sig + 1 == unit_of && q == pow2(field as nat),
                    field > 0 ==> sig + 1 == 2 * unit_of && pow2(field as nat) == 2 * q,
                    field >= 0,
            ;
        }
        assert((m.mant + m.plus) * unit == 2 * (sig * q + (sig + 1) * q)) by (nonlinear_arith)
            requires
                narrow ==> m.mant == 4 * sig && m.plus == 2 && unit == q,
                !narrow ==> m.mant == 2 * sig && m.plus == 1 && unit == 2 * q,
        ;
    }
    let below = Float64 { bits: (x.bits - 1) as u64 };
    if fraction >= 1 {
        lemma_fields(field, fraction - 1);
        assert(field * unit_of + (fraction - 1) == g - 1) by (nonlinear_arith)
            requires
                g == unit_of * field + fraction,
        ;
        assert(below.scaled() == (sig - 1) * q);
        assert((m.mant - m.minus) * unit == 2 * (sig * q + (sig - 1) * q)) by (nonlinear_arith)
            requires
                m.mant == 2 * sig,
                m.minus == 1,
                unit == 2 * q,
        ;
    } else {
        assert(field >= 1) by (nonlinear_arith)
            requires
                g == unit_of * field + fraction,
                fraction == 0,
                g > 0,
                field >= 0,
        ;
        lemma_fields(field - 1, unit_of - 1);
        assert((field - 1) * unit_of + (unit_of - 1) == g - 1) by (nonlinear_arith)
            requires
                g == unit_of * field + fraction,
                fraction == 0,
        ;
        assert(sig == unit_of);
        if field == 1 {
            assert(g == unit_of) by (nonlinear_arith)
                requires
                    g == unit_of * field + fraction,
                    fraction == 0,
                    field == 1,
            ;
            assert(q == 1);
            assert(below.scaled() == (unit_of - 1) * pow2(0));
            assert(below.scaled() == unit_of - 1);
            assert(sig * q == unit_of) by (nonlinear_arith)
                requires
                    sig == unit_of,
                    q == 1,
            ;
            assert((m.mant - m.minus) * unit == 4 * unit_of - 1) by (nonlinear_arith)
                requires
                    m.mant == 4 * unit_of,
                    m.minus == 1,
                    unit == 1,
            ;
        } else {
            assert(g != unit_of) by (nonlinear_arith)
                requires
                    g == unit_of * field + fraction,
                    fraction == 0,
                    field > 1,
                    unit_of > 0,
            ;
            let h = pow2((field - 2) as nat) as int;
            lemma_pow2_unfold((field - 1) as nat);
            assert(q == 2 * h);
            assert(below.scaled() == (2 * unit_of - 1) * h);
            assert((m.mant - m.minus) * unit == 2 * (sig * q + (2 * unit_of - 1) * h))
                by (nonlinear_arith)
                requires
                    m.mant == 4 * sig,
                    m.minus == 1,
                    unit == q,
                    q == 2 * h,
                    sig == unit_of,
            ;
        }
    }
}

/// What the digits of a binary64 write lies between the halfway points
/// that the number has with its margins.
pub proof fn lemma_numeral_reads_back(x: Float64)
    requires
        x.finite(),
        !x.zero(),
    ensures
        x.margins().read_back(),
{
    let field = x.exponent_field();
    let fraction = x.fraction();
    vstd::arithmetic::div_mod::lemma_fundamental_div_mod(
        x.magnitude() as int,
        FRACTION_UNIT as int,
    );
    assert(0 <= field < 2047 && 0 <= fraction < FRACTION_UNIT) by (nonlinear_arith)
        requires
            x.magnitude() == FRACTION_UNIT * field + fraction,
            0 <= fraction < FRACTION_UNIT,
            x.magnitude() < 0x7FF0_0000_0000_0000,
            FRACTION_UNIT == 0x10_0000_0000_0000,
    ;
    let m = x.margins();
    lemma_shortest_between(m.mant, m.minus, m.plus, m.exp, m.inclusive);
}

/// What the digits of a binary32 write lies between the halfway points
/// that the number has with its margins.
pub proof fn lemma_single_numeral_reads_back(x: Float32)
    requires
        0 < x.magnitude() < INFINITY_BITS_32,
    ensures
        x.margins().read_back(),
{
    let field = x.exponent_field();
    let fraction = x.fraction();
    vstd::arithmetic::div_mod::lemma_fundamental_div_mod(
        x.magnitude() as int,
        FRACTION_UNIT_32 as int,
    );
    assert(0 <= field < 255 && 0 <= fraction < FRACTION_UNIT_32) by (nonlinear_arith)
        requires
            x.magnitude() == FRACTION_UNIT_32 * field + fraction,
            0 <= fraction < FRACTION_UNIT_32,
            x.magnitude() < 0x7F80_0000,
            FRACTION_UNIT_32 == 0x80_0000,
    ;
    let m = x.margins();
    lemma_shortest_between(m.mant, m.minus, m.plus, m.exp, m.inclusive);
}

/// No more is taken than the steps allow.
pub proof fn lemma_taken_at_most(r: nat, s: nat, steps: nat)
    ensures
        taken(r, s, steps).0 <= steps,
    decreases steps,
{
    if steps > 0 && r >= s {
        lemma_taken_at_most((r - s) as nat, s, (steps - 1) as nat);
    }
}

fn doubled(n: Natural, times: u64) -> (r: Natural)
    ensures
        r@ == n@ * pow2(times as nat),
{
    let mut r = n;
    let mut i: u64 = 0;
    proof {
        lemma2_to64();
        assert(r@ * pow2(0) == r@) by (nonlinear_arith)
            requires
                pow2(0) == 1,
        ;
    }
    while i < times
        invariant
            i <= times,
            r@ == n@ * pow2(i as nat),
        decreases times - i,
    {
        proof {
            lemma_pow2_unfold((i + 1) as nat);
            assert((n@ * pow2(i as nat)) * 2 == n@ * (2 * pow2(i as nat))) by (nonlinear_arith);
        }
        r = r.times_small(2);
        i += 1;
    }
    r
}

fn does_reach(r: &Natural, s: &Natural, plus: &Natural, inclusive: bool) -> (b: bool)
    ensures
        b == reaches(r@, s@, plus@, inclusive),
{
    let high = r.plus(plus);
    if inclusive {
        !high.less_than(s)
    } else {
        s.less_than(&high)
    }
}

fn take_digit(r: Natural, s: &Natural) -> (out: (u8, Natural))
    ensures
        (out.0 as nat, out.1@) == taken(r@, s@, 9),
        out.0 <= 9,
{
    let mut rest = r;
    let mut d: u8 = 0;
    while d < 9 && !rest.less_than(s)
        invariant
            d <= 9,
            taken(r@, s@, 9).0 == d + taken(rest@, s@, (9 - d) as nat).0,
            taken(r@, s@, 9).1 == taken(rest@, s@, (9 - d) as nat).1,
        decreases 9 - d,
    {
        rest = rest.minus(s);
        d += 1;
    }
    (d, rest)
}

/// Carries a ten at the end of the digits over to the digits before it.
fn carry(digits: Vec<u8>) -> (r: Vec<u8>)
    requires
        forall|i: int| 0 <= i < digits.len() - 1 ==> digits[i] <= 9,
        digits.len() > 0 ==> digits[digits.len() - 1] <= 10,
    ensures
        r@ == carried(digits@),
        forall|i: int| 0 <= i < r.len() ==> r[i] <= 9,
    decreases digits.len(),
{
    let n = digits.len();
    if n == 0 || digits[n - 1] != 10 {
        return digits;
    }
    if n == 1 {
        let mut r: Vec<u8> = Vec::new();
        r.push(1);
        r.push(0);
        assert(r@ =~= seq![1u8, 0u8]);
        return r;
    }
    let mut before = digits;
    before.pop();
    let last = before[n - 2];
    before.set(n - 2, last + 1);
    proof {
        let shorter = digits@.drop_last();
        assert(before@ =~= shorter.update(n - 2, (shorter.last() + 1) as u8));
    }
    let mut r = carry(before);
    r.push(0);
    r
}

/// The shortest digits of a number and their power of ten.
fn shortest(mant: u64, minus: u64, plus: u64, exp: i64, inclusive: bool) -> (out: (Vec<u8>, i64))
    requires
        -1100 <= exp <= 1000,
    ensures
        out.0@ == shortest_digits(mant as nat, minus as nat, plus as nat, exp as int, inclusive).0,
        out.1 == shortest_digits(mant as nat, minus as nat, plus as nat, exp as int, inclusive).1,
        forall|i: int| 0 <= i < out.0.len() ==> out.0[i] <= 9,
        out.0.len() <= DIGIT_STEPS + 2,
        -(SCALE_STEPS as int) <= out.1 <= SCALE_STEPS + 1,
{
    let up: u64 = if exp >= 0 {
        exp as u64
    } else {
        0
    };
    let down: u64 = if exp >= 0 {
        0
    } else {
        (-exp) as u64
    };
    proof {
        lemma2_to64();
        assert(mant * pow2(0) == mant) by (nonlinear_arith)
            requires
                pow2(0) == 1,
        ;
        assert(minus * pow2(0) == minus) by (nonlinear_arith)
            requires
                pow2(0) == 1,
        ;
        assert(plus * pow2(0) == plus) by (nonlinear_arith)
            requires
                pow2(0) == 1,
        ;
        assert(1 * pow2(down as nat) == pow2(down as nat)) by (nonlinear_arith);
    }
    let r0 = doubled(Natural::from_u64(mant), up);
    let m0 = doubled(Natural::from_u64(minus), up);
    let p0 = doubled(Natural::from_u64(plus), up);
    let s0 = doubled(Natural::from_u64(1), down);
    let ghost first = scaled_up(r0@, s0@, p0@, inclusive, 0, SCALE_STEPS as nat);
    // Make the denominator larger until the number is below one.
    let mut s = s0;
    let mut k: i64 = 0;
    let mut fuel: u32 = SCALE_STEPS;
    while fuel > 0 && does_reach(&r0, &s, &p0, inclusive)
        invariant
            fuel <= SCALE_STEPS,
            k == SCALE_STEPS - fuel,
            scaled_up(r0@, s@, p0@, inclusive, k as int, fuel as nat) == first,
        decreases fuel,
    {
        s = s.times_small(10);
        k += 1;
        fuel -= 1;
    }
    assert(first == (s@, k as int));
    // Make the number larger until it is a tenth at least.
    let ghost second = scaled_down(r0@, s@, m0@, p0@, inclusive, k as int, SCALE_STEPS as nat);
    let ghost k1 = k;
    let mut r = r0;
    let mut m = m0;
    let mut p = p0;
    let mut fuel: u32 = SCALE_STEPS;
    loop
        invariant
            fuel <= SCALE_STEPS,
            k == k1 - (SCALE_STEPS - fuel),
            0 <= k1 <= SCALE_STEPS,
            scaled_down(r@, s@, m@, p@, inclusive, k as int, fuel as nat) == second,
        ensures
            second == (r@, m@, p@, k as int),
        decreases fuel,
    {
        if fuel == 0 {
            break ;
        }
        let r10 = r.times_small(10);
        let p10 = p.times_small(10);
        if does_reach(&r10, &s, &p10, inclusive) {
            break ;
        }
        m = m.times_small(10);
        r = r10;
        p = p10;
        k -= 1;
        fuel -= 1;
    }
    // Write digits until what is written lies between the halfway points.
    let ghost third = generated(Seq::empty(), r@, s@, m@, p@, inclusive, DIGIT_STEPS as nat);
    let mut digits: Vec<u8> = Vec::new();
    let mut fuel: u32 = DIGIT_STEPS;
    loop
        invariant_except_break
            generated(digits@, r@, s@, m@, p@, inclusive, fuel as nat) == third,
            forall|i: int| 0 <= i < digits.len() ==> digits[i] <= 9,
            digits.len() == DIGIT_STEPS - fuel,
        invariant
            fuel <= DIGIT_STEPS,
        ensures
            digits@ == third,
            forall|i: int| 0 <= i < digits.len() - 1 ==> digits[i] <= 9,
            digits.len() > 0 ==> digits[digits.len() - 1] <= 10,
            digits.len() <= DIGIT_STEPS + 1,
        decreases fuel,
    {
        if fuel == 0 {
            break ;
        }
        let (d, rest) = take_digit(r.times_small(10), &s);
        let m10 = m.times_small(10);
        let p10 = p.times_small(10);
        let is_down = if inclusive {
            !m10.less_than(&rest)
        } else {
            rest.less_than(&m10)
        };
        let is_up = does_reach(&rest, &s, &p10, inclusive);
        if !is_down && !is_up {
            digits.push(d);
            r = rest;
            m = m10;
            p = p10;
            fuel -= 1;
        } else {
            let twice = rest.times_small(2);
            if is_up && (!is_down || !twice.less_than(&s)) {
                digits.push(d + 1);
            } else {
                digits.push(d);
            }
            break ;
        }
    }
    let ghost before = digits@;
    let written = digits.len();
    let settled = carry(digits);
    let grown: i64 = if settled.len() > written {
        1
    } else {
        0
    };
    proof {
        lemma_carried_length(before);
    }
    (settled, k + grown)
}

/// Carrying leaves the number of digits as it is or makes it one more.
proof fn lemma_carried_length(digits: Seq<u8>)
    ensures
        carried(digits).len() == digits.len() || carried(digits).len() == digits.len() + 1,
    decreases digits.len(),
{
    if digits.len() > 1 && digits.last() == 10 {
        let before = digits.drop_last();
        lemma_carried_length(before.update(before.len() - 1, (before.last() + 1) as u8));
    }
}

fn push_digits(out: &mut String, digits: &Vec<u8>, from: usize, to: usize)
    requires
        from <= to <= digits.len(),
        forall|i: int| 0 <= i < digits.len() ==> digits[i] <= 9,
    ensures
        final(out)@ == old(out)@ + digit_text(digits@.subrange(from as int, to as int)),
{
    let mut i: usize = from;
    proof {
        assert(digit_text(digits@.subrange(from as int, from as int)) =~= Seq::<char>::empty());
    }
    while i < to
        invariant
            from <= i <= to <= digits.len(),
            forall|j: int| 0 <= j < digits.len() ==> digits[j] <= 9,
            out@ == old(out)@ + digit_text(digits@.subrange(from as int, i as int)),
        decreases to - i,
    {
        out.append(digit_str(digits[i] as u64));
        assert(out@ =~= old(out)@ + digit_text(digits@.subrange(from as int, i + 1)));
        i += 1;
    }
}

fn push_zeros(out: &mut String, n: u64)
    ensures
        final(out)@ == old(out)@ + zeros(n as nat),
{
    let mut i: u64 = 0;
    proof {
        reveal_strlit("0");
        assert(zeros(0) =~= Seq::<char>::empty());
    }
    while i < n
        invariant
            i <= n,
            "0"@ == seq!['0'],
            out@ == old(out)@ + zeros(i as nat),
        decreases n - i,
    {
        out.append("0");
        assert(out@ =~= old(out)@ + zeros((i + 1) as nat));
        i += 1;
    }
}

/// Writes digits with their power of ten as a numeral without exponent.
fn lay_out(out: &mut String, digits: &Vec<u8>, k: i64)
    requires
        forall|i: int| 0 <= i < digits.len() ==> digits[i] <= 9,
        -0x7FFF_FFFF <= k <= 0x7FFF_FFFF,
        digits.len() <= 0x7FFF_FFFF,
    ensures
        final(out)@ == old(out)@ + laid_out(digits@, k as int),
{
    let n = digits.len();
    if k <= 0 {
        out.append("0.");
        push_zeros(out, (-k) as u64);
        push_digits(out, digits, 0, n);
        assert(digits@.subrange(0, n as int) =~= digits@);
        assert(out@ =~= old(out)@ + laid_out(digits@, k as int));
    } else if (k as u64) < n as u64 {
        let point = k as usize;
        push_digits(out, digits, 0, point);
        out.append(".");
        push_digits(out, digits, point, n);
        assert(digits@.subrange(0, point as int) =~= digits@.take(k as int));
        assert(digits@.subrange(point as int, n as int) =~= digits@.skip(k as int));
        assert(out@ =~= old(out)@ + laid_out(digits@, k as int));
    } else {
        push_digits(out, digits, 0, n);
        push_zeros(out, k as u64 - n as u64);
        assert(digits@.subrange(0, n as int) =~= digits@);
        assert(out@ =~= old(out)@ + laid_out(digits@, k as int));
    }
}

fn sign_of(negative: bool) -> (s: String)
    ensures
        s@ == sign_text(negative),
{
    if negative {
        String::from_str("-")
    } else {
        String::new()
    }
}

impl Float64 {
    /// Writes the number in decimal.
    pub fn to_text(self) -> (s: String)
        ensures
            s@ == self.numeral(),
    {
        if self.is_nan() {
            return String::from_str("NaN");
        }
        let mut s = sign_of(self.is_negative());
        if !self.is_finite() {
            s.append("inf");
            return s;
        }
        if self.is_zero() {
            s.append("0");
            return s;
        }
        let magnitude = self.abs().bits;
        let field = magnitude / FRACTION_UNIT;
        let fraction = magnitude % FRACTION_UNIT;
        let (digits, k) = if field == 0 {
            shortest(2 * fraction, 1, 1, -1075, fraction % 2 == 0)
        } else if fraction == 0 {
            shortest(4 * FRACTION_UNIT, 1, 2, field as i64 - 1077, true)
        } else {
            let m = FRACTION_UNIT + fraction;
            shortest(2 * m, 1, 1, field as i64 - 1076, m % 2 == 0)
        };
        lay_out(&mut s, &digits, k);
        s
    }
}

impl Float32 {
    /// Writes the number in decimal.
    pub fn to_text(self) -> (s: String)
        ensures
            s@ == self.numeral(),
    {
        let magnitude = self.magnitude_bits();
        if magnitude > INFINITY_BITS_32 {
            return String::from_str("NaN");
        }
        let mut s = sign_of(self.bits >= SIGN_BIT_32);
        if magnitude == INFINITY_BITS_32 {
            s.append("inf");
            return s;
        }
        if magnitude == 0 {
            s.append("0");
            return s;
        }
        let field = (magnitude / FRACTION_UNIT_32) as u64;
        let fraction = (magnitude % FRACTION_UNIT_32) as u64;
        let (digits, k) = if field == 0 {
            shortest(2 * fraction, 1, 1, -150, fraction % 2 == 0)
        } else if fraction == 0 {
            shortest(4 * (FRACTION_UNIT_32 as u64), 1, 2, field as i64 - 152, true)
        } else {
            let m = FRACTION_UNIT_32 as u64 + fraction;
            shortest(2 * m, 1, 1, field as i64 - 151, m % 2 == 0)
        };
        lay_out(&mut s, &digits, k);
        s
    }
}

} // verus!
