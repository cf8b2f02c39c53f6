//! Natural numbers of any size, for the few exact computations that do not
//! fit a machine word: a number is a list of 32-bit limbs, the least
//! significant first.

use vstd::arithmetic::mul::*;
use vstd::prelude::*;

verus! {

/// The base of the limbs: two to the power 32.
pub const BASE: u64 = 0x1_0000_0000;

/// The weight of the limb at place `n`: the base to the power `n`.
pub open spec fn weight(n: nat) -> nat
    decreases n,
{
    if n == 0 {
        1
    } else {
        BASE as nat * weight((n - 1) as nat)
    }
}

/// The number that a list of limbs stands for.
pub open spec fn value(limbs: Seq<u32>) -> nat
    decreases limbs.len(),
{
    if limbs.len() == 0 {
        0
    } else {
        value(limbs.drop_last()) + limbs.last() as nat * weight((limbs.len() - 1) as nat)
    }
}

/// A natural number of any size.
#[derive(Debug)]
pub struct Natural {
    pub limbs: Vec<u32>,
}

impl View for Natural {
    type V = nat;

    open spec fn view(&self) -> nat {
        value(self.limbs@)
    }
}

/// A weight is positive.
pub proof fn lemma_weight_positive(n: nat)
    ensures
        weight(n) > 0,
    decreases n,
{
    if n > 0 {
        lemma_weight_positive((n - 1) as nat);
        assert(BASE as nat * weight((n - 1) as nat) > 0) by (nonlinear_arith)
            requires
                weight((n - 1) as nat) > 0,
                BASE == 0x1_0000_0000,
        ;
    }
}

/// A list of limbs stands for less than the weight of the place after its last.
pub proof fn lemma_value_bound(limbs: Seq<u32>)
    ensures
        value(limbs) < weight(limbs.len()),
    decreases limbs.len(),
{
    if limbs.len() > 0 {
        lemma_value_bound(limbs.drop_last());
        let n = (limbs.len() - 1) as nat;
        lemma_weight_positive(n);
        assert(value(limbs.drop_last()) + limbs.last() as nat * weight(n) < BASE as nat * weight(n))
            by (nonlinear_arith)
            requires
                value(limbs.drop_last()) < weight(n),
                limbs.last() < BASE,
                BASE == 0x1_0000_0000,
        ;
    }
}

/// The first `i + 1` limbs stand for what the first `i` stand for and the
/// limb at `i` with its weight.
pub proof fn lemma_value_step(limbs: Seq<u32>, i: int)
    requires
        0 <= i < limbs.len(),
    ensures
        value(limbs.take(i + 1)) == value(limbs.take(i)) + limbs[i] as nat * weight(i as nat),
{
    assert(limbs.take(i + 1).drop_last() =~= limbs.take(i));
}

/// Limbs of zero at the end change nothing.
pub proof fn lemma_value_of_zeros(limbs: Seq<u32>, n: int)
    requires
        0 <= n <= limbs.len(),
        forall|j: int| n <= j < limbs.len() ==> limbs[j] == 0,
    ensures
        value(limbs) == value(limbs.take(n)),
    decreases limbs.len() - n,
{
    if n == limbs.len() {
        assert(limbs.take(n) =~= limbs);
    } else {
        lemma_value_of_zeros(limbs.drop_last(), n);
        assert(limbs.drop_last().take(n) =~= limbs.take(n));
        assert(limbs.last() as nat * weight((limbs.len() - 1) as nat) == 0) by (nonlinear_arith)
            requires
                limbs.last() == 0,
        ;
    }
}

impl Natural {
    /// A machine word as a natural number.
    pub fn from_u64(v: u64) -> (r: Natural)
        ensures
            r@ == v,
    {
        let mut limbs: Vec<u32> = Vec::new();
        let low = (v % BASE) as u32;
        let high = (v / BASE) as u32;
        limbs.push(low);
        limbs.push(high);
        proof {
            let s = limbs@;
            assert(s.drop_last() =~= seq![low]);
            assert(s.drop_last().drop_last() =~= Seq::<u32>::empty());
            reveal_with_fuel(value, 3);
            reveal_with_fuel(weight, 2);
            assert(value(s) == low + high * BASE) by (nonlinear_arith)
                requires
                    value(s) == 0 + low as nat * 1 + high as nat * (BASE as nat * 1),
            ;
        }
        Natural { limbs }
    }

    /// The number times a small factor.
    pub fn times_small(&self, factor: u32) -> (r: Natural)
        ensures
            r@ == self@ * factor,
    {
        let mut limbs: Vec<u32> = Vec::new();
        let mut carry: u64 = 0;
        let mut i: usize = 0;
        proof {
            assert(self.limbs@.take(0) =~= Seq::<u32>::empty());
            lemma_mul_basics(factor as int);
            lemma_mul_basics(weight(0) as int);
        }
        while i < self.limbs.len()
            invariant
                i <= self.limbs.len(),
                limbs.len() == i,
                carry < BASE,
                value(limbs@) + carry * weight(i as nat) == value(self.limbs@.take(i as int))
                    * factor,
            decreases self.limbs.len() - i,
        {
            let limb = self.limbs[i] as u64;
            assert(limb * factor + carry < BASE * BASE) by (nonlinear_arith)
                requires
                    limb < BASE,
                    factor < BASE,
                    carry < BASE,
                    BASE == 0x1_0000_0000,
            ;
            let total: u64 = limb * (factor as u64) + carry;
            let low = (total % BASE) as u32;
            let high = total / BASE;
            proof {
                lemma_value_step(self.limbs@, i as int);
                let before = limbs@;
                let after = limbs@.push(low);
                assert(after.drop_last() =~= before);
                let w = weight(i as nat);
                assert(weight((i + 1) as nat) == BASE as nat * w);
                assert(value(before) + low * w + high * (BASE * w) == (value(self.limbs@.take(
                    i as int,
                )) + limb * w) * factor) by (nonlinear_arith)
                    requires
                        value(before) + carry * w == value(self.limbs@.take(i as int)) * factor,
                        low + high * BASE == limb * factor + carry,
                ;
            }
            limbs.push(low);
            carry = high;
            i += 1;
        }
        proof {
            assert(self.limbs@.take(self.limbs.len() as int) =~= self.limbs@);
            let before = limbs@;
            let after = limbs@.push(carry as u32);
            assert(after.drop_last() =~= before);
            if carry == 0 {
                lemma_mul_basics(weight(i as nat) as int);
            }
        }
        if carry != 0 {
            limbs.push(carry as u32);
        }
        Natural { limbs }
    }

    /// The sum of two numbers.
    pub fn plus(&self, other: &Natural) -> (r: Natural)
        ensures
            r@ == self@ + other@,
    {
        let n = if self.limbs.len() >= other.limbs.len() {
            self.limbs.len()
        } else {
            other.limbs.len()
        };
        let ghost a = padded(self.limbs@, n as nat);
        let ghost b = padded(other.limbs@, n as nat);
        proof {
            lemma_padded(self.limbs@, n as nat);
            lemma_padded(other.limbs@, n as nat);
            assert(a.take(0) =~= Seq::<u32>::empty());
            assert(b.take(0) =~= Seq::<u32>::empty());
        }
        let mut limbs: Vec<u32> = Vec::new();
        let mut carry: u64 = 0;
        let mut i: usize = 0;
        while i < n
            invariant
                i <= n,
                n >= self.limbs.len(),
                n >= other.limbs.len(),
                a == padded(self.limbs@, n as nat),
                b == padded(other.limbs@, n as nat),
                limbs.len() == i,
                carry <= 1,
                value(limbs@) + carry * weight(i as nat) == value(a.take(i as int)) + value(
                    b.take(i as int),
                ),
            decreases n - i,
        {
            let x: u64 = if i < self.limbs.len() {
                self.limbs[i] as u64
            } else {
                0
            };
            let y: u64 = if i < other.limbs.len() {
                other.limbs[i] as u64
            } else {
                0
            };
            let total: u64 = x + y + carry;
            let low = (total % BASE) as u32;
            let high = total / BASE;
            proof {
                assert(a[i as int] == x);
                assert(b[i as int] == y);
                lemma_value_step(a, i as int);
                lemma_value_step(b, i as int);
                let before = limbs@;
                let after = limbs@.push(low);
                assert(after.drop_last() =~= before);
                let w = weight(i as nat);
                assert(weight((i + 1) as nat) == BASE as nat * w);
                let low_a = value(a.take(i as int));
                let low_b = value(b.take(i as int));
                assert(value(before) + low * w + high * (BASE * w) == low_a + x * w + low_b + y * w)
                    by (nonlinear_arith)
                    requires
                        value(before) + carry * w == low_a + low_b,
                        low + high * BASE == x + y + carry,
                ;
            }
            limbs.push(low);
            carry = high;
            i += 1;
        }
        proof {
            assert(a.take(n as int) =~= a);
            assert(b.take(n as int) =~= b);
            let before = limbs@;
            let after = limbs@.push(carry as u32);
            assert(after.drop_last() =~= before);
            if carry == 0 {
                lemma_mul_basics(weight(n as nat) as int);
            }
        }
        if carry != 0 {
            limbs.push(carry as u32);
        }
        Natural { limbs }
    }

    /// Tells whether the number is less than another.
    pub fn less_than(&self, other: &Natural) -> (r: bool)
        ensures
            r == (self@ < other@),
    {
        let n = if self.limbs.len() >= other.limbs.len() {
            self.limbs.len()
        } else {
            other.limbs.len()
        };
        let ghost a = padded(self.limbs@, n as nat);
        let ghost b = padded(other.limbs@, n as nat);
        proof {
            lemma_padded(self.limbs@, n as nat);
            lemma_padded(other.limbs@, n as nat);
            assert(a.take(n as int) =~= a);
            assert(b.take(n as int) =~= b);
        }
        let mut i: usize = n;
        while i > 0
            invariant
                i <= n,
                n >= self.limbs.len(),
                n >= other.limbs.len(),
                a == padded(self.limbs@, n as nat),
                b == padded(other.limbs@, n as nat),
                value(a) == self@,
                value(b) == other@,
                value(a) - value(a.take(i as int)) == value(b) - value(b.take(i as int)),
            decreases i,
        {
            i -= 1;
            let x: u32 = if i < self.limbs.len() {
                self.limbs[i]
            } else {
                0
            };
            let y: u32 = if i < other.limbs.len() {
                other.limbs[i]
            } else {
                0
            };
            proof {
                assert(a[i as int] == x);
                assert(b[i as int] == y);
                lemma_value_step(a, i as int);
                lemma_value_step(b, i as int);
                lemma_value_bound(a.take(i as int));
                lemma_value_bound(b.take(i as int));
                lemma_weight_positive(i as nat);
            }
            if x != y {
                proof {
                    let w = weight(i as nat);
                    let low_a = value(a.take(i as int));
                    let low_b = value(b.take(i as int));
                    if x < y {
                        assert(low_a + x * w < low_b + y * w) by (nonlinear_arith)
                            requires
                                low_a < w,
                                x < y,
                                low_b >= 0,
                        ;
                    } else {
                        assert(low_b + y * w < low_a + x * w) by (nonlinear_arith)
                            requires
                                low_b < w,
                                y < x,
                                low_a >= 0,
                        ;
                    }
                }
                return x < y;
            }
        }
        proof {
            assert(a.take(0) =~= Seq::<u32>::empty());
            assert(b.take(0) =~= Seq::<u32>::empty());
        }
        false
    }

    /// The number less another that is not larger.
    pub fn minus(&self, other: &Natural) -> (r: Natural)
        requires
            self@ >= other@,
        ensures
            r@ == self@ - other@,
    {
        let n = if self.limbs.len() >= other.limbs.len() {
            self.limbs.len()
        } else {
            other.limbs.len()
        };
        let ghost a = padded(self.limbs@, n as nat);
        let ghost b = padded(other.limbs@, n as nat);
        proof {
            lemma_padded(self.limbs@, n as nat);
            lemma_padded(other.limbs@, n as nat);
            assert(a.take(0) =~= Seq::<u32>::empty());
            assert(b.take(0) =~= Seq::<u32>::empty());
            lemma_mul_basics(weight(0) as int);
        }
        let mut limbs: Vec<u32> = Vec::new();
        let mut borrow: u64 = 0;
        let mut i: usize = 0;
        while i < n
            invariant
                i <= n,
                n >= self.limbs.len(),
                n >= other.limbs.len(),
                a == padded(self.limbs@, n as nat),
                b == padded(other.limbs@, n as nat),
                limbs.len() == i,
                borrow <= 1,
                value(limbs@) + value(b.take(i as int)) == value(a.take(i as int)) + borrow
                    * weight(i as nat),
            decreases n - i,
        {
            let x: u64 = if i < self.limbs.len() {
                self.limbs[i] as u64
            } else {
                0
            };
            let y: u64 = if i < other.limbs.len() {
                other.limbs[i] as u64
            } else {
                0
            };
            let take = y + borrow;
            let (low, next): (u32, u64) = if x >= take {
                ((x - take) as u32, 0)
            } else {
                ((x + BASE - take) as u32, 1)
            };
            proof {
                assert(a[i as int] == x);
                assert(b[i as int] == y);
                lemma_value_step(a, i as int);
                lemma_value_step(b, i as int);
                let before = limbs@;
                let after = limbs@.push(low);
                assert(after.drop_last() =~= before);
                let w = weight(i as nat);
                assert(weight((i + 1) as nat) == BASE as nat * w);
                assert(value(before) + low * w + value(b.take(i as int)) + y * w == value(
                    a.take(i as int),
                ) + x * w + next * (BASE * w)) by (nonlinear_arith)
                    requires
                        value(before) + value(b.take(i as int)) == value(a.take(i as int)) + borrow
                            * w,
                        low + y + borrow == x + next * BASE,
                ;
            }
            limbs.push(low);
            borrow = next;
            i += 1;
        }
        proof {
            assert(a.take(n as int) =~= a);
            assert(b.take(n as int) =~= b);
            lemma_value_bound(limbs@);
            if borrow == 1 {
                assert(1 * weight(n as nat) == weight(n as nat)) by (nonlinear_arith);
            } else {
                lemma_mul_basics(weight(n as nat) as int);
            }
        }
        Natural { limbs }
    }
}

/// A list of limbs made as long as `n` with limbs of zero.
pub open spec fn padded(limbs: Seq<u32>, n: nat) -> Seq<u32> {
    Seq::new(
        n,
        |i: int|
            if i < limbs.len() {
                limbs[i]
            } else {
                0u32
            },
    )
}

/// Padding changes nothing.
pub proof fn lemma_padded(limbs: Seq<u32>, n: nat)
    requires
        n >= limbs.len(),
    ensures
        value(padded(limbs, n)) == value(limbs),
{
    let p = padded(limbs, n);
    lemma_value_of_zeros(p, limbs.len() as int);
    assert(p.take(limbs.len() as int) =~= limbs);
}

} // verus!
