//! IEEE 754 binary32 numbers, held by their bit patterns.
//!
//! Temperatures and packet vectors are single-precision numbers. Here such a
//! number is its 32 bits, and its mathematical value is an integer: the
//! multiple of the least positive single, two to the power minus 149. Every
//! finite single is an exact multiple of that unit, so comparison, rounding
//! and printing are all statements about integers.

use vstd::arithmetic::power2::{
    lemma2_to64, lemma_pow2_adds, lemma_pow2_pos, lemma_pow2_strictly_increases, lemma_pow2_unfold, pow2,
};
use vstd::prelude::*;

verus! {

/// The weight of the lowest exponent bit: two to the power 23.
pub const HIDDEN_BIT: u32 = 0x80_0000;

/// The weight of the sign bit: two to the power 31.
pub const SIGN_BIT: u32 = 0x8000_0000;

/// The magnitude bits of positive infinity.
pub const INFINITY_BITS: u32 = 0x7f80_0000;

/// A single-precision number. Two of them are equal when their bits are.
#[derive(Clone, Copy, Debug, PartialEq, Eq, Structural)]
pub struct Single {
    pub bits: u32,
}

/// The value, in units of the least positive single, of the 31 magnitude bits
/// `low`. Infinity comes out as one step past the greatest finite magnitude.
pub open spec fn magnitude(low: nat) -> nat {
    let exponent = low / HIDDEN_BIT as nat;
    let fraction = low % HIDDEN_BIT as nat;
    if exponent == 0 {
        fraction
    } else {
        (HIDDEN_BIT as nat + fraction) * pow2((exponent - 1) as nat)
    }
}

impl Single {
    /// The magnitude bits: everything but the sign.
    pub open spec fn low(self) -> nat {
        (self.bits % SIGN_BIT) as nat
    }

    pub open spec fn negative(self) -> bool {
        self.bits >= SIGN_BIT
    }

    pub open spec fn nan(self) -> bool {
        self.low() > INFINITY_BITS
    }

    pub open spec fn infinite(self) -> bool {
        self.low() == INFINITY_BITS
    }

    pub open spec fn finite(self) -> bool {
        self.low() < INFINITY_BITS
    }

    /// The value in units of the least positive single.
    pub open spec fn units(self) -> int {
        if self.negative() {
            -magnitude(self.low())
        } else {
            magnitude(self.low()) as int
        }
    }

    /// The order of numbers; nothing is ordered with a NaN.
    pub open spec fn at_least(self, other: Single) -> bool {
        !self.nan() && !other.nan() && self.units() >= other.units()
    }

    /// The strict order of numbers; nothing is ordered with a NaN.
    pub open spec fn above(self, other: Single) -> bool {
        !self.nan() && !other.nan() && self.units() > other.units()
    }

    /// The signed rank of a number among all singles that are not NaN.
    spec fn rank(self) -> int {
        if self.negative() {
            -self.low()
        } else {
            self.low() as int
        }
    }

    pub fn is_nan(self) -> (r: bool)
        ensures
            r == self.nan(),
    {
        self.bits % SIGN_BIT > INFINITY_BITS
    }

    pub fn is_infinite(self) -> (r: bool)
        ensures
            r == self.infinite(),
    {
        self.bits % SIGN_BIT == INFINITY_BITS
    }

    pub fn is_finite(self) -> (r: bool)
        ensures
            r == self.finite(),
    {
        self.bits % SIGN_BIT < INFINITY_BITS
    }

    fn signed_rank(self) -> (r: i64)
        ensures
            r == self.rank(),
    {
        if self.bits >= SIGN_BIT {
            -((self.bits % SIGN_BIT) as i64)
        } else {
            (self.bits % SIGN_BIT) as i64
        }
    }

    /// Whether `self >= other`.
    pub fn ge(self, other: Single) -> (r: bool)
        ensures
            r == self.at_least(other),
    {
        proof {
            lemma_rank_orders(self, other);
            lemma_rank_orders(other, self);
        }
        !self.is_nan() && !other.is_nan() && self.signed_rank() >= other.signed_rank()
    }

    /// Whether `self > other`.
    pub fn gt(self, other: Single) -> (r: bool)
        ensures
            r == self.above(other),
    {
        proof {
            lemma_rank_orders(self, other);
            lemma_rank_orders(other, self);
        }
        !self.is_nan() && !other.is_nan() && self.signed_rank() > other.signed_rank()
    }

    /// Whether `self > 0`.
    pub fn is_positive(self) -> (r: bool)
        ensures
            r == (!self.nan() && self.units() > 0),
    {
        proof {
            let zero = Single { bits: 0 };
            lemma_rank_orders(self, zero);
            lemma_rank_orders(zero, self);
        }
        !self.is_nan() && self.signed_rank() > 0
    }
}

/// A magnitude of exponent field `exponent` stays below the next binade.
pub proof fn lemma_binade(low: nat)
    ensures
        low >= HIDDEN_BIT ==> HIDDEN_BIT * pow2((low / HIDDEN_BIT as nat - 1) as nat)
            <= magnitude(low) < 2 * HIDDEN_BIT * pow2((low / HIDDEN_BIT as nat - 1) as nat),
        low < HIDDEN_BIT ==> magnitude(low) == low,
{
    if low >= HIDDEN_BIT {
        let p = pow2((low / HIDDEN_BIT as nat - 1) as nat);
        let f = low % HIDDEN_BIT as nat;
        lemma_pow2_pos((low / HIDDEN_BIT as nat - 1) as nat);
        assert(HIDDEN_BIT * p <= (HIDDEN_BIT + f) * p < 2 * HIDDEN_BIT * p) by (nonlinear_arith)
            requires
                p > 0,
                0 <= f < HIDDEN_BIT,
        ;
    }
}

/// Greater magnitude bits are greater values.
pub proof fn lemma_magnitude_increases(a: nat, b: nat)
    requires
        a < b,
    ensures
        magnitude(a) < magnitude(b),
{
    lemma_binade(a);
    lemma_binade(b);
    let ea = a / HIDDEN_BIT as nat;
    let eb = b / HIDDEN_BIT as nat;
    let fa = a % HIDDEN_BIT as nat;
    let fb = b % HIDDEN_BIT as nat;
    if ea == eb {
        if ea > 0 {
            let p = pow2((ea - 1) as nat);
            lemma_pow2_pos((ea - 1) as nat);
            assert((HIDDEN_BIT + fa) * p < (HIDDEN_BIT + fb) * p) by (nonlinear_arith)
                requires
                    p > 0,
                    fa < fb,
            ;
        }
    } else {
        let p = pow2((eb - 1) as nat);
        lemma_pow2_pos((eb - 1) as nat);
        if ea == 0 {
            assert(HIDDEN_BIT * p >= HIDDEN_BIT) by (nonlinear_arith)
                requires
                    p > 0,
            ;
        } else {
            let q = pow2((ea - 1) as nat);
            lemma_pow2_unfold(ea);
            if ea < eb - 1 {
                lemma_pow2_strictly_increases(ea, (eb - 1) as nat);
            }
            assert(2 * HIDDEN_BIT * q <= HIDDEN_BIT * p) by (nonlinear_arith)
                requires
                    2 * q <= p,
            ;
        }
    }
}

/// The rank orders numbers as their values do.
proof fn lemma_rank_orders(a: Single, b: Single)
    ensures
        a.rank() < b.rank() ==> a.units() < b.units(),
        a.rank() == b.rank() ==> a.units() == b.units(),
{
    if a.low() < b.low() {
        lemma_magnitude_increases(a.low(), b.low());
    }
    if b.low() < a.low() {
        lemma_magnitude_increases(b.low(), a.low());
    }
    if a.low() > 0 {
        lemma_magnitude_increases(0, a.low());
    }
    if b.low() > 0 {
        lemma_magnitude_increases(0, b.low());
    }
    assert(magnitude(0) == 0);
}

/// Numbers are ordered as their bits are: above zero as the bits stand, below
/// zero the other way round, and the two zeros are equal.
pub proof fn numbers_are_ordered_by_their_bits(a: Single, b: Single)
    ensures
        ({
            let x = if a.bits < 0x8000_0000 {
                a.bits as int
            } else {
                0x8000_0000 - a.bits
            };
            let y = if b.bits < 0x8000_0000 {
                b.bits as int
            } else {
                0x8000_0000 - b.bits
            };
            &&& a.units() < b.units() <==> x < y
            &&& a.units() == b.units() <==> x == y
        }),
{
    lemma_rank_orders(a, b);
    lemma_rank_orders(b, a);
}

/// What the bits of a number are worth: up to two to the power 24 each step is
/// one unit; from two to the power 23 on, a step of the exponent doubles the
/// value; and the sign bit turns the value round.
pub proof fn values_double_with_the_exponent(s: Single)
    ensures
        s.bits <= 0x100_0000 ==> s.units() == s.bits,
        0x80_0000 <= s.bits < 0x7f80_0000 ==> (Single {
            bits: (s.bits + 0x80_0000) as u32,
        }).units() == 2 * s.units(),
        s.bits < 0x8000_0000 ==> (Single { bits: (s.bits + 0x8000_0000) as u32 }).units()
            == -s.units(),
{
    let low = s.low();
    lemma2_to64();
    if 0x80_0000 <= s.bits <= 0x100_0000 {
        let e = low / HIDDEN_BIT as nat;
        let f = low % HIDDEN_BIT as nat;
        assert(e == 1 || (e == 2 && f == 0));
        assert((HIDDEN_BIT + f) * 1 == HIDDEN_BIT + f) by (nonlinear_arith);
        assert(HIDDEN_BIT as int * 2 == 0x100_0000);
    }
    if 0x80_0000 <= s.bits < 0x7f80_0000 {
        let e = low / HIDDEN_BIT as nat;
        let f = low % HIDDEN_BIT as nat;
        let next = Single { bits: (s.bits + 0x80_0000) as u32 };
        assert(next.low() / HIDDEN_BIT as nat == e + 1);
        assert(next.low() % HIDDEN_BIT as nat == f);
        lemma_pow2_unfold(e);
        let p = pow2((e - 1) as nat) as int;
        assert((HIDDEN_BIT + f) * (2 * p) == 2 * ((HIDDEN_BIT + f) * p)) by (nonlinear_arith);
    }
}

/// A single whose significand is `n` shifted left by `k` digits, and whose
/// exponent takes the shift back, is the whole number `n`.
pub proof fn lemma_whole_number(s: Single, n: nat, k: nat)
    requires
        !s.negative(),
        k < 149,
        s.low() / HIDDEN_BIT as nat == 150 - k,
        HIDDEN_BIT + s.low() % HIDDEN_BIT as nat == n * pow2(k),
    ensures
        s.units() == n * pow2(149),
{
    lemma_pow2_adds(k, (149 - k) as nat);
    let p = pow2(k) as int;
    let q = pow2((149 - k) as nat) as int;
    assert(n * p * q == n * (p * q)) by (nonlinear_arith);
}

} // verus!
