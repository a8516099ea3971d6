//! Correctly rounded quotients: what single-precision division gives.

use crate::single::{lemma_binade, lemma_magnitude_increases, Single, HIDDEN_BIT};
use vstd::arithmetic::div_mod::lemma_fundamental_div_mod;
use vstd::arithmetic::power2::{
    lemma_pow2_adds, lemma_pow2_pos, lemma_pow2_strictly_increases, lemma_pow2_unfold, pow2,
};
use vstd::prelude::*;

verus! {

/// The integer nearest to `n / d`; of two equally near, the even one.
pub open spec fn half_even(n: nat, d: nat) -> nat {
    let q = n / d;
    let r = n % d;
    if 2 * r > d || (2 * r == d && q % 2 == 1) {
        q + 1
    } else {
        q
    }
}

/// How far the value of `s` lies from `n / d` units, scaled by `d`.
pub open spec fn distance(s: Single, n: nat, d: nat) -> int {
    let gap = s.units() * d - n;
    if gap < 0 {
        -gap
    } else {
        gap
    }
}

/// `s` is `n / d` units, rounded to the nearest single with ties to the even
/// significand: no finite single is nearer, and where another one is as near,
/// the last bit of `s` is clear.
pub open spec fn nearest(s: Single, n: nat, d: nat) -> bool {
    &&& s.finite()
    &&& !s.negative()
    &&& forall|t: Single| t.finite() ==> distance(s, n, d) <= #[trigger] distance(t, n, d)
    &&& forall|t: Single|
        t.finite() && t.units() != s.units() && distance(s, n, d) == #[trigger] distance(t, n, d)
            ==> s.bits % 2 == 0
}

/// `half_even` picks an integer that no other one beats, and an even one where
/// another is as near.
pub proof fn lemma_half_even(n: nat, d: nat, j: int)
    requires
        d > 0,
    ensures
        ({
            let e = half_even(n, d) * d - n;
            let g = j * d - n;
            let e_abs = if e < 0 { -e } else { e };
            let g_abs = if g < 0 { -g } else { g };
            &&& e_abs <= g_abs
            &&& 2 * e_abs <= d
            &&& (e_abs == g_abs && j != half_even(n, d)) ==> half_even(n, d) % 2 == 0
        }),
{
    let q = (n / d) as int;
    let r = (n % d) as int;
    lemma_fundamental_div_mod(n as int, d as int);
    assert(n == d * q + r);
    assert(q * d == d * q) by (nonlinear_arith);
    assert((q + 1) * d == q * d + d) by (nonlinear_arith);
    let k = j - q;
    assert(j * d == q * d + k * d) by (nonlinear_arith)
        requires
            k == j - q,
    ;
    assert(0 <= r < d) by {
        vstd::arithmetic::div_mod::lemma_mod_bound(n as int, d as int);
    }
    if k <= -1 {
        assert(k * d <= -d) by (nonlinear_arith)
            requires
                k <= -1,
                d > 0,
        ;
    } else if k == 0 {
    } else if k == 1 {
    } else {
        assert(k * d >= 2 * d) by (nonlinear_arith)
            requires
                k >= 2,
                d > 0,
        ;
    }
}

/// From the binade of `pow2(p)` upwards, every single is a multiple of `pow2(p)`.
proof fn lemma_multiple(t: Single, p: nat) -> (j: int)
    requires
        t.units() >= HIDDEN_BIT * pow2(p),
    ensures
        t.units() == j * pow2(p),
{
    let low = t.low();
    lemma_pow2_pos(p);
    lemma_binade(low);
    let b = HIDDEN_BIT as int;
    let step = pow2(p) as int;
    assert(b * step >= b) by (nonlinear_arith)
        requires
            step >= 1,
            b >= 0,
    ;
    let e = low / HIDDEN_BIT as nat;
    let f = low % HIDDEN_BIT as nat;
    assert(e > 0);
    let q = pow2((e - 1) as nat) as int;
    if e - 1 < p {
        lemma_pow2_unfold(e);
        if e < p {
            lemma_pow2_strictly_increases(e, p);
        }
        assert(2 * b * q <= b * step) by (nonlinear_arith)
            requires
                2 * q <= step,
                b >= 0,
        ;
        assert(false);
    }
    lemma_pow2_adds((e - 1 - p) as nat, p);
    let rest = pow2((e - 1 - p) as nat) as int;
    assert((b + f) * q == ((b + f) * rest) * step) by (nonlinear_arith)
        requires
            q == rest * step,
    ;
    (b + f) * rest
}

/// A quotient scaled into `[2^23, 2^24)` and rounded there is the nearest single.
proof fn lemma_scaled_quotient_nearest(s: Single, num: nat, den: nat, p: nat)
    requires
        den > 0,
        den * HIDDEN_BIT <= num,
        s.finite(),
        !s.negative(),
        s.units() == half_even(num, den) * pow2(p),
        s.bits % 2 == half_even(num, den) % 2,
    ensures
        nearest(s, num * pow2(p), den),
{
    let u = pow2(p) as int;
    let q = half_even(num, den) as int;
    let n = num * pow2(p);
    lemma_pow2_pos(p);
    let e = q * den - num;
    let e_abs = if e < 0 { -e } else { e };
    assert(s.units() * den - n == e * u) by (nonlinear_arith)
        requires
            s.units() == q * u,
            n == num * u,
            e == q * den - num,
    ;
    assert(distance(s, n, den) == e_abs * u) by (nonlinear_arith)
        requires
            s.units() * den - n == e * u,
            u > 0,
            e_abs == (if e < 0 { -e } else { e }),
            distance(s, n, den) == (if s.units() * den - n < 0 { -(s.units() * den - n) } else {
                s.units() * den - n
            }),
    ;
    assert forall|t: Single| t.finite() implies {
        &&& distance(s, n, den) <= #[trigger] distance(t, n, den)
        &&& (distance(s, n, den) == distance(t, n, den) && t.units() != s.units())
            ==> s.bits % 2 == 0
    } by {
        let b = HIDDEN_BIT as int;
        if t.units() >= b * u {
            let j = lemma_multiple(t, p);
            lemma_half_even(num, den, j);
            let g = j * den - num;
            let g_abs = if g < 0 { -g } else { g };
            assert(t.units() * den - n == g * u) by (nonlinear_arith)
                requires
                    t.units() == j * u,
                    n == num * u,
                    g == j * den - num,
            ;
            assert(distance(t, n, den) == g_abs * u) by (nonlinear_arith)
                requires
                    t.units() * den - n == g * u,
                    u > 0,
                    g_abs == (if g < 0 { -g } else { g }),
                    distance(t, n, den) == (if t.units() * den - n < 0 {
                        -(t.units() * den - n)
                    } else {
                        t.units() * den - n
                    }),
            ;
            assert(e_abs * u <= g_abs * u) by (nonlinear_arith)
                requires
                    e_abs <= g_abs,
                    u > 0,
            ;
            assert(e_abs * u == g_abs * u ==> e_abs == g_abs) by (nonlinear_arith)
                requires
                    u > 0,
            ;
            if j == q {
                assert(t.units() == s.units());
            }
        } else {
            lemma_half_even(num, den, b);
            let g = num - b * den;
            assert(b * den == den * b) by (nonlinear_arith);
            assert(t.units() * den < b * u * den) by (nonlinear_arith)
                requires
                    t.units() < b * u,
                    den > 0,
            ;
            assert(n - b * u * den == g * u) by (nonlinear_arith)
                requires
                    n == num * u,
                    g == num - b * den,
            ;
            assert(e_abs * u <= g * u) by (nonlinear_arith)
                requires
                    e_abs <= g,
                    u > 0,
            ;
        }
    }
}

/// Rounding to nearest has one result.
pub proof fn nearest_is_unique(s: Single, t: Single, n: nat, d: nat)
    requires
        d > 0,
        nearest(s, n, d),
        nearest(t, n, d),
    ensures
        s == t,
{
    if s.low() <= t.low() {
        lemma_no_two_nearest(s, t, n, d);
    } else {
        lemma_no_two_nearest(t, s, n, d);
    }
}

/// Two singles that are both nearest agree: were they neighbours, one of their
/// last bits would be set, and were they not, the one between would be nearer.
proof fn lemma_no_two_nearest(s: Single, t: Single, n: nat, d: nat)
    requires
        d > 0,
        nearest(s, n, d),
        nearest(t, n, d),
        s.low() <= t.low(),
    ensures
        s.low() == t.low(),
{
    if s.low() < t.low() {
        lemma_magnitude_increases(s.low(), t.low());
        assert(distance(s, n, d) <= distance(t, n, d));
        assert(distance(t, n, d) <= distance(s, n, d));
        assert(s.units() * d < t.units() * d) by (nonlinear_arith)
            requires
                s.units() < t.units(),
                d > 0,
        ;
        assert(s.bits % 2 == 0);
        assert(t.bits % 2 == 0);
        let between = Single { bits: (s.bits + 1) as u32 };
        assert(between.low() == s.low() + 1);
        lemma_magnitude_increases(s.low(), between.low());
        lemma_magnitude_increases(between.low(), t.low());
        assert(s.units() * d < between.units() * d < t.units() * d) by (nonlinear_arith)
            requires
                s.units() < between.units() < t.units(),
                d > 0,
        ;
        assert(distance(between, n, d) < distance(s, n, d));
    }
}

/// The single nearest to `significand * 2^scale / den` units.
pub(crate) fn quotient(significand: u32, scale: u32, den: u32) -> (s: Single)
    requires
        0 < significand < 2 * HIDDEN_BIT,
        2 <= den <= 0x1_0000,
        40 <= scale <= 253,
    ensures
        nearest(s, significand as nat * pow2(scale as nat), den as nat),
{
    let mut num: u64 = significand as u64;
    let mut shift: u32 = 0;
    let floor: u64 = den as u64 * HIDDEN_BIT as u64;
    proof {
        vstd::arithmetic::power2::lemma2_to64();
        assert(floor >= 2 * HIDDEN_BIT) by (nonlinear_arith)
            requires
                floor == den * HIDDEN_BIT,
                den >= 2,
        ;
    }
    while num < floor
        invariant
            2 <= den <= 0x1_0000,
            floor == den * HIDDEN_BIT,
            0 < num < 2 * floor,
            num == significand * pow2(shift as nat),
            significand > 0,
            shift <= 40,
            shift > 0 ==> num >= pow2(shift as nat),
        decreases 2 * floor - num,
    {
        proof {
            lemma_pow2_unfold((shift + 1) as nat);
            let p = pow2(shift as nat) as int;
            assert(significand * (2 * p) == 2 * (significand * p)) by (nonlinear_arith);
            assert(significand * (2 * p) >= 2 * p) by (nonlinear_arith)
                requires
                    significand > 0,
                    p >= 0,
            ;
            vstd::arithmetic::power2::lemma2_to64();
            if shift == 40 {
                vstd::arithmetic::power2::lemma2_to64_rest();
                assert(false);
            }
        }
        num = num * 2;
        shift = shift + 1;
    }
    let q: u64 = num / den as u64;
    let r: u64 = num % den as u64;
    proof {
        lemma_fundamental_div_mod(num as int, den as int);
        let d = den as int;
        let b = HIDDEN_BIT as int;
        assert(b <= q < 2 * b) by (nonlinear_arith)
            requires
                num == d * q + r,
                0 <= r < d,
                d * b <= num < 2 * (d * b),
                d > 0,
        ;
        assert(shift > 0) by {
            if shift == 0 {
                assert(pow2(0) == 1) by {
                    vstd::arithmetic::power2::lemma2_to64();
                }
            }
        }
    }
    let rounded: u64 = if 2 * r > den as u64 || (2 * r == den as u64 && q % 2 == 1) {
        q + 1
    } else {
        q
    };
    let exponent: u32 = scale - shift + 1;
    let s = Single { bits: exponent * HIDDEN_BIT + (rounded as u32 - HIDDEN_BIT) };
    proof {
        let p = (scale - shift) as nat;
        let rest = (rounded - HIDDEN_BIT) as nat;
        assert(s.low() == s.bits);
        if rest < HIDDEN_BIT {
            assert(s.bits as nat / HIDDEN_BIT as nat == exponent && s.bits as nat % HIDDEN_BIT as nat
                == rest) by {
                vstd::arithmetic::div_mod::lemma_fundamental_div_mod_converse(
                    s.bits as int,
                    HIDDEN_BIT as int,
                    exponent as int,
                    rest as int,
                );
            }
        } else {
            assert(rest == HIDDEN_BIT);
            assert(s.bits as nat / HIDDEN_BIT as nat == exponent + 1 && s.bits as nat
                % HIDDEN_BIT as nat == 0) by {
                vstd::arithmetic::div_mod::lemma_fundamental_div_mod_converse(
                    s.bits as int,
                    HIDDEN_BIT as int,
                    exponent as int + 1,
                    0,
                );
            }
            lemma_pow2_unfold((p + 1) as nat);
            let u = pow2(p) as int;
            assert(HIDDEN_BIT as int * (2 * u) == (2 * HIDDEN_BIT as int) * u) by (nonlinear_arith);
        }
        assert(s.units() == rounded * pow2(p));
        assert(s.bits % 2 == rounded % 2);
        lemma_scaled_quotient_nearest(s, num as nat, den as nat, p);
        lemma_pow2_adds(shift as nat, p);
        let x = pow2(shift as nat) as int;
        let y = pow2(p) as int;
        assert(significand * x * y == significand * (x * y)) by (nonlinear_arith);
    }
    s
}

} // verus!
