//! Decimal text: of integers, and of singles with one digit after the point.

use crate::rounding::{half_even, lemma_half_even};
use crate::single::{magnitude, Single, HIDDEN_BIT, SIGN_BIT};
use vstd::arithmetic::div_mod::{lemma_fundamental_div_mod, lemma_fundamental_div_mod_converse};
use vstd::arithmetic::power2::{
    lemma2_to64, lemma2_to64_rest, lemma_pow2_adds, lemma_pow2_pos, lemma_pow2_strictly_increases,
    lemma_pow2_unfold, pow2,
};
use vstd::prelude::*;
use vstd::string::*;

verus! {

/// The character of a decimal digit.
pub open spec fn digit(d: nat) -> char
    recommends
        d < 10,
{
    (48 + d) as char
}

/// The decimal digits of `n`, most significant first, without leading zeros.
pub open spec fn decimal(n: nat) -> Seq<char>
    decreases n,
{
    if n < 10 {
        seq![digit(n)]
    } else {
        decimal(n / 10).push(digit(n % 10))
    }
}

/// The magnitude of a finite single in tenths, rounded to the nearest with
/// ties to even.
pub open spec fn tenths(s: Single) -> nat {
    half_even(magnitude(s.low()) * 10, pow2(149))
}

/// A single with one digit after the decimal point.
pub open spec fn tenths_text(s: Single) -> Seq<char> {
    if s.nan() {
        "NaN"@
    } else {
        let sign = if s.negative() {
            "-"@
        } else {
            ""@
        };
        if s.infinite() {
            sign + "inf"@
        } else {
            sign + decimal(tenths(s) / 10) + "."@ + seq![digit(tenths(s) % 10)]
        }
    }
}

fn digit_text(d: u8) -> (r: &'static str)
    requires
        d < 10,
    ensures
        r@ == seq![digit(d as nat)],
{
    proof {
        reveal_strlit("0");
        reveal_strlit("1");
        reveal_strlit("2");
        reveal_strlit("3");
        reveal_strlit("4");
        reveal_strlit("5");
        reveal_strlit("6");
        reveal_strlit("7");
        reveal_strlit("8");
        reveal_strlit("9");
    }
    match d {
        0 => "0",
        1 => "1",
        2 => "2",
        3 => "3",
        4 => "4",
        5 => "5",
        6 => "6",
        7 => "7",
        8 => "8",
        _ => "9",
    }
}

/// Writes `n` in decimal.
pub fn decimal_text(n: u128) -> (r: String)
    ensures
        r@ == decimal(n as nat),
    decreases n,
{
    if n < 10 {
        digit_text(n as u8).to_string()
    } else {
        let mut text = decimal_text(n / 10);
        text.append(digit_text((n % 10) as u8));
        text
    }
}

fn power_of_two(k: u32) -> (r: u128)
    requires
        k < 128,
    ensures
        r == pow2(k as nat),
{
    let mut r: u128 = 1;
    let mut i: u32 = 0;
    proof {
        lemma2_to64();
    }
    while i < k
        invariant
            i <= k < 128,
            r == pow2(i as nat),
        decreases k - i,
    {
        proof {
            lemma_pow2_unfold((i + 1) as nat);
            if i + 1 < 127 {
                lemma_pow2_strictly_increases((i + 1) as nat, 127);
            }
            lemma2_to64_rest();
            lemma2_to64();
            lemma_pow2_adds(63, 64);
        }
        r = r * 2;
        i = i + 1;
    }
    r
}

/// A common factor does not change the nearest integer of a quotient.
proof fn lemma_half_even_scales(a: nat, b: nat, c: nat)
    requires
        b > 0,
        c > 0,
    ensures
        half_even(a * c, b * c) == half_even(a, b),
{
    let q = (a / b) as int;
    let r = (a % b) as int;
    lemma_fundamental_div_mod(a as int, b as int);
    assert(0 <= r < b);
    assert(a * c == q * (b * c) + r * c) by (nonlinear_arith)
        requires
            a == b * q + r,
    ;
    assert(0 <= r * c < b * c) by (nonlinear_arith)
        requires
            0 <= r < b,
            c > 0,
    ;
    lemma_fundamental_div_mod_converse((a * c) as int, (b * c) as int, q, r * c);
    assert(2 * r > b <==> 2 * (r * c) > b * c) by (nonlinear_arith)
        requires
            c > 0,
    ;
    assert(2 * r == b <==> 2 * (r * c) == b * c) by (nonlinear_arith)
        requires
            c > 0,
    ;
}

/// The whole part and the tenths digit of a finite single.
fn split_tenths(s: Single) -> (r: (u128, u8))
    requires
        s.finite(),
    ensures
        r.0 == tenths(s) / 10,
        r.1 == tenths(s) % 10,
{
    let low = s.bits % SIGN_BIT;
    let exponent = low / HIDDEN_BIT;
    let fraction = low % HIDDEN_BIT;
    let significand: u32 = if exponent == 0 {
        fraction
    } else {
        HIDDEN_BIT + fraction
    };
    let scale: u32 = if exponent == 0 {
        0
    } else {
        exponent - 1
    };
    let ghost m = significand as nat;
    let ghost p = scale as nat;
    proof {
        lemma2_to64();
        if exponent == 0 {
            assert(m * pow2(p) == m) by (nonlinear_arith)
                requires
                    pow2(p) == 1,
            ;
        }
        assert(magnitude(s.low()) == m * pow2(p));
        assert(m * pow2(p) * 10 == (m * 10) * pow2(p)) by (nonlinear_arith);
        lemma_pow2_pos(p);
    }
    if scale >= 149 {
        let factor = power_of_two(scale - 149);
        proof {
            let k = (p - 149) as nat;
            lemma_pow2_adds(k, 149);
            lemma_pow2_pos(149);
            let c = pow2(149) as int;
            let f = factor as int;
            assert((m * 10) * pow2(p) == ((m * f) * 10) * c) by (nonlinear_arith)
                requires
                    pow2(p) == f * c,
            ;
            lemma_half_even_scales((m * factor as nat) * 10, 1, pow2(149));
            assert(tenths(s) == (m * factor as nat) * 10);
            if k < 104 {
                lemma_pow2_strictly_increases(k, 104);
            }
            lemma_pow2_adds(40, 64);
            lemma2_to64_rest();
            assert(m * f < 0x100_0000 * 0x100_0000_0000 * 0x1_0000_0000_0000_0000) by (nonlinear_arith)
                requires
                    0 <= m < 0x100_0000,
                    0 <= f <= 0x100_0000_0000 * 0x1_0000_0000_0000_0000,
            ;
        }
        let whole: u128 = significand as u128 * factor;
        (whole, 0)
    } else {
        let k: u32 = 149 - scale;
        proof {
            lemma_pow2_adds(k as nat, p);
            lemma_pow2_pos(k as nat);
            lemma_half_even_scales(m * 10, pow2(k as nat), pow2(p));
            assert(tenths(s) == half_even(m * 10, pow2(k as nat)));
        }
        if k > 40 {
            proof {
                lemma2_to64_rest();
                if k > 41 {
                    lemma_pow2_strictly_increases(41, k as nat);
                }
                lemma_fundamental_div_mod_converse((m * 10) as int, pow2(k as nat) as int, 0, (m * 10) as int);
            }
            (0, 0)
        } else {
            let d = power_of_two(k);
            let n: u128 = significand as u128 * 10;
            let q: u128 = n / d;
            let r: u128 = n % d;
            proof {
                lemma2_to64_rest();
                if k < 40 {
                    lemma_pow2_strictly_increases(k as nat, 40);
                }
                lemma_fundamental_div_mod(n as int, d as int);
                assert(q <= n) by (nonlinear_arith)
                    requires
                        n == d * q + r,
                        d >= 1,
                        r >= 0,
                        q >= 0,
                ;
            }
            let t: u128 = if 2 * r > d || (2 * r == d && q % 2 == 1) {
                q + 1
            } else {
                q
            };
            (t / 10, (t % 10) as u8)
        }
    }
}

/// Writes a single with one digit after the decimal point.
pub fn format_tenths(s: Single) -> (r: String)
    ensures
        r@ == tenths_text(s),
{
    if s.is_nan() {
        return "NaN".to_string();
    }
    let mut text = if s.bits >= SIGN_BIT {
        "-".to_string()
    } else {
        "".to_string()
    };
    if s.is_infinite() {
        text.append("inf");
        return text;
    }
    let (whole, tenth) = split_tenths(s);
    text.append(decimal_text(whole).as_str());
    text.append(".");
    text.append(digit_text(tenth));
    text
}

/// The printed tenths lie within half a tenth of the number.
pub proof fn printed_tenths_are_close(s: Single)
    ensures
        -pow2(149) <= 2 * (tenths(s) * pow2(149) - magnitude(s.low()) * 10) <= pow2(149),
{
    lemma_pow2_pos(149);
    lemma_half_even(magnitude(s.low()) * 10, pow2(149), 0);
}

} // verus!
