//! Numbers, and numbers as text.

use crate::decimal::{decimal, decimal_text, format_tenths, tenths};
use crate::rounding::lemma_half_even;
use crate::single::{magnitude, numbers_are_ordered_by_their_bits, Single};
use crate::text::digits_value;
use vstd::arithmetic::power2::{lemma_pow2_pos, pow2};
use vstd::prelude::*;

verus! {

/// Every single is a NaN, an infinity or finite, as its bits without the sign
/// lie above, at or below those of infinity.
pub proof fn singles_have_three_kinds(s: Single, nan: bool, infinite: bool, finite: bool)
    requires
        call_ensures(Single::is_nan, (s,), nan),
        call_ensures(Single::is_infinite, (s,), infinite),
        call_ensures(Single::is_finite, (s,), finite),
    ensures
        nan <==> s.bits % 0x8000_0000 > 0x7f80_0000,
        infinite <==> s.bits % 0x8000_0000 == 0x7f80_0000,
        finite <==> s.bits % 0x8000_0000 < 0x7f80_0000,
        nan == s.nan() && infinite == s.infinite() && finite == s.finite(),
        s.negative() <==> s.bits >= 0x8000_0000,
{
}

/// The signed distance of a number from zero, in steps from one single to the
/// next.
pub open spec fn steps_from_zero(s: Single) -> int {
    if s.bits < 0x8000_0000 {
        s.bits as int
    } else {
        0x8000_0000 - s.bits
    }
}

/// Comparing numbers compares their places among all singles, and nothing
/// compares with a NaN. A positive number is one to infinity steps above zero.
pub proof fn comparisons_follow_the_bits(
    a: Single,
    b: Single,
    a_ge_b: bool,
    a_gt_b: bool,
    positive: bool,
)
    requires
        call_ensures(Single::ge, (a, b), a_ge_b),
        call_ensures(Single::gt, (a, b), a_gt_b),
        call_ensures(Single::is_positive, (a,), positive),
    ensures
        ({
            let numbers = a.bits % 0x8000_0000 <= 0x7f80_0000 && b.bits % 0x8000_0000
                <= 0x7f80_0000;
            &&& a_ge_b <==> numbers && steps_from_zero(a) >= steps_from_zero(b)
            &&& a_gt_b <==> numbers && steps_from_zero(a) > steps_from_zero(b)
        }),
        positive <==> 0 < a.bits <= 0x7f80_0000,
        a_ge_b == a.at_least(b) && a_gt_b == a.above(b),
{
    numbers_are_ordered_by_their_bits(a, b);
    numbers_are_ordered_by_their_bits(b, a);
    numbers_are_ordered_by_their_bits(Single { bits: 0 }, a);
    assert(magnitude(0) == 0);
}

/// Of two numbers one is at least the other, both are only where they are equal,
/// and the order goes on from one to the next.
pub proof fn numbers_form_an_order(a: Single, b: Single, c: Single)
    requires
        !a.nan() && !b.nan() && !c.nan(),
    ensures
        a.at_least(b) || b.at_least(a),
        a.at_least(b) && b.at_least(a) <==> a.units() == b.units(),
        a.at_least(b) && b.at_least(c) ==> a.at_least(c),
        a.above(b) <==> !b.at_least(a),
{
}

/// Numbers are written with decimal digits, without leading zeros, and a digit
/// more stands for ten times the value. So the digits give the number back.
pub proof fn decimal_digits_give_the_number_back(
    n: u128,
    text: String,
    d: u8,
    longer: u128,
    longer_text: String,
)
    requires
        call_ensures(decimal_text, (n,), text),
        call_ensures(decimal_text, (longer,), longer_text),
        d < 10,
        longer == 10 * n + d,
    ensures
        n < 10 ==> text@ == seq![(48 + n) as char],
        n > 0 ==> longer_text@ == text@.push((48 + d) as char),
        text@.len() > 0,
        text@.len() > 1 ==> text@[0] != '0',
        forall|i: int| 0 <= i < text@.len() ==> '0' <= #[trigger] text@[i] <= '9',
        digits_value(text@) == n,
{
    lemma_decimal(n as nat);
    assert(longer / 10 == n && longer % 10 == d);
}

/// A number as text is not empty, made of digits, without a leading zero, and
/// its digits give the number back.
pub proof fn lemma_decimal(n: nat)
    ensures
        decimal(n).len() > 0,
        n > 0 ==> decimal(n)[0] != '0',
        decimal(n).len() > 1 ==> n >= 10,
        forall|i: int| 0 <= i < decimal(n).len() ==> '0' <= #[trigger] decimal(n)[i] <= '9',
        digits_value(decimal(n)) == n,
    decreases n,
{
    if n >= 10 {
        lemma_decimal(n / 10);
        let c = decimal(n).last();
        assert(c == (48 + n % 10) as char);
        assert(c as nat == 48 + n % 10);
        assert(decimal(n).drop_last() =~= decimal(n / 10));
    } else {
        let c = decimal(n).last();
        assert(c as nat == 48 + n);
        assert(decimal(n).drop_last() =~= Seq::<char>::empty());
        assert(digits_value(decimal(n).drop_last()) == 0);
    }
}

/// The absolute value of an integer.
pub open spec fn absolute(x: int) -> int {
    if x < 0 {
        -x
    } else {
        x
    }
}

/// `text` is `t` tenths with one digit after the point and the sign of `s`.
pub open spec fn spells_tenths(text: Seq<char>, s: Single, t: nat) -> bool {
    text == (if s.bits >= 0x8000_0000 {
        seq!['-']
    } else {
        Seq::<char>::empty()
    }) + decimal(t / 10) + seq!['.', (48 + t % 10) as char]
}

/// No whole number of tenths is nearer to a number's magnitude than `t`, which
/// is even where another is as near.
pub open spec fn is_nearest_tenth(s: Single, t: nat) -> bool {
    let gap = absolute(t * pow2(149) - 10 * absolute(s.units()));
    &&& 2 * gap <= pow2(149)
    &&& 2 * gap == pow2(149) ==> t % 2 == 0
}

/// A finite number is written with its sign and its nearest whole number of
/// tenths, an even one where two are as near.
pub proof fn tenths_are_the_nearest(s: Single, text: String)
    requires
        call_ensures(format_tenths, (s,), text),
    ensures
        s.bits % 0x8000_0000 > 0x7f80_0000 ==> text@ == "NaN"@,
        s.bits == 0x7f80_0000 ==> text@ == "inf"@,
        s.bits == 0xff80_0000 ==> text@ == "-inf"@,
        s.bits % 0x8000_0000 < 0x7f80_0000 ==> exists|t: nat| #[trigger]
            spells_tenths(text@, s, t) && is_nearest_tenth(s, t),
{
    reveal_strlit("");
    reveal_strlit("-");
    reveal_strlit(".");
    reveal_strlit("inf");
    reveal_strlit("-inf");
    if s.bits == 0x7f80_0000 {
        assert(text@ =~= "inf"@);
    }
    if s.bits == 0xff80_0000 {
        assert(text@ =~= "-inf"@);
    }
    if s.bits % 0x8000_0000 < 0x7f80_0000 {
        let t = tenths(s);
        let n = magnitude(s.low()) * 10;
        lemma_pow2_pos(149);
        lemma_half_even(n, pow2(149), (t + 1) as int);
        lemma_half_even(n, pow2(149), t - 1);
        let p = pow2(149) as int;
        assert((t + 1) * p == t * p + p) by (nonlinear_arith);
        assert((t - 1) * p == t * p - p) by (nonlinear_arith);
        assert(absolute(s.units()) == magnitude(s.low()));
        assert(text@ =~= (if s.bits >= 0x8000_0000 {
            seq!['-']
        } else {
            Seq::<char>::empty()
        }) + decimal(t / 10) + seq!['.', (48 + t % 10) as char]);
        assert(spells_tenths(text@, s, t));
    }
}

} // verus!
