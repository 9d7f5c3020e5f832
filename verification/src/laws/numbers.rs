//! What operations on numbers are for.

use vstd::arithmetic::power2::pow2;
use vstd::prelude::*;

use crate::double::Double;
use crate::json::Numeral;
use crate::numerals;

verus! {

/// A number is cut towards zero: the integer is the largest that is no larger in size, of
/// the same sign. What is past the range is held to its ends, and what is no number
/// is 0.
pub proof fn law_numbers_are_cut_towards_zero(d: Double)
    ensures
        ({
            let one = pow2(1074) as int;
            let limit = 0x8000_0000_0000_0000 * one;
            let i = d.cut() as int;
            &&& d.is_nan() ==> i == 0
            &&& d.is_finite() && 0 <= d.units() < limit ==> i * one <= d.units() < (i + 1) * one
            &&& d.is_finite() && -limit < d.units() <= 0 ==> (i - 1) * one < d.units() <= i * one
            &&& d.is_finite() && d.units() >= limit ==> i == i64::MAX
            &&& d.is_finite() && d.units() <= -limit ==> i == i64::MIN
            &&& !d.is_nan() && !d.is_finite() && d.is_negative() ==> i == i64::MIN
            &&& !d.is_nan() && !d.is_finite() && !d.is_negative() ==> i == i64::MAX
        }),
{
    let one = pow2(1074) as int;
    vstd::arithmetic::power2::lemma_pow2_pos(1074);
    let size = d.size() as int;
    let w = d.whole() as int;
    vstd::arithmetic::div_mod::lemma_fundamental_div_mod(size, one);
    vstd::arithmetic::div_mod::lemma_mod_bound(size, one);
    assert(w * one <= size < (w + 1) * one) by (nonlinear_arith)
        requires
            size == one * w + size % one,
            0 <= size % one < one,
    ;
    let top: int = 0x8000_0000_0000_0000;
    assert(size < top * one <==> w < top) by (nonlinear_arith)
        requires
            w * one <= size < (w + 1) * one,
            one > 0,
    ;
    assert(size <= top * one ==> w <= top) by (nonlinear_arith)
        requires
            w * one <= size < (w + 1) * one,
            one > 0,
    ;
    assert((-w - 1) * one == -((w + 1) * one)) by (nonlinear_arith);
    assert((-w) * one == -(w * one)) by (nonlinear_arith);
    assert(0 * one == 0) by (nonlinear_arith);
    assert(1 * one == one) by (nonlinear_arith);
    assert((0 - 1) * one == -one) by (nonlinear_arith);
}

/// Numbers are near where they differ by at most a thousand-millionth, up to the rounding
/// of the difference: closer ones are, and farther ones are not.
pub proof fn law_near_numbers_differ_by_little(a: Double, b: Double)
    requires
        a.is_finite(),
        b.is_finite(),
    ensures
        ({
            let apart = if a.units() >= b.units() {
                a.units() - b.units()
            } else {
                b.units() - a.units()
            };
            &&& apart * 1_000_000_001 <= pow2(1074) ==> a.is_near(b)
            &&& apart * 999_999_999 >= pow2(1074) ==> !a.is_near(b)
        }),
{
    let apart = if a.units() >= b.units() {
        a.units() - b.units()
    } else {
        b.units() - a.units()
    };
    let unit = pow2(991) as int;
    let h: int = 0x22_5c17_d04d_ad29;
    vstd::arithmetic::power2::lemma_pow2_pos(991);
    vstd::arithmetic::power2::lemma_pow2_adds(83, 991);
    vstd::arithmetic::power2::lemma2_to64();
    vstd::arithmetic::power2::lemma_pow2_adds(64, 19);
    let k = pow2(83) as int;
    assert(k == 0x1_0000_0000_0000_0000 * 0x8_0000);
    assert(h * 1_000_000_001 > k && h * 999_999_999 < k);
    assert(pow2(1074) == k * unit);
    assert(apart * 1_000_000_001 <= k * unit ==> apart <= h * unit) by (nonlinear_arith)
        requires
            h * 1_000_000_001 > k,
            unit > 0,
    ;
    assert(apart * 999_999_999 >= k * unit ==> apart > h * unit) by (nonlinear_arith)
        requires
            h * 999_999_999 < k,
            unit > 0,
    ;
}

/// A numeral denotes the same number with zeros before it, and with a plus sign; and with
/// a minus sign its opposite.
pub proof fn law_signs_and_zeros_are_read(s: Seq<char>)
    requires
        numerals::all_digits(s),
    ensures
        numerals::int_of_text(s) is Some,
        numerals::int_of_text(seq!['0'] + s) == numerals::int_of_text(s),
        numerals::int_of_text(seq!['+'] + s) == numerals::int_of_text(s),
        numerals::int_of_text(seq!['-'] + s) == Some(-numerals::int_of_text(s)->0),
        numerals::nat_of_text(s) == Some(numerals::int_of_text(s)->0 as nat),
        numerals::nat_of_text(seq!['+'] + s) == numerals::nat_of_text(s),
        numerals::nat_of_text(seq!['-'] + s) is None,
{
    let zero = seq!['0'] + s;
    let plus = seq!['+'] + s;
    let minus = seq!['-'] + s;
    assert(plus.skip(1) =~= s && minus.skip(1) =~= s);
    assert(!numerals::is_digit(plus[0]) && !numerals::is_digit(minus[0]));
    assert forall|i: int| 0 <= i < zero.len() implies numerals::is_digit(#[trigger] zero[i]) by {
        if i > 0 {
            assert(zero[i] == s[i - 1]);
        }
    }
    lemma_zero_before(s);
}

proof fn lemma_zero_before(s: Seq<char>)
    ensures
        numerals::digits_value(seq!['0'] + s) == numerals::digits_value(s),
    decreases s.len(),
{
    let zero = seq!['0'] + s;
    if s.len() == 0 {
        assert(zero.drop_last() =~= Seq::empty());
        reveal_with_fuel(numerals::digits_value, 2);
    } else {
        assert(zero.drop_last() =~= seq!['0'] + s.drop_last());
        assert(zero.last() == s.last());
        lemma_zero_before(s.drop_last());
    }
}

/// The numeral of an integer is read back as the integer, in its range and not past it.
pub proof fn law_numerals_are_read_in_their_range(i: int)
    ensures
        numerals::int_of_text(numerals::int_text(i)) == Some(i),
        numerals::i64_of_text(numerals::int_text(i)) is Some <==> i64::MIN <= i <= i64::MAX,
        numerals::i64_of_text(numerals::int_text(i)) is Some ==> numerals::i64_of_text(
            numerals::int_text(i),
        )->0 == i,
        i >= 0 ==> (numerals::u64_of_text(numerals::int_text(i)) is Some <==> i <= u64::MAX),
        0 <= i <= u64::MAX ==> numerals::u64_of_text(numerals::int_text(i))->0 == i,
{
    let n: nat = if i < 0 {
        (-i) as nat
    } else {
        i as nat
    };
    numerals::lemma_nat_text(n);
    if i < 0 {
        assert(numerals::int_text(i).skip(1) =~= numerals::nat_text(n));
        assert(!numerals::is_digit(numerals::int_text(i)[0]));
    }
}

/// The JSON number for an integer is the integer, and its text is its numeral.
pub proof fn law_integers_stay_integers(i: i64)
    ensures
        Numeral::of_int(i).integer() == Some(i),
        Numeral::of_int(i).text() == numerals::int_text(i as int),
        Numeral::of_int(i).double() == Double::of_int(i as int),
{
}

/// An integer of more than 53 binary digits becomes the nearest number: the two differ by
/// at most half of the step between the numbers of that size, and where by just half, the
/// number has an even significand.
pub proof fn law_large_integers_are_rounded_to_the_nearest(n: nat, k: nat)
    requires
        53 <= k < 64,
        pow2(k) <= n < 2 * pow2(k),
    ensures
        ({
            let d = Double::of_int(n as int);
            let one = pow2(1074) as int;
            let step = pow2((k - 52) as nat) as int;
            let off = d.units() - n * one;
            &&& d.is_finite() && !d.is_negative()
            &&& 2 * off <= step * one
            &&& -2 * off <= step * one
            &&& 2 * off == step * one || -2 * off == step * one ==> d.significand() % 2 == 0
        }),
{
    crate::double::lemma_halvings_are(n, k);
    let top = pow2(k) as int;
    let p = pow2((k - 52) as nat) as int;
    let one = pow2(1074) as int;
    let field: int = 0x10_0000_0000_0000;
    vstd::arithmetic::power2::lemma2_to64();
    vstd::arithmetic::power2::lemma2_to64_rest();
    vstd::arithmetic::power2::lemma_pow2_pos((k - 52) as nat);
    vstd::arithmetic::power2::lemma_pow2_pos(1074);
    vstd::arithmetic::power2::lemma_pow2_adds(52, (k - 52) as nat);
    vstd::arithmetic::power2::lemma_pow2_adds((k - 52) as nat, 1074);
    vstd::arithmetic::power2::lemma_pow2_unfold(1023 + k);
    assert(pow2(52) == field);
    assert(top == field * p);
    let rest = n - top;
    let q = rest / p;
    let r = rest % p;
    vstd::arithmetic::div_mod::lemma_fundamental_div_mod(rest, p);
    vstd::arithmetic::div_mod::lemma_mod_bound(rest, p);
    assert(0 <= q < field) by (nonlinear_arith)
        requires
            rest == p * q + r,
            0 <= r < p,
            0 <= rest < field * p,
            p > 0,
    ;
    let f = crate::double::nearest(rest as nat, p as nat) as int;
    assert(f == q || f == q + 1);
    let d = Double::of_int(n as int);
    let bits = (1023 + k) * field + f;
    assert(crate::double::nat_bits(n) == bits);
    assert(bits < 1100 * field) by (nonlinear_arith)
        requires
            bits == (1023 + k) * field + f,
            k < 64,
            f <= field,
            field > 0,
    ;
    assert(0 <= bits) by (nonlinear_arith)
        requires
            bits == (1023 + k) * field + f,
            f >= 0,
            field > 0,
    ;
    assert(d.bits == bits);
    let unit = pow2((1022 + k) as nat) as int;
    assert(unit == p * one);
    if f < field {
        assert(bits / field == 1023 + k && bits % field == f) by (nonlinear_arith)
            requires
                bits == (1023 + k) * field + f,
                0 <= f < field,
        ;
        assert(d.significand() == field + f);
        assert(d.size() == (field + f) * unit);
    } else {
        assert(bits / field == 1024 + k && bits % field == 0) by (nonlinear_arith)
            requires
                bits == (1023 + k) * field + f,
                f == field,
                field > 0,
        ;
        assert(d.significand() == field);
        assert(pow2((1023 + k) as nat) == 2 * unit);
        assert(d.size() == (field + f) * unit) by (nonlinear_arith)
            requires
                d.size() == field * (2 * unit),
                f == field,
        ;
    }
    assert(d.units() == (field + f) * (p * one));
    let off = d.units() - n * one;
    assert(off == ((f - q) * p - r) * one) by (nonlinear_arith)
        requires
            off == (field + f) * (p * one) - n * one,
            n == field * p + (p * q + r),
    ;
    let e = (f - q) * p - r;
    assert(e == if f == q {
        -r
    } else {
        p - r
    }) by (nonlinear_arith)
        requires
            e == (f - q) * p - r,
            f == q || f == q + 1,
    ;
    assert(2 * e <= p && -2 * e <= p);
    assert(2 * off <= p * one && -2 * off <= p * one && (2 * off == p * one ==> 2 * e == p) && (-2
        * off == p * one ==> -2 * e == p)) by (nonlinear_arith)
        requires
            off == e * one,
            2 * e <= p,
            -2 * e <= p,
            one > 0,
    ;
}

} // verus!
