//! Rounding to nearest, and how far a rounded number lies from the exact
//! one.
//!
//! IEEE-754 arithmetic returns, for a sum, product, quotient or root that
//! does not overflow, a double nearest to the exact result. For an exact
//! result in the normal range, such a double is off by at most one part
//! in 2^53.

use vstd::arithmetic::power2::{lemma_pow2_adds, lemma_pow2_pos, pow2};
use vstd::prelude::*;

use crate::arithmetic::Arithmetic;
use crate::exact::{exact_value, lemma_exact_integer, lemma_exact_order};
use crate::ieee::{magnitude_of, scale_exponent, Real, FRACTION_SPAN, INFINITY_PAYLOAD};
use crate::ieee_lemmas::{
    lemma_below_on_bits, lemma_magnitude_orders_like_payload, lemma_small_constants,
};

verus! {

/// Pattern of the smallest positive normal number, 2^-1022.
pub const LEAST_NORMAL_BITS: u64 = 0x0010_0000_0000_0000;

/// Pattern of the largest finite number.
pub const GREATEST_BITS: u64 = 0x7fef_ffff_ffff_ffff;

/// 2^-1022.
pub open spec fn least_normal() -> Real {
    Real { bits: LEAST_NORMAL_BITS }
}

/// The largest finite number.
pub open spec fn greatest() -> Real {
    Real { bits: GREATEST_BITS }
}

/// `|x - y|`.
pub open spec fn distance(x: real, y: real) -> real {
    if x >= y {
        x - y
    } else {
        y - x
    }
}

/// `r` is a finite double, and no finite double lies nearer to `x`.
pub open spec fn nearest(x: real, r: Real) -> bool {
    r.finite() && forall|d: Real| #[trigger]
        d.finite() ==> distance(exact_value(r), x) <= distance(exact_value(d), x)
}

/// `r` is a finite double that is not negative, and no such double lies
/// nearer to the root of `a`: `a` lies between the squares of the means
/// of `r` and any lesser such double and of `r` and any greater one.
pub open spec fn nearest_root(a: real, r: Real) -> bool {
    r.finite() && exact_value(r) >= 0real && forall|d: Real| #[trigger]
        d.finite() && exact_value(d) >= 0real ==> (exact_value(d) > exact_value(r) ==> 4real * a
            <= (exact_value(r) + exact_value(d)) * (exact_value(r) + exact_value(d))) && (
        exact_value(d) < exact_value(r) ==> (exact_value(r) + exact_value(d)) * (exact_value(r)
            + exact_value(d)) <= 4real * a)
}

/// The exact result does not overflow: it lies between the largest finite
/// number and its negative.
pub open spec fn in_range(x: real) -> bool {
    -exact_value(greatest()) <= x <= exact_value(greatest())
}

/// The arithmetic rounds to nearest, as IEEE-754 arithmetic does: on
/// finite operands, a sum, difference, product or quotient that does not
/// overflow comes back as a double nearest to the exact result, and so
/// does the root of a number that is not negative. Nothing is asked of
/// powers.
pub open spec fn rounds_to_nearest<A: Arithmetic>(fpu: &A) -> bool {
    &&& forall|a: Real, b: Real, r: Real| #[trigger]
        call_ensures(A::sum, (fpu, a, b), r) && a.finite() && b.finite() && in_range(
            exact_value(a) + exact_value(b),
        ) ==> nearest(exact_value(a) + exact_value(b), r)
    &&& forall|a: Real, b: Real, r: Real| #[trigger]
        call_ensures(A::difference, (fpu, a, b), r) && a.finite() && b.finite() && in_range(
            exact_value(a) - exact_value(b),
        ) ==> nearest(exact_value(a) - exact_value(b), r)
    &&& forall|a: Real, b: Real, r: Real| #[trigger]
        call_ensures(A::product, (fpu, a, b), r) && a.finite() && b.finite() && in_range(
            exact_value(a) * exact_value(b),
        ) ==> nearest(exact_value(a) * exact_value(b), r)
    &&& forall|a: Real, b: Real, r: Real| #[trigger]
        call_ensures(A::quotient, (fpu, a, b), r) && a.finite() && b.finite() && exact_value(b)
            != 0real && in_range(exact_value(a) / exact_value(b)) ==> nearest(
            exact_value(a) / exact_value(b),
            r,
        )
    &&& forall|a: Real, r: Real| #[trigger]
        call_ensures(A::square_root, (fpu, a), r) && a.finite() && exact_value(a) >= 0real
            ==> nearest_root(exact_value(a), r)
}

/// The third power comes back within one unit in the last place: for a
/// positive base whose exact cube lies in the normal range, the double
/// returned is within one part in 2^52 of that cube.
pub open spec fn cubes_accurately<A: Arithmetic>(fpu: &A) -> bool {
    forall|base: Real, r: Real| #[trigger]
        call_ensures(A::power, (fpu, base, Real::three()), r) && base.finite() && exact_value(
            base,
        ) > 0real && exact_value(least_normal()) <= exact_value(base) * exact_value(base)
            * exact_value(base) <= exact_value(greatest()) ==> r.finite() && distance(
            exact_value(r),
            exact_value(base) * exact_value(base) * exact_value(base),
        ) * 4503599627370496real <= exact_value(base) * exact_value(base) * exact_value(base)
}

/// The arithmetic follows the sign rules of IEEE-754: a product or a
/// quotient of two numbers whose sign bits are clear, or the root of one,
/// is a NaN or has its sign bit clear in turn, and any operation on a NaN
/// gives a NaN.
pub open spec fn follows_sign_rules<A: Arithmetic>(fpu: &A) -> bool {
    &&& forall|a: Real, b: Real, r: Real| #[trigger]
        call_ensures(A::product, (fpu, a, b), r) ==> if a.nan() || b.nan() {
            r.nan()
        } else {
            !a.negative() && !b.negative() ==> r.nan() || !r.negative()
        }
    &&& forall|a: Real, b: Real, r: Real| #[trigger]
        call_ensures(A::quotient, (fpu, a, b), r) ==> if a.nan() || b.nan() {
            r.nan()
        } else {
            !a.negative() && !b.negative() ==> r.nan() || !r.negative()
        }
    &&& forall|a: Real, r: Real| #[trigger]
        call_ensures(A::square_root, (fpu, a), r) ==> if a.nan() {
            r.nan()
        } else {
            !a.negative() ==> r.nan() || !r.negative()
        }
}

/// The scaled value of a double is its exact value times 2^1074.
pub proof fn lemma_scaled_value(d: Real)
    ensures
        exact_value(d) * (pow2(scale_exponent()) as real) == d.scaled() as real,
{
    let step = pow2(scale_exponent());
    lemma_pow2_pos(scale_exponent());
    let s = d.scaled();
    assert(((s as real) / (step as real)) * (step as real) == s as real) by (nonlinear_arith)
        requires
            step > 0,
    ;
}

/// From a normal payload to the next, the magnitude grows by the step of
/// the payload's binade, which is at most one part in 2^52 of the
/// magnitude.
pub proof fn lemma_step_to_next(p: nat)
    requires
        FRACTION_SPAN <= p < INFINITY_PAYLOAD,
    ensures
        magnitude_of(p + 1) == magnitude_of(p) + pow2((p / (FRACTION_SPAN as nat) - 1) as nat),
        magnitude_of(p) >= FRACTION_SPAN * pow2((p / (FRACTION_SPAN as nat) - 1) as nat),
{
    let span = FRACTION_SPAN as nat;
    let e = p / span;
    let f = p % span;
    let w = pow2((e - 1) as nat);
    lemma_pow2_pos((e - 1) as nat);
    assert(span * w <= (span + f) * w) by (nonlinear_arith)
        requires
            w > 0,
    ;
    if f + 1 < span {
        assert((p + 1) / span == e && (p + 1) % span == f + 1);
        assert((span + (f + 1)) * w == (span + f) * w + w) by (nonlinear_arith);
    } else {
        assert((p + 1) / span == e + 1 && (p + 1) % span == 0);
        lemma_pow2_adds(1, (e - 1) as nat);
        assert(pow2(1) == 2) by {
            vstd::arithmetic::power2::lemma2_to64();
        }
        assert(pow2(e) == 2 * w);
        assert((span + 0) * (2 * w) == (span + f) * w + w) by (nonlinear_arith)
            requires
                f + 1 == span,
        ;
    }
}

/// The largest normal payload whose magnitude is at most `x`, found by
/// going down from `p`.
proof fn lemma_payload_below(x: real, p: nat) -> (q: nat)
    requires
        FRACTION_SPAN <= p < INFINITY_PAYLOAD,
        magnitude_of(FRACTION_SPAN as nat) as real <= x,
        p + 1 == INFINITY_PAYLOAD || x < magnitude_of(p + 1) as real,
    ensures
        FRACTION_SPAN <= q <= p,
        magnitude_of(q) as real <= x,
        q + 1 == INFINITY_PAYLOAD || x < magnitude_of(q + 1) as real,
    decreases p,
{
    if magnitude_of(p) as real <= x {
        p
    } else {
        lemma_payload_below(x, (p - 1) as nat)
    }
}

/// A double nearest to a number of the normal range is off by at most one
/// part in 2^53.
pub proof fn lemma_nearest_is_accurate(x: real, r: Real)
    requires
        nearest(x, r),
        exact_value(least_normal()) <= x <= exact_value(greatest()),
    ensures
        distance(exact_value(r), x) * 9007199254740992real <= x,
{
    let unit = pow2(scale_exponent()) as real;
    lemma_pow2_pos(scale_exponent());
    lemma_scaled_value(least_normal());
    lemma_scaled_value(greatest());
    lemma_scaled_value(r);
    let big = x * unit;
    let least = magnitude_of(FRACTION_SPAN as nat);
    let most = magnitude_of((INFINITY_PAYLOAD - 1) as nat);
    assert(least_normal().scaled() == least);
    assert(greatest().scaled() == most);
    assert(least as real <= big <= most as real) by (nonlinear_arith)
        requires
            exact_value(least_normal()) <= x <= exact_value(greatest()),
            exact_value(least_normal()) * unit == least as real,
            exact_value(greatest()) * unit == most as real,
            big == x * unit,
            unit > 0real,
    ;
    assert(x >= 0real) by (nonlinear_arith)
        requires
            0real <= x * unit,
            unit > 0real,
    ;
    let q = lemma_payload_below(big, (INFINITY_PAYLOAD - 1) as nat);
    let low = Real { bits: q as u64 };
    assert(low.finite() && low.scaled() == magnitude_of(q));
    lemma_scaled_value(low);
    let under = magnitude_of(q) as real;
    lemma_step_to_next(q);
    let step = pow2((q / (FRACTION_SPAN as nat) - 1) as nat) as real;
    assert(step * 4503599627370496real <= under);
    let off = distance(exact_value(r), x);
    assert(off <= distance(exact_value(low), x));
    assert(distance(exact_value(low), x) * unit == big - under) by (nonlinear_arith)
        requires
            exact_value(low) * unit == under,
            big == x * unit,
            under <= big,
            unit > 0real,
    ;
    if q + 1 == INFINITY_PAYLOAD {
        assert(big == under);
        assert(off * unit <= 0real) by (nonlinear_arith)
            requires
                off <= distance(exact_value(low), x),
                distance(exact_value(low), x) * unit == big - under,
                big == under,
                unit > 0real,
        ;
        assert(off * 9007199254740992real <= x) by (nonlinear_arith)
            requires
                off * unit <= 0real,
                unit > 0real,
                x >= 0real,
                off >= 0real,
        ;
    } else {
        let high = Real { bits: (q + 1) as u64 };
        assert(high.finite() && high.scaled() == magnitude_of(q + 1));
        lemma_scaled_value(high);
        assert(off <= distance(exact_value(high), x));
        assert(distance(exact_value(high), x) * unit == under + step - big) by (nonlinear_arith)
            requires
                exact_value(high) * unit == under + step,
                big == x * unit,
                big < under + step,
                unit > 0real,
        ;
        assert(off * unit * 2real <= step) by (nonlinear_arith)
            requires
                off <= distance(exact_value(low), x),
                off <= distance(exact_value(high), x),
                distance(exact_value(low), x) * unit == big - under,
                distance(exact_value(high), x) * unit == under + step - big,
                unit > 0real,
        ;
        assert(off * 9007199254740992real <= x) by (nonlinear_arith)
            requires
                off * unit * 2real <= step,
                step * 4503599627370496real <= under,
                under <= big,
                big == x * unit,
                unit > 0real,
        ;
    }
}

/// Where the exact result is itself a double, rounding to nearest
/// returns it.
pub proof fn lemma_nearest_of_a_double(x: real, r: Real, d: Real)
    requires
        nearest(x, r),
        d.finite(),
        exact_value(d) == x,
    ensures
        exact_value(r) == x,
{
}

/// Rounding to nearest keeps to the side of every double: a number
/// between two doubles is rounded to a double between them.
pub proof fn lemma_nearest_keeps_between(x: real, r: Real, low: Real, high: Real)
    requires
        nearest(x, r),
        low.finite(),
        high.finite(),
        exact_value(low) <= x <= exact_value(high),
    ensures
        exact_value(low) <= exact_value(r) <= exact_value(high),
{
}

/// The greatest double below 1 is `1 - 2^-53`.
pub proof fn lemma_below_one(e: Real)
    requires
        e.finite(),
        e.below(Real::one()),
    ensures
        exact_value(e) * 9007199254740992real <= 9007199254740991real,
{
    let before = Real { bits: 0x3fef_ffff_ffff_ffff };
    lemma_below_on_bits(e, Real::one());
    crate::ieee_lemmas::lemma_at_most_on_bits(e, before);
    lemma_exact_order(e, before);
    lemma_small_constants();
    lemma_exact_integer(Real::one(), 1);
    lemma_step_to_next(0x3fef_ffff_ffff_ffff);
    lemma_scaled_value(before);
    lemma_scaled_value(Real::one());
    let unit = pow2(scale_exponent()) as real;
    lemma_pow2_pos(scale_exponent());
    let step = pow2(1021);
    assert(0x3fef_ffff_ffff_ffffnat / (FRACTION_SPAN as nat) == 1022);
    assert(Real::one().scaled() == before.scaled() + step);
    lemma_pow2_adds(1021, 53);
    assert(pow2(53) == 9007199254740992) by {
        vstd::arithmetic::power2::lemma2_to64();
        vstd::arithmetic::power2::lemma2_to64_rest();
    }
    assert(pow2(scale_exponent()) == step * 9007199254740992);
    let b = exact_value(before);
    assert(b * 9007199254740992real == 9007199254740991real) by (nonlinear_arith)
        requires
            b * unit == (before.scaled() as real),
            1real * unit == (before.scaled() + step) as real,
            unit == (step * 9007199254740992) as real,
            step > 0,
    ;
}

/// Rounding a number between 0 and 1 is off by at most 2^-53, and gives a
/// number between 0 and 1.
pub proof fn lemma_nearest_in_unit_interval(x: real, r: Real)
    requires
        nearest(x, r),
        0real <= x <= 1real,
    ensures
        0real <= exact_value(r) <= 1real,
        distance(exact_value(r), x) * 9007199254740992real <= 1real,
{
    lemma_small_constants();
    lemma_exact_integer(Real::zero(), 0);
    lemma_exact_integer(Real::one(), 1);
    lemma_normal_range();
    lemma_normal_range_is_wide();
    lemma_nearest_keeps_between(x, r, Real::zero(), Real::one());
    let least = exact_value(least_normal());
    if x >= least {
        lemma_nearest_is_accurate(x, r);
    } else {
        lemma_nearest_keeps_between(x, r, Real::zero(), least_normal());
        assert(least * 9007199254740992real <= 1real) by (nonlinear_arith)
            requires
                least * ten_to_the_300() <= 1real,
                least > 0real,
                ten_to_the_300() >= 9007199254740992real,
        ;
    }
}

/// Rounding to nearest does not leave the normal range.
pub proof fn lemma_nearest_stays_normal(x: real, r: Real)
    requires
        nearest(x, r),
        exact_value(least_normal()) <= x <= exact_value(greatest()),
    ensures
        exact_value(least_normal()) <= exact_value(r) <= exact_value(greatest()),
{
    assert(least_normal().finite() && greatest().finite());
}

/// The normal range runs from below 1 to above 1, and starts above 0.
pub proof fn lemma_normal_range()
    ensures
        0real < exact_value(least_normal()) < 1real < exact_value(greatest()),
{
    lemma_small_constants();
    lemma_exact_integer(Real::zero(), 0);
    lemma_exact_integer(Real::one(), 1);
    lemma_below_on_bits(Real::zero(), least_normal());
    lemma_below_on_bits(least_normal(), Real::one());
    lemma_below_on_bits(Real::one(), greatest());
    lemma_exact_order(Real::zero(), least_normal());
    lemma_exact_order(least_normal(), Real::one());
    lemma_exact_order(Real::one(), greatest());
}

/// No finite double lies beyond the largest finite number or its
/// negative.
pub proof fn lemma_in_range(d: Real)
    requires
        d.finite(),
    ensures
        in_range(exact_value(d)),
{
    let top = Real { bits: GREATEST_BITS };
    let bottom = Real { bits: 0xffef_ffff_ffff_ffff };
    crate::ieee_lemmas::lemma_at_most_on_bits(d, top);
    crate::ieee_lemmas::lemma_at_most_on_bits(bottom, d);
    lemma_exact_order(d, top);
    lemma_exact_order(bottom, d);
    assert(bottom.scaled() == -top.scaled());
    let step = pow2(scale_exponent());
    lemma_pow2_pos(scale_exponent());
    let s = top.scaled();
    assert(((-s) as real) / (step as real) == -((s as real) / (step as real)))
        by (nonlinear_arith)
        requires
            step > 0,
    ;
}

/// The normal range is wide: it reaches from below 10^-300 to above
/// 10^300.
pub proof fn lemma_normal_range_is_wide()
    ensures
        exact_value(least_normal()) * ten_to_the_300()
            <= 1real,
        exact_value(greatest()) >= ten_to_the_300(),
{
    vstd::arithmetic::power2::lemma2_to64();
    vstd::arithmetic::power2::lemma2_to64_rest();
    let a = pow2(64);
    lemma_pow2_adds(64, 64);
    lemma_pow2_adds(128, 128);
    lemma_pow2_adds(256, 256);
    lemma_pow2_adds(512, 512);
    lemma_pow2_adds(1022, 2);
    lemma_pow2_adds(52, 1022);
    lemma_pow2_adds(971, 52);
    lemma_pow2_adds(1023, 51);
    let b = pow2(128);
    let c = pow2(256);
    let d = pow2(512);
    let e = pow2(1024);
    assert(a >= 10_000_000_000_000_000_000);
    assert(b >= 100_000_000_000_000_000_000_000_000_000_000_000_000) by (nonlinear_arith)
        requires
            b == a * a,
            a >= 10_000_000_000_000_000_000,
    ;
    assert(c >= 10_000_000_000_000_000_000_000_000_000_000_000_000_000_000_000_000_000_000_000_000_000_000_000_000_000)
        by (nonlinear_arith)
        requires
            c == b * b,
            b >= 100_000_000_000_000_000_000_000_000_000_000_000_000,
    ;
    assert(d
        >= 100_000_000_000_000_000_000_000_000_000_000_000_000_000_000_000_000_000_000_000_000_000_000_000_000_000_000_000_000_000_000_000_000_000_000_000_000_000_000_000_000_000_000_000_000_000_000_000_000_000_000)
        by (nonlinear_arith)
        requires
            c
                >= 10_000_000_000_000_000_000_000_000_000_000_000_000_000_000_000_000_000_000_000_000_000_000_000_000_000,
            d == c * c,
    ;
    assert(e
        >= 10_000_000_000_000_000_000_000_000_000_000_000_000_000_000_000_000_000_000_000_000_000_000_000_000_000_000_000_000_000_000_000_000_000_000_000_000_000_000_000_000_000_000_000_000_000_000_000_000_000_000_000_000_000_000_000_000_000_000_000_000_000_000_000_000_000_000_000_000_000_000_000_000_000_000_000_000_000_000_000_000_000_000_000_000_000_000_000_000_000_000_000_000_000_000_000_000_000_000_000_000_000)
        by (nonlinear_arith)
        requires
            d
                >= 100_000_000_000_000_000_000_000_000_000_000_000_000_000_000_000_000_000_000_000_000_000_000_000_000_000_000_000_000_000_000_000_000_000_000_000_000_000_000_000_000_000_000_000_000_000_000_000_000_000_000,
            e == d * d,
    ;
    let wide = pow2(1022);
    assert(e == wide * 4);
    assert(wide
        >= 1_000_000_000_000_000_000_000_000_000_000_000_000_000_000_000_000_000_000_000_000_000_000_000_000_000_000_000_000_000_000_000_000_000_000_000_000_000_000_000_000_000_000_000_000_000_000_000_000_000_000_000_000_000_000_000_000_000_000_000_000_000_000_000_000_000_000_000_000_000_000_000_000_000_000_000_000_000_000_000_000_000_000_000_000_000_000_000_000_000_000_000_000_000_000_000_000_000_000_000_000);
    // The smallest normal number is 1 / 2^1022.
    let unit = pow2(scale_exponent());
    lemma_pow2_pos(scale_exponent());
    assert(magnitude_of(FRACTION_SPAN as nat) == FRACTION_SPAN) by {
        assert((FRACTION_SPAN as nat) / (FRACTION_SPAN as nat) == 1 && (FRACTION_SPAN as nat) % (
        FRACTION_SPAN as nat) == 0);
        assert(magnitude_of(FRACTION_SPAN as nat) == (FRACTION_SPAN + 0) * pow2(0));
    }
    assert(least_normal().scaled() == pow2(52));
    assert(unit == pow2(52) * wide);
    lemma_scaled_value(least_normal());
    let least = exact_value(least_normal());
    assert(least * (wide as real) == 1real) by (nonlinear_arith)
        requires
            least * ((pow2(52) * wide) as real) == pow2(52) as real,
            pow2(52) == 4503599627370496,
            wide > 0,
    ;
    assert(least * ten_to_the_300()
        <= 1real) by (nonlinear_arith)
        requires
            least * (wide as real) == 1real,
            wide
                >= 1_000_000_000_000_000_000_000_000_000_000_000_000_000_000_000_000_000_000_000_000_000_000_000_000_000_000_000_000_000_000_000_000_000_000_000_000_000_000_000_000_000_000_000_000_000_000_000_000_000_000_000_000_000_000_000_000_000_000_000_000_000_000_000_000_000_000_000_000_000_000_000_000_000_000_000_000_000_000_000_000_000_000_000_000_000_000_000_000_000_000_000_000_000_000_000_000_000_000_000_000,
    ;
    // The largest finite number is above 2^1023.
    let top = (INFINITY_PAYLOAD - 1) as nat;
    assert(top / (FRACTION_SPAN as nat) == 2046 && top % (FRACTION_SPAN as nat)
        == 4503599627370495);
    assert(greatest().scaled() == (FRACTION_SPAN + 4503599627370495) * pow2(2045));
    lemma_pow2_adds(1074, 971);
    assert(pow2(2045) == unit * pow2(971));
    lemma_scaled_value(greatest());
    let most = exact_value(greatest());
    let reach = pow2(971);
    lemma_pow2_pos(971);
    assert(most * (unit as real) == ((9007199254740991 * (unit * reach)) as real));
    assert(most == ((9007199254740991 * reach) as real)) by (nonlinear_arith)
        requires
            most * (unit as real) == ((9007199254740991 * (unit * reach)) as real),
            unit > 0,
    ;
    assert(pow2(1023) == reach * 4503599627370496);
    assert(wide * 2 == pow2(1023)) by {
        lemma_pow2_adds(1022, 1);
    }
    assert(9007199254740991 * reach >= wide) by (nonlinear_arith)
        requires
            wide * 2 == reach * 4503599627370496,
            reach > 0,
    ;
}

/// 10^300.
pub open spec fn ten_to_the_300() -> real {
    1_000_000_000_000_000_000_000_000_000_000_000_000_000_000_000_000_000_000_000_000_000_000_000_000_000_000_000_000_000_000_000_000_000_000_000_000_000_000_000_000_000_000_000_000_000_000_000_000_000_000_000_000_000_000_000_000_000_000_000_000_000_000_000_000_000_000_000_000_000_000_000_000_000_000_000_000_000_000_000_000_000_000_000_000_000_000_000_000_000_000_000_000_000_000_000_000_000_000_000_000real
}

/// In the normal range of the doubles with a factor of 10^20 to spare at
/// either end: between about 2.3 * 10^-288 and 1.7 * 10^288.
pub open spec fn well_in_range(x: real) -> bool {
    exact_value(least_normal()) * 100_000_000_000_000_000_000real <= x && x
        * 100_000_000_000_000_000_000real <= exact_value(greatest())
}

/// Twice a finite number below 2^1023 is a double.
pub proof fn lemma_twice(x: Real) -> (t: Real)
    requires
        x.finite(),
        x.payload() < 0x7fe0_0000_0000_0000,
    ensures
        t.finite(),
        exact_value(t) == 2real * exact_value(x),
{
    let span = FRACTION_SPAN as nat;
    let p = x.payload();
    let q: nat = if p < span {
        2 * p
    } else {
        p + span
    };
    let e = p / span;
    let f = p % span;
    vstd::arithmetic::power2::lemma2_to64();
    if p < span {
        assert(magnitude_of(p) == p);
        if 2 * p >= span {
            assert(q / span == 1 && q % span == 2 * p - span);
            assert(magnitude_of(q) == (span + (2 * p - span)) * pow2(0));
        } else {
            assert(q / span == 0 && q % span == 2 * p);
        }
    } else {
        assert(q / span == e + 1 && q % span == f);
        let w = pow2((e - 1) as nat);
        lemma_pow2_adds(1, (e - 1) as nat);
        assert(pow2(e) == 2 * w);
        assert(magnitude_of(q) == (span + f) * pow2(e));
        assert(magnitude_of(p) == (span + f) * w);
        assert((span + f) * (2 * w) == 2 * ((span + f) * w)) by (nonlinear_arith);
    }
    assert(magnitude_of(q) == 2 * magnitude_of(p));
    let t = if x.negative() {
        Real { bits: (q + 0x8000_0000_0000_0000) as u64 }
    } else {
        Real { bits: q as u64 }
    };
    assert(t.payload() == q && t.negative() == x.negative());
    assert(t.scaled() == 2 * x.scaled());
    let step = pow2(scale_exponent());
    lemma_pow2_pos(scale_exponent());
    let s = x.scaled();
    assert(((2 * s) as real) / (step as real) == 2real * ((s as real) / (step as real)))
        by (nonlinear_arith)
        requires
            step > 0,
    ;
    t
}

/// A rounded root squares to the number it is the root of, to within one
/// part in 2^53 on either side: for `a` of the normal range and the
/// double `r` nearest to its root, `a` lies between the squares of
/// `r * (1 - 2^-53)` and `r * (1 + 2^-53)`.
pub proof fn lemma_root_is_accurate(a: real, r: Real)
    requires
        nearest_root(a, r),
        exact_value(least_normal()) <= a <= exact_value(greatest()),
    ensures
        exact_value(r) > 0real,
        exact_value(r) * exact_value(r) * (9007199254740991real * 9007199254740991real) <= a * (
        9007199254740992real * 9007199254740992real),
        a * (9007199254740992real * 9007199254740992real) <= exact_value(r) * exact_value(r) * (
        9007199254740993real * 9007199254740993real),
{
    let span = FRACTION_SPAN as nat;
    let unit = pow2(scale_exponent()) as real;
    lemma_pow2_pos(scale_exponent());
    lemma_normal_range();
    let least = exact_value(least_normal());
    let most = exact_value(greatest());
    let root = exact_value(r);
    assert(least_normal().finite() && greatest().finite());
    // The root is at least the smallest normal number.
    if root < least {
        assert(4real * a <= (root + least) * (root + least));
        assert(false) by (nonlinear_arith)
            requires
                4real * a <= (root + least) * (root + least),
                0real <= root < least,
                least < 1real,
                least <= a,
        ;
    }
    lemma_scaled_value(r);
    lemma_scaled_value(least_normal());
    assert(least_normal().scaled() == magnitude_of(span));
    assert(r.scaled() as real >= magnitude_of(span) as real) by (nonlinear_arith)
        requires
            root * unit == r.scaled() as real,
            least * unit == magnitude_of(span) as real,
            root >= least,
            unit > 0real,
    ;
    vstd::arithmetic::power2::lemma2_to64();
    assert(span / span == 1 && span % span == 0);
    assert(magnitude_of(span) == (span + 0) * pow2(0));
    assert(magnitude_of(span) == span);
    assert(!r.negative());
    let p = r.payload();
    lemma_magnitude_orders_like_payload(p, span);
    assert(span <= p < INFINITY_PAYLOAD);
    let here = magnitude_of(p) as real;
    assert(root * unit == here);
    // Above: the next double, if there is one.
    if p + 1 == INFINITY_PAYLOAD {
        assert(r == greatest());
        assert(a * (9007199254740992real * 9007199254740992real) <= root * root * (
        9007199254740993real * 9007199254740993real)) by (nonlinear_arith)
            requires
                a <= root,
                root > 1real,
        ;
    } else {
        let high = Real { bits: (p + 1) as u64 };
        assert(high.finite() && !high.negative() && high.scaled() == magnitude_of(p + 1));
        lemma_scaled_value(high);
        lemma_step_to_next(p);
        let step = pow2((p / span - 1) as nat) as real;
        lemma_pow2_pos((p / span - 1) as nat);
        let above = exact_value(high);
        assert(above * unit == here + step);
        assert(above > root && (above - root) * 4503599627370496real <= root)
            by (nonlinear_arith)
            requires
                above * unit == here + step,
                root * unit == here,
                step > 0real,
                step * 4503599627370496real <= here,
                unit > 0real,
        ;
        assert(4real * a <= (root + above) * (root + above));
        assert(a * (9007199254740992real * 9007199254740992real) <= root * root * (
        9007199254740993real * 9007199254740993real)) by (nonlinear_arith)
            requires
                4real * a <= (root + above) * (root + above),
                above > root,
                (above - root) * 4503599627370496real <= root,
                root > 0real,
        {
            let sum = root + above;
            assert(sum * 4503599627370496real <= root * 9007199254740993real);
            assert(sum > 0real);
            assert((sum * 4503599627370496real) * (sum * 4503599627370496real) <= (root
                * 9007199254740993real) * (root * 9007199254740993real));
        }
    }
    // Below: the double before.
    let low = Real { bits: (p - 1) as u64 };
    assert(low.finite() && !low.negative() && low.scaled() == magnitude_of((p - 1) as nat));
    lemma_scaled_value(low);
    let below = exact_value(low);
    let under = magnitude_of((p - 1) as nat) as real;
    assert(below * unit == under);
    let prior = (p - 1) as nat;
    let before = magnitude_of(prior);
    let at = magnitude_of(p);
    if p == span {
        assert(prior / span == 0 && prior % span == span - 1);
        assert(before == span - 1);
        assert(at == span);
    } else {
        lemma_step_to_next(prior);
        lemma_pow2_pos((prior / span - 1) as nat);
    }
    assert(0 <= before < at && (at - before) * 4503599627370496 <= at);
    assert(0real <= under < here && (here - under) * 4503599627370496real <= here);
    assert(0real <= below < root && (root - below) * 4503599627370496real <= root)
        by (nonlinear_arith)
        requires
            below * unit == under,
            root * unit == here,
            0real <= under < here,
            (here - under) * 4503599627370496real <= here,
            unit > 0real,
    ;
    assert((root + below) * (root + below) <= 4real * a);
    assert(root * root * (9007199254740991real * 9007199254740991real) <= a * (
    9007199254740992real * 9007199254740992real)) by (nonlinear_arith)
        requires
            (root + below) * (root + below) <= 4real * a,
            0real <= below < root,
            (root - below) * 4503599627370496real <= root,
    {
        let sum = root + below;
        assert(sum * 4503599627370496real >= root * 9007199254740991real);
        assert((sum * 4503599627370496real) * (sum * 4503599627370496real) >= (root
            * 9007199254740991real) * (root * 9007199254740991real));
    }
}

/// A rounded quotient of positive numbers: where the exact quotient lies
/// in the normal range, the double returned does too, and times the
/// divisor it is within one part in 2^53 of the dividend.
pub proof fn lemma_rounded_quotient<A: Arithmetic>(fpu: &A, n: Real, d: Real, q: Real)
    requires
        rounds_to_nearest(fpu),
        call_ensures(A::quotient, (fpu, n, d), q),
        n.finite(),
        d.finite(),
        exact_value(d) > 0real,
        exact_value(least_normal()) * exact_value(d) <= exact_value(n) <= exact_value(greatest())
            * exact_value(d),
    ensures
        q.finite(),
        exact_value(least_normal()) <= exact_value(q) <= exact_value(greatest()),
        distance(exact_value(q) * exact_value(d), exact_value(n)) * 9007199254740992real
            <= exact_value(n),
{
    let top = exact_value(n);
    let bottom = exact_value(d);
    let exact = top / bottom;
    lemma_normal_range();
    assert(exact * bottom == top && exact_value(least_normal()) <= exact <= exact_value(
        greatest(),
    )) by (nonlinear_arith)
        requires
            exact == top / bottom,
            bottom > 0real,
            exact_value(least_normal()) * bottom <= top <= exact_value(greatest()) * bottom,
    ;
    assert(in_range(exact));
    lemma_nearest_is_accurate(exact, q);
    lemma_nearest_stays_normal(exact, q);
    let got = exact_value(q);
    assert(distance(got * bottom, top) == distance(got, exact) * bottom) by (nonlinear_arith)
        requires
            exact * bottom == top,
            bottom > 0real,
    ;
    assert(distance(got * bottom, top) * 9007199254740992real <= top) by (nonlinear_arith)
        requires
            distance(got * bottom, top) == distance(got, exact) * bottom,
            distance(got, exact) * 9007199254740992real <= exact,
            exact * bottom == top,
            bottom > 0real,
    ;
}

/// A rounded root of a number of the normal range is a positive number
/// whose square is within one part in 2^53, on either side, of the number.
pub proof fn lemma_rounded_root<A: Arithmetic>(fpu: &A, q: Real, v: Real)
    requires
        rounds_to_nearest(fpu),
        call_ensures(A::square_root, (fpu, q), v),
        q.finite(),
        exact_value(least_normal()) <= exact_value(q) <= exact_value(greatest()),
    ensures
        v.finite(),
        exact_value(v) > 0real,
        exact_value(v) * exact_value(v) * (9007199254740991real * 9007199254740991real)
            <= exact_value(q) * (9007199254740992real * 9007199254740992real),
        exact_value(q) * (9007199254740992real * 9007199254740992real) <= exact_value(v)
            * exact_value(v) * (9007199254740993real * 9007199254740993real),
{
    lemma_normal_range();
    lemma_root_is_accurate(exact_value(q), v);
}

} // verus!
