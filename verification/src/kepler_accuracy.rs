//! How near the lengths of the ellipse come to their exact relations in
//! an arithmetic that rounds to nearest.
//!
//! The laws ask that the distances handed in lie in the normal range of
//! the doubles with a factor of 10^20 to spare at either end: every
//! intermediate result of the formulas then lies in the normal range, or
//! is so small a part of the semi-major axis that its rounding does not
//! count.

use vstd::prelude::*;

use crate::arithmetic::{
    difference, evaluates, lemma_evaluates_difference, lemma_evaluates_product,
    lemma_evaluates_quotient, lemma_evaluates_square_root, lemma_evaluates_sum,
    lemma_evaluates_value, product, square_root, value, Arithmetic,
};
use crate::exact::{exact_value, lemma_exact_integer, lemma_exact_order};
use crate::ieee::Real;
use crate::ieee_lemmas::lemma_small_constants;
use crate::kepler::{
    apoapsis_formula, eccentricity_formula, focal_distance_formula, semi_major_axis_formula,
    semi_minor_axis_formula, Elements,
};
use crate::utils::Meters;
use crate::squares::lemma_apoapsis_of_near_eccentricity;
use crate::rounding::{
    distance, greatest, in_range, least_normal, lemma_below_one, lemma_in_range,
    lemma_nearest_in_unit_interval, lemma_nearest_is_accurate, lemma_nearest_keeps_between,
    lemma_normal_range, lemma_normal_range_is_wide, lemma_rounded_quotient,
    lemma_rounded_root, rounds_to_nearest, ten_to_the_300, well_in_range,
};

verus! {

/// An eccentricity of an ellipse proper: a number from 0 to less than 1.
pub open spec fn elliptic(eccentricity: Real) -> bool {
    eccentricity.finite() && !eccentricity.below(Real::zero()) && eccentricity.below(Real::one())
}

/// A quotient of `r` by a divisor near `g`, rounded, is within one part
/// in 2^51 of the `a` with `a * g == r`.
proof fn lemma_ratio_is_near(r: real, g: real, divisor: real, got: real, a: real)
    requires
        r > 0real,
        g > 0real,
        a * g == r,
        distance(divisor, g) * 9007199254740992real <= g,
        distance(got * divisor, r) * 9007199254740992real <= r,
    ensures
        a > 0real,
        got > 0real,
        distance(got, a) * 2251799813685248real <= a,
{
    let big = 9007199254740992real;
    let k = 2251799813685248real;
    assert(a > 0real) by (nonlinear_arith)
        requires
            a * g == r,
            r > 0real,
            g > 0real,
    ;
    assert(divisor * big >= g * (big - 1real) && divisor * big <= g * (big + 1real));
    assert(divisor > 0real);
    let gd = got * divisor;
    assert(gd * big >= r * (big - 1real) && gd * big <= r * (big + 1real));
    assert(got > 0real) by (nonlinear_arith)
        requires
            gd == got * divisor,
            gd * big >= r * (big - 1real),
            r > 0real,
            divisor > 0real,
            big == 9007199254740992real,
    ;
    assert(got * k <= a * (k + 1real)) by (nonlinear_arith)
        requires
            gd == got * divisor,
            gd * big <= a * g * (big + 1real),
            divisor * big >= g * (big - 1real),
            got > 0real,
            a > 0real,
            g > 0real,
            big == 9007199254740992real,
            k == 2251799813685248real,
    {
        assert(got * (divisor * big) >= got * (g * (big - 1real)));
        assert(got * g * (big - 1real) <= a * g * (big + 1real));
        assert(got * (big - 1real) <= a * (big + 1real));
        assert((big + 1real) * k <= (big - 1real) * (k + 1real));
        assert(got * (big - 1real) * k <= a * (big + 1real) * k);
        assert(a * ((big + 1real) * k) <= a * ((big - 1real) * (k + 1real)));
    }
    assert(got * k >= a * (k - 1real)) by (nonlinear_arith)
        requires
            gd == got * divisor,
            gd * big >= a * g * (big - 1real),
            divisor * big <= g * (big + 1real),
            got > 0real,
            a > 0real,
            g > 0real,
            big == 9007199254740992real,
            k == 2251799813685248real,
    {
        assert(got * (divisor * big) <= got * (g * (big + 1real)));
        assert(got * g * (big + 1real) >= a * g * (big - 1real));
        assert(got * (big + 1real) >= a * (big - 1real));
        assert((big - 1real) * k >= (big + 1real) * (k - 1real));
        assert(got * (big + 1real) * k >= a * (big - 1real) * k);
        assert(a * ((big - 1real) * k) >= a * ((big + 1real) * (k - 1real)));
    }
}

/// A number within one part in 2^51 of `y` has a square within one part
/// in 10^12 of the square of `y`.
proof fn lemma_square_is_near(x: real, y: real)
    requires
        y > 0real,
        distance(x, y) * 2251799813685248real <= y,
    ensures
        distance(x * x, y * y) * 1_000_000_000_000real <= y * y,
{
    let gap = distance(x, y);
    let k = 2251799813685248real;
    assert(distance(x * x, y * y) <= gap * (2real * y + gap)) by (nonlinear_arith)
        requires
            gap == distance(x, y),
            y > 0real,
    ;
    assert(gap * (2real * y + gap) * 1_000_000_000_000real <= y * y) by (nonlinear_arith)
        requires
            0real <= gap,
            gap * k <= y,
            k == 2251799813685248real,
            y > 0real,
    {
        assert(gap <= y);
        assert(gap * (2real * y + gap) <= gap * (3real * y));
        assert(gap * (3real * y) * k <= 3real * y * y);
    }
}

/// The semi-major axis as the arithmetic returns it: a positive double
/// within one part in 2^51 of the exact `a` with `a * (1 - e) == r_p`.
proof fn lemma_semi_major_axis_is_near<A: Arithmetic>(
    fpu: &A,
    elements: Elements,
    got: Real,
    a: real,
)
    requires
        rounds_to_nearest(fpu),
        evaluates(fpu, semi_major_axis_formula(elements), got),
        elliptic(elements.eccentricity@),
        elements.periapsis.0.finite(),
        well_in_range(exact_value(elements.periapsis.0)),
        a * (1real - exact_value(elements.eccentricity@)) == exact_value(elements.periapsis.0),
    ensures
        got.finite(),
        a > 0real,
        a >= exact_value(elements.periapsis.0),
        exact_value(got) > 0real,
        distance(exact_value(got), a) * 2251799813685248real <= a,
{
    let eccentricity = elements.eccentricity@;
    let e = exact_value(eccentricity);
    let r = exact_value(elements.periapsis.0);
    let gap_formula = difference(value(Real::one()), value(eccentricity));
    lemma_small_constants();
    lemma_exact_integer(Real::zero(), 0);
    lemma_exact_integer(Real::one(), 1);
    lemma_exact_order(eccentricity, Real::zero());
    lemma_below_one(eccentricity);
    lemma_normal_range();
    lemma_normal_range_is_wide();
    let least = exact_value(least_normal());
    let most = exact_value(greatest());
    let g = 1real - e;
    assert(0real <= e && g * 9007199254740992real >= 1real && g <= 1real);
    assert(least <= g) by (nonlinear_arith)
        requires
            g * 9007199254740992real >= 1real,
            least * ten_to_the_300() <= 1real,
            least > 0real,
            ten_to_the_300() >= 9007199254740992real,
    ;

    lemma_evaluates_quotient(fpu, value(elements.periapsis.0), gap_formula, got);
    let (peri, divisor) = choose|x: Real, y: Real| #[trigger]
        evaluates(fpu, value(elements.periapsis.0), x) && #[trigger] evaluates(
            fpu,
            gap_formula,
            y,
        ) && call_ensures(A::quotient, (fpu, x, y), got);
    lemma_evaluates_value(fpu, elements.periapsis.0, peri);
    lemma_evaluates_difference(fpu, value(Real::one()), value(eccentricity), divisor);
    let (one, ecc) = choose|x: Real, y: Real| #[trigger]
        evaluates(fpu, value(Real::one()), x) && #[trigger] evaluates(fpu, value(eccentricity), y)
            && call_ensures(A::difference, (fpu, x, y), divisor);
    lemma_evaluates_value(fpu, Real::one(), one);
    lemma_evaluates_value(fpu, eccentricity, ecc);

    // The difference is rounded once.
    assert(in_range(g));
    lemma_nearest_is_accurate(g, divisor);
    lemma_nearest_keeps_between(g, divisor, least_normal(), Real::one());
    let d = exact_value(divisor);

    // The quotient is rounded once.
    assert(r > 0real && least * d <= r <= most * d) by (nonlinear_arith)
        requires
            least * 100_000_000_000_000_000_000real <= r,
            r * 100_000_000_000_000_000_000real <= most,
            least <= d <= 1real,
            least > 0real,
            d * 9007199254740992real * 2real >= 1real,
    {
        assert(least * d <= least);
        assert(most > 0real);
        assert(most * (d * (9007199254740992real * 2real)) >= most);
    }
    lemma_rounded_quotient(fpu, elements.periapsis.0, divisor, got);
    lemma_ratio_is_near(r, g, d, exact_value(got), a);
    assert(a >= r) by (nonlinear_arith)
        requires
            a * g == r,
            0real < g <= 1real,
            a > 0real,
    ;
}

/// The square of the semi-minor axis as the arithmetic returns it is
/// `a * a * (1 - e * e)` to within one part in 10^11 of `a * a`.
proof fn lemma_minor_squared(
    a: real,
    e: real,
    major: real,
    squared: real,
    under: real,
    root: real,
    minor: real,
)
    requires
        a > 0real,
        0real <= e < 1real,
        major > 0real,
        distance(major, a) * 2251799813685248real <= a,
        0real <= squared <= 1real,
        distance(squared, e * e) * 9007199254740992real <= 1real,
        squared < 1real,
        distance(under, 1real - squared) * 9007199254740992real <= 1real - squared,
        root > 0real,
        root * root * (9007199254740991real * 9007199254740991real) <= under * (
        9007199254740992real * 9007199254740992real),
        under * (9007199254740992real * 9007199254740992real) <= root * root * (
        9007199254740993real * 9007199254740993real),
        distance(minor, major * root) * 9007199254740992real <= major * root,
    ensures
        distance(minor * minor, a * a * (1real - e * e)) * 100_000_000_000real <= a * a,
{
    let big = 9007199254740992real;
    let t = 1_000_000_000_000real;
    let h = 1real - e * e;
    let aa = a * a;
    assert(0real < h <= 1real) by (nonlinear_arith)
        requires
            h == 1real - e * e,
            0real <= e < 1real,
    ;
    assert(aa > 0real) by (nonlinear_arith)
        requires
            aa == a * a,
            a > 0real,
    ;
    // 1 - squared, rounded: within 2/big of h, and at most 2.
    let first = 1real - squared;
    assert(distance(first, h) * big <= 1real);
    assert(distance(under, h) * big <= 2real && 0real < under <= 2real);
    // The root squared: within 8/big of h.
    let rr = root * root;
    assert(distance(rr, under) * big <= 6real) by (nonlinear_arith)
        requires
            rr * ((big - 1real) * (big - 1real)) <= under * (big * big),
            under * (big * big) <= rr * ((big + 1real) * (big + 1real)),
            0real < under <= 2real,
            rr >= 0real,
            big == 9007199254740992real,
    {
        assert(rr * (big * big - 2real * big) <= under * (big * big));
        assert(rr * (big - 2real) <= under * big);
        assert(rr <= 3real);
        assert(under * (big * big) <= rr * (big * big) + rr * (2real * big + 1real));
        assert(under * big <= rr * big + rr * 3real);
    }
    assert(distance(rr, h) * big <= 8real && 0real <= rr <= 2real);
    // The product of major axis and root, squared.
    let p = major * root;
    let pp = p * p;
    let mm = major * major;
    lemma_square_is_near(major, a);
    assert(pp == mm * rr) by (nonlinear_arith)
        requires
            p == major * root,
            pp == p * p,
            mm == major * major,
            rr == root * root,
    ;
    assert(distance(pp, aa * rr) * t <= 2real * aa) by (nonlinear_arith)
        requires
            pp == mm * rr,
            distance(mm, aa) * t <= aa,
            0real <= rr <= 2real,
            t > 0real,
    {
        assert(distance(mm * rr, aa * rr) == distance(mm, aa) * rr);
        assert(distance(mm, aa) * rr * t <= aa * rr);
    }
    assert(distance(aa * rr, aa * h) * big <= 8real * aa) by (nonlinear_arith)
        requires
            distance(rr, h) * big <= 8real,
            aa > 0real,
    {
        assert(distance(aa * rr, aa * h) == aa * distance(rr, h));
    }
    assert(p > 0real) by (nonlinear_arith)
        requires
            p == major * root,
            major > 0real,
            root > 0real,
    ;
    assert(0real <= pp <= 3real * aa) by (nonlinear_arith)
        requires
            pp == mm * rr,
            distance(mm, aa) * t <= aa,
            0real <= rr <= 2real,
            aa > 0real,
            t == 1_000_000_000_000real,
    {
        assert(mm <= aa + aa);
        assert(mm >= 0real);
        assert(mm * rr <= (aa + aa) * rr);
    }
    // The product, rounded.
    let bb = minor * minor;
    assert(distance(bb, pp) * big <= 3real * pp) by (nonlinear_arith)
        requires
            bb == minor * minor,
            pp == p * p,
            distance(minor, p) * big <= p,
            p > 0real,
            big == 9007199254740992real,
    {
        let gap = distance(minor, p);
        assert(distance(minor * minor, p * p) <= gap * (2real * p + gap));
        assert(gap <= p);
        assert(gap * (2real * p + gap) <= gap * (3real * p));
        assert(gap * (3real * p) * big <= 3real * p * p);
    }
    assert(distance(bb, aa * h) * 100_000_000_000real <= aa) by (nonlinear_arith)
        requires
            distance(bb, pp) * big <= 3real * pp,
            0real <= pp <= 3real * aa,
            distance(pp, aa * rr) * t <= 2real * aa,
            distance(aa * rr, aa * h) * big <= 8real * aa,
            aa > 0real,
            big == 9007199254740992real,
            t == 1_000_000_000_000real,
    {
        assert(distance(bb, aa * h) <= distance(bb, pp) + distance(pp, aa * rr) + distance(
            aa * rr,
            aa * h,
        ));
        assert(distance(bb, pp) * big <= 9real * aa);
    }
}

/// The square of the focal distance as the arithmetic returns it is
/// `a * a * e * e` to within one part in 10^11 of `a * a`.
proof fn lemma_focal_squared(
    a: real,
    e: real,
    major: real,
    focal: real,
    least: real,
)
    requires
        a > 0real,
        0real <= e < 1real,
        major > 0real,
        distance(major, a) * 2251799813685248real <= a,
        0real < least,
        least * least * 1_000_000_000_000real <= a * a,
        focal >= 0real,
        e * major >= least ==> distance(focal, e * major) * 9007199254740992real <= e * major,
        e * major < least ==> focal <= least,
    ensures
        distance(focal * focal, a * a * (e * e)) * 100_000_000_000real <= a * a,
{
    let big = 9007199254740992real;
    let t = 1_000_000_000_000real;
    let aa = a * a;
    let mm = major * major;
    let x = e * major;
    let xx = x * x;
    let ee = e * e;
    let cc = focal * focal;
    assert(aa > 0real) by (nonlinear_arith)
        requires
            aa == a * a,
            a > 0real,
    ;
    assert(0real <= ee < 1real) by (nonlinear_arith)
        requires
            ee == e * e,
            0real <= e < 1real,
    ;
    lemma_square_is_near(major, a);
    assert(xx == ee * mm) by (nonlinear_arith)
        requires
            x == e * major,
            xx == x * x,
            ee == e * e,
            mm == major * major,
    ;
    assert(distance(xx, aa * ee) * t <= aa) by (nonlinear_arith)
        requires
            xx == ee * mm,
            distance(mm, aa) * t <= aa,
            0real <= ee < 1real,
            t > 0real,
    {
        assert(distance(ee * mm, aa * ee) == ee * distance(mm, aa));
        assert(ee * distance(mm, aa) <= distance(mm, aa));
    }
    assert(0real <= xx <= 2real * aa) by (nonlinear_arith)
        requires
            xx == ee * mm,
            distance(mm, aa) * t <= aa,
            0real <= ee < 1real,
            aa > 0real,
            t == 1_000_000_000_000real,
    {
        assert(0real <= mm <= aa + aa);
        assert(ee * mm <= mm);
    }
    assert(x >= 0real) by (nonlinear_arith)
        requires
            x == e * major,
            e >= 0real,
            major > 0real,
    ;
    if x >= least {
        assert(distance(cc, xx) * big <= 3real * xx) by (nonlinear_arith)
            requires
                cc == focal * focal,
                xx == x * x,
                distance(focal, x) * big <= x,
                x > 0real,
                big == 9007199254740992real,
        {
            let gap = distance(focal, x);
            assert(distance(focal * focal, x * x) <= gap * (2real * x + gap));
            assert(gap <= x);
            assert(gap * (2real * x + gap) <= gap * (3real * x));
            assert(gap * (3real * x) * big <= 3real * x * x);
        }
        assert(distance(cc, aa * ee) * 100_000_000_000real <= aa) by (nonlinear_arith)
            requires
                distance(cc, xx) * big <= 3real * xx,
                0real <= xx <= 2real * aa,
                distance(xx, aa * ee) * t <= aa,
                aa > 0real,
                big == 9007199254740992real,
                t == 1_000_000_000_000real,
        {
            assert(distance(cc, aa * ee) <= distance(cc, xx) + distance(xx, aa * ee));
            assert(distance(cc, xx) * big <= 6real * aa);
        }
    } else {
        assert(0real <= cc <= least * least && 0real <= xx <= least * least)
            by (nonlinear_arith)
            requires
                cc == focal * focal,
                xx == x * x,
                0real <= focal <= least,
                0real <= x < least,
        ;
        assert(distance(cc, aa * ee) * 100_000_000_000real <= aa) by (nonlinear_arith)
            requires
                0real <= cc <= least * least,
                0real <= xx <= least * least,
                least * least * t <= aa,
                distance(xx, aa * ee) * t <= aa,
                aa > 0real,
                t == 1_000_000_000_000real,
        {
            assert(distance(cc, aa * ee) <= distance(cc, xx) + distance(xx, aa * ee));
            assert(distance(cc, xx) <= least * least);
        }
    }
}

/// The product of a rounded semi-major axis and a rounded root of a
/// number between 2^-54 and 1 lies in the normal range.
proof fn lemma_axis_times_root_is_normal(
    exact_a: real,
    r: real,
    g: real,
    m1: real,
    u: real,
    rt: real,
    least: real,
    most: real,
)
    requires
        rt > 0real,
        m1 > 0real,
        u * 9007199254740992real * 2real >= 1real,
        u <= 1real,
        rt * rt * (9007199254740991real * 9007199254740991real) <= u * (9007199254740992real
            * 9007199254740992real),
        u * (9007199254740992real * 9007199254740992real) <= rt * rt * (9007199254740993real
            * 9007199254740993real),
        distance(m1, exact_a) * 2251799813685248real <= exact_a,
        exact_a * g == r,
        g * 9007199254740992real >= 1real,
        0real < g <= 1real,
        0real < least,
        least * 100_000_000_000_000_000_000real <= r,
        r * 100_000_000_000_000_000_000real <= most,
    ensures
        least <= m1 * rt <= most,
{
    let big = 9007199254740992real;
    let turned = m1 * rt;
    assert(r > 0real);
    assert(rt <= 2real) by (nonlinear_arith)
        requires
            rt > 0real,
            rt * rt * ((big - 1real) * (big - 1real)) <= u * (big * big),
            u <= 1real,
            big == 9007199254740992real,
    {
        if rt > 2real {
            assert(rt * rt > 4real);
            assert(rt * rt * ((big - 1real) * (big - 1real)) > 4real * ((big - 1real) * (big
                - 1real)));
            assert(false);
        }
    }
    assert(rt * (2real * big) >= 1real) by (nonlinear_arith)
        requires
            rt > 0real,
            u * (big * big) <= rt * rt * ((big + 1real) * (big + 1real)),
            u * big * 2real >= 1real,
            big == 9007199254740992real,
    {
        if rt * (2real * big) < 1real {
            assert((rt * (2real * big)) * (rt * (2real * big)) < 1real);
            assert(rt * rt * (4real * big * big) < 1real);
            assert(u * (big * big) * 2real >= big);
            assert(rt * rt * ((big + 1real) * (big + 1real)) * 2real >= big);
            assert(false);
        }
    }
    assert(exact_a > 0real && exact_a >= r && exact_a <= r * big) by (nonlinear_arith)
        requires
            exact_a * g == r,
            g * big >= 1real,
            0real < g <= 1real,
            r > 0real,
            big == 9007199254740992real,
    {
        assert(exact_a * (g * big) >= exact_a);
    }
    assert(m1 * 2real >= exact_a && m1 <= 2real * exact_a);
    assert(turned <= 4real * big * r && turned * (4real * big) >= r) by (nonlinear_arith)
        requires
            turned == m1 * rt,
            0real < rt <= 2real,
            rt * (2real * big) >= 1real,
            m1 * 2real >= exact_a,
            m1 <= 2real * exact_a,
            r <= exact_a <= r * big,
            r > 0real,
            big == 9007199254740992real,
    {
        assert(m1 * rt <= m1 * 2real);
        assert(m1 * (rt * (2real * big)) >= m1);
    }
    assert(least <= turned <= most) by (nonlinear_arith)
        requires
            turned <= 4real * big * r,
            turned * (4real * big) >= r,
            least * 100_000_000_000_000_000_000real <= r,
            r * 100_000_000_000_000_000_000real <= most,
            least > 0real,
            big == 9007199254740992real,
    ;
}

/// The square of the semi-minor axis returned is `a * a * (1 - e * e)` to
/// within one part in 10^11 of `a * a`, for the exact semi-major axis `a`.
#[verifier::rlimit(60)]
proof fn lemma_minor_axis_squared_is_near<A: Arithmetic>(
    fpu: &A,
    elements: Elements,
    b: Real,
    exact_a: real,
)
    requires
        rounds_to_nearest(fpu),
        evaluates(fpu, semi_minor_axis_formula(elements), b),
        elliptic(elements.eccentricity@),
        elements.periapsis.0.finite(),
        well_in_range(exact_value(elements.periapsis.0)),
        exact_a * (1real - exact_value(elements.eccentricity@)) == exact_value(
            elements.periapsis.0,
        ),
    ensures
        b.finite(),
        distance(
            exact_value(b) * exact_value(b),
            exact_a * exact_a * (1real - exact_value(elements.eccentricity@) * exact_value(
                elements.eccentricity@,
            )),
        ) * 100_000_000_000real <= exact_a * exact_a,
{
    let eccentricity = elements.eccentricity@;
    let e = exact_value(eccentricity);
    let r = exact_value(elements.periapsis.0);
    let e_value = value(eccentricity);
    let major = semi_major_axis_formula(elements);
    let under_formula = difference(value(Real::one()), product(e_value, e_value));
    lemma_small_constants();
    lemma_exact_integer(Real::zero(), 0);
    lemma_exact_integer(Real::one(), 1);
    lemma_exact_order(eccentricity, Real::zero());
    lemma_below_one(eccentricity);
    lemma_normal_range();
    lemma_normal_range_is_wide();
    let least = exact_value(least_normal());
    let most = exact_value(greatest());
    let big = 9007199254740992real;
    assert(0real <= e < 1real);

    lemma_evaluates_product(fpu, major, square_root(under_formula), b);
    let (a1, root) = choose|x: Real, y: Real| #[trigger]
        evaluates(fpu, major, x) && #[trigger] evaluates(fpu, square_root(under_formula), y)
            && call_ensures(A::product, (fpu, x, y), b);
    lemma_semi_major_axis_is_near(fpu, elements, a1, exact_a);

    lemma_evaluates_square_root(fpu, under_formula, root);
    let under = choose|x: Real| #[trigger]
        evaluates(fpu, under_formula, x) && call_ensures(A::square_root, (fpu, x), root);
    lemma_evaluates_difference(fpu, value(Real::one()), product(e_value, e_value), under);
    let (one, squared) = choose|x: Real, y: Real| #[trigger]
        evaluates(fpu, value(Real::one()), x) && #[trigger] evaluates(
            fpu,
            product(e_value, e_value),
            y,
        ) && call_ensures(A::difference, (fpu, x, y), under);
    lemma_evaluates_value(fpu, Real::one(), one);
    lemma_evaluates_product(fpu, e_value, e_value, squared);
    let (e1, e2) = choose|x: Real, y: Real| #[trigger]
        evaluates(fpu, e_value, x) && #[trigger] evaluates(fpu, e_value, y) && call_ensures(
            A::product,
            (fpu, x, y),
            squared,
        );
    lemma_evaluates_value(fpu, eccentricity, e1);
    lemma_evaluates_value(fpu, eccentricity, e2);

    // e * e, rounded: between 0 and the greatest double below 1.
    let ee = e * e;
    assert(0real <= ee <= e) by (nonlinear_arith)
        requires
            ee == e * e,
            0real <= e < 1real,
    ;
    lemma_in_range(Real::one());
    assert(in_range(ee));
    lemma_nearest_in_unit_interval(ee, squared);
    let before_one = Real { bits: 0x3fef_ffff_ffff_ffff };
    crate::ieee_lemmas::lemma_below_on_bits(before_one, Real::one());
    lemma_below_one(before_one);
    crate::ieee_lemmas::lemma_at_most_on_bits(eccentricity, before_one);
    crate::ieee_lemmas::lemma_below_on_bits(eccentricity, Real::one());
    lemma_exact_order(eccentricity, before_one);
    lemma_nearest_keeps_between(ee, squared, Real::zero(), before_one);
    let s = exact_value(squared);
    assert(s * big <= big - 1real);

    // 1 - that, rounded.
    let first = 1real - s;
    assert(first * big >= 1real && first <= 1real);
    assert(least <= first) by (nonlinear_arith)
        requires
            first * 9007199254740992real >= 1real,
            least * ten_to_the_300() <= 1real,
            least > 0real,
            ten_to_the_300() >= 9007199254740992real,
    ;
    assert(in_range(first));
    lemma_nearest_is_accurate(first, under);
    lemma_nearest_keeps_between(first, under, least_normal(), Real::one());

    // Its root, and the product with the semi-major axis.
    lemma_rounded_root(fpu, under, root);
    let m1 = exact_value(a1);
    let rt = exact_value(root);
    let u = exact_value(under);
    assert(u * big * 2real >= 1real);
    lemma_axis_times_root_is_normal(exact_a, r, 1real - e, m1, u, rt, least, most);
    let turned = m1 * rt;
    assert(in_range(turned));
    assert(a1.finite() && root.finite());
    lemma_nearest_is_accurate(turned, b);
    lemma_minor_squared(exact_a, e, m1, s, u, rt, exact_value(b));
}

/// The square of the focal distance returned is `a * a * e * e` to within
/// one part in 10^11 of `a * a`, for the exact semi-major axis `a`.
#[verifier::rlimit(60)]
proof fn lemma_focal_distance_squared_is_near<A: Arithmetic>(
    fpu: &A,
    elements: Elements,
    c: Real,
    exact_a: real,
)
    requires
        rounds_to_nearest(fpu),
        evaluates(fpu, focal_distance_formula(elements), c),
        elliptic(elements.eccentricity@),
        elements.periapsis.0.finite(),
        well_in_range(exact_value(elements.periapsis.0)),
        exact_a * (1real - exact_value(elements.eccentricity@)) == exact_value(
            elements.periapsis.0,
        ),
    ensures
        c.finite(),
        distance(
            exact_value(c) * exact_value(c),
            exact_a * exact_a * (exact_value(elements.eccentricity@) * exact_value(
                elements.eccentricity@,
            )),
        ) * 100_000_000_000real <= exact_a * exact_a,
{
    let eccentricity = elements.eccentricity@;
    let e = exact_value(eccentricity);
    let r = exact_value(elements.periapsis.0);
    let e_value = value(eccentricity);
    let major = semi_major_axis_formula(elements);
    lemma_small_constants();
    lemma_exact_integer(Real::zero(), 0);
    lemma_exact_integer(Real::one(), 1);
    lemma_exact_order(eccentricity, Real::zero());
    lemma_below_one(eccentricity);
    lemma_normal_range();
    lemma_normal_range_is_wide();
    let least = exact_value(least_normal());
    let most = exact_value(greatest());
    let big = 9007199254740992real;
    assert(0real <= e < 1real);

    lemma_evaluates_product(fpu, e_value, major, c);
    let (ecc, a2) = choose|x: Real, y: Real| #[trigger]
        evaluates(fpu, e_value, x) && #[trigger] evaluates(fpu, major, y) && call_ensures(
            A::product,
            (fpu, x, y),
            c,
        );
    lemma_evaluates_value(fpu, eccentricity, ecc);
    lemma_semi_major_axis_is_near(fpu, elements, a2, exact_a);

    let m2 = exact_value(a2);
    let reach = e * m2;
    assert(exact_a <= r * big) by (nonlinear_arith)
        requires
            exact_a * (1real - e) == r,
            (1real - e) * big >= 1real,
            exact_a > 0real,
    {
        assert(exact_a * ((1real - e) * big) >= exact_a);
    }
    assert(0real <= reach <= most) by (nonlinear_arith)
        requires
            reach == e * m2,
            0real <= e < 1real,
            m2 > 0real,
            m2 <= 2real * exact_a,
            exact_a <= r * big,
            r * 100_000_000_000_000_000_000real <= most,
            big == 9007199254740992real,
    {
        assert(reach <= m2);
    }
    assert(in_range(reach));
    assert(ecc.finite() && a2.finite());
    lemma_nearest_keeps_between(reach, c, Real::zero(), greatest());
    if reach >= least {
        lemma_nearest_is_accurate(reach, c);
    } else {
        lemma_nearest_keeps_between(reach, c, Real::zero(), least_normal());
    }
    assert(least * least * 1_000_000_000_000real <= exact_a * exact_a) by (nonlinear_arith)
        requires
            exact_a >= r,
            least * 100_000_000_000_000_000_000real <= r,
            least > 0real,
    {
        assert(least * 1_000_000real <= exact_a);
        assert((least * 1_000_000real) * (least * 1_000_000real) <= exact_a * exact_a);
    }
    lemma_focal_squared(exact_a, e, m2, exact_value(c), least);
}

/// The axes are right-angled to one part in a million. In an arithmetic
/// that rounds to nearest, for an ellipse of eccentricity from 0 to less
/// than 1 and a periapsis well in the normal range, the squares of the
/// focal distance and of the semi-minor axis returned add up to the
/// square of the semi-major axis returned, to within one part in 10^6 of
/// the latter.
pub proof fn lemma_axes_are_nearly_pythagorean<A: Arithmetic>(
    fpu: &A,
    elements: Elements,
    a: Real,
    b: Real,
    c: Real,
)
    requires
        rounds_to_nearest(fpu),
        evaluates(fpu, semi_major_axis_formula(elements), a),
        evaluates(fpu, semi_minor_axis_formula(elements), b),
        evaluates(fpu, focal_distance_formula(elements), c),
        elliptic(elements.eccentricity@),
        elements.periapsis.0.finite(),
        well_in_range(exact_value(elements.periapsis.0)),
    ensures
        a.finite() && b.finite() && c.finite(),
        distance(
            exact_value(c) * exact_value(c) + exact_value(b) * exact_value(b),
            exact_value(a) * exact_value(a),
        ) * 1_000_000real <= exact_value(a) * exact_value(a),
{
    let eccentricity = elements.eccentricity@;
    let e = exact_value(eccentricity);
    let r = exact_value(elements.periapsis.0);
    lemma_small_constants();
    lemma_exact_integer(Real::zero(), 0);
    lemma_exact_integer(Real::one(), 1);
    lemma_exact_order(eccentricity, Real::zero());
    lemma_below_one(eccentricity);
    let g = 1real - e;
    let exact_a = r / g;
    assert(exact_a * g == r) by (nonlinear_arith)
        requires
            exact_a == r / g,
            g > 0real,
    ;
    lemma_semi_major_axis_is_near(fpu, elements, a, exact_a);
    lemma_minor_axis_squared_is_near(fpu, elements, b, exact_a);
    lemma_focal_distance_squared_is_near(fpu, elements, c, exact_a);

    let ee = e * e;
    let aa = exact_a * exact_a;
    let got = exact_value(a) * exact_value(a);
    let bb = exact_value(b) * exact_value(b);
    let cc = exact_value(c) * exact_value(c);
    lemma_square_is_near(exact_value(a), exact_a);
    assert(aa > 0real) by (nonlinear_arith)
        requires
            aa == exact_a * exact_a,
            exact_a > 0real,
    ;
    assert(aa * (1real - ee) + aa * ee == aa) by (nonlinear_arith);
    assert(distance(cc + bb, got) * 1_000_000real <= got) by (nonlinear_arith)
        requires
            distance(bb, aa * (1real - ee)) * 100_000_000_000real <= aa,
            distance(cc, aa * ee) * 100_000_000_000real <= aa,
            distance(got, aa) * 1_000_000_000_000real <= aa,
            aa * (1real - ee) + aa * ee == aa,
            aa > 0real,
    {
        assert(distance(cc + bb, aa) <= distance(bb, aa * (1real - ee)) + distance(cc, aa * ee));
        assert(distance(cc + bb, got) <= distance(cc + bb, aa) + distance(got, aa));
        assert(got * 2real >= aa);
    }
}


/// The greatest ratio of apoapsis to periapsis for which the round trip
/// is shown to hold: 10^6.
pub open spec fn greatest_ratio() -> real {
    1_000_000real
}

/// The rounded eccentricity of two positive distances `r_p <= r_a`: given
/// the rounded difference, the rounded sum and the rounded quotient, the
/// result is off by at most 8 parts in 2^53 of 1 from the `e` with
/// `e * (r_a + r_p) == r_a - r_p`.
proof fn lemma_eccentricity_is_near(
    gap: real,
    sum: real,
    got_gap: real,
    got_sum: real,
    got: real,
    e: real,
    least: real,
)
    requires
        sum > 0real,
        0real <= gap <= sum,
        e * sum == gap,
        0real < least,
        least * 9007199254740992real * 4real <= sum,
        gap >= least ==> distance(got_gap, gap) * 9007199254740992real <= gap,
        gap < least ==> 0real <= got_gap <= least,
        distance(got_sum, sum) * 9007199254740992real <= sum,
        got_sum > 0real,
        distance(got * got_sum, got_gap) * 9007199254740992real <= got_sum,
    ensures
        0real <= e <= 1real,
        distance(got, e) * 9007199254740992real <= 8real,
{
    let big = 9007199254740992real;
    assert(0real <= e <= 1real) by (nonlinear_arith)
        requires
            e * sum == gap,
            0real <= gap <= sum,
            sum > 0real,
    ;
    assert(got_sum * big >= sum * (big - 1real) && got_sum * big <= sum * (big + 1real));
    // The rounded difference over the exact sum is near e.
    let gs = got * got_sum;
    assert(distance(got_gap, gap) * big <= 2real * sum) by (nonlinear_arith)
        requires
            gap >= least ==> distance(got_gap, gap) * big <= gap,
            gap < least ==> 0real <= got_gap <= least,
            0real <= gap <= sum,
            least * big * 4real <= sum,
            0real < least,
            big == 9007199254740992real,
    {
        if gap < least {
            assert(distance(got_gap, gap) <= least);
        }
    }
    assert(distance(gs, gap) * big <= 4real * sum) by (nonlinear_arith)
        requires
            distance(gs, got_gap) * big <= got_sum,
            distance(got_gap, gap) * big <= 2real * sum,
            got_sum * big <= sum * (big + 1real),
            sum > 0real,
            big == 9007199254740992real,
    {
        assert(distance(gs, gap) <= distance(gs, got_gap) + distance(got_gap, gap));
        assert(got_sum <= 2real * sum);
    }
    // got * got_sum near e * sum, got_sum near sum: got near e.
    let es = e * sum;
    assert(distance(got * sum, es) * big <= 4real * sum + distance(got * sum, gs) * big);
    assert(got >= 0real - 1real && got <= 3real) by (nonlinear_arith)
        requires
            gs == got * got_sum,
            distance(gs, gap) * big <= 4real * sum,
            0real <= gap <= sum,
            got_sum * big >= sum * (big - 1real),
            got_sum * big <= sum * (big + 1real),
            sum > 0real,
            got_sum > 0real,
            big == 9007199254740992real,
    {
        assert(gs <= 2real * sum);
        assert(gs >= 0real - sum);
        assert(got_sum * 2real >= sum);
        if got > 3real {
            assert(got * got_sum > 3real * got_sum);
        }
        if got < 0real - 1real {
            assert(got * got_sum < (0real - 1real) * got_sum);
        }
    }
    assert(distance(got * sum, gs) * big <= 3real * sum) by (nonlinear_arith)
        requires
            gs == got * got_sum,
            0real - 1real <= got <= 3real,
            distance(got_sum, sum) * big <= sum,
            sum > 0real,
    {
        assert(distance(got * sum, got * got_sum) <= 3real * distance(got_sum, sum));
    }
    assert(distance(got, e) * big <= 7real) by (nonlinear_arith)
        requires
            distance(got * sum, e * sum) * big <= 7real * sum,
            sum > 0real,
    {
        assert(distance(got * sum, e * sum) == distance(got, e) * sum);
    }
}


/// The eccentricity that the arithmetic makes of two distances well in
/// the normal range, `r_p <= r_a <= 10^6 * r_p`, is that of an ellipse
/// proper, and off by at most 8 parts in 2^53 of 1 from the exact one.
proof fn lemma_rounded_eccentricity<A: Arithmetic>(
    fpu: &A,
    r_p: Meters,
    r_a: Meters,
    got: Real,
    e: real,
)
    requires
        rounds_to_nearest(fpu),
        evaluates(fpu, eccentricity_formula(r_p, r_a), got),
        r_p.0.finite(),
        r_a.0.finite(),
        well_in_range(exact_value(r_p.0)),
        well_in_range(exact_value(r_a.0)),
        exact_value(r_p.0) <= exact_value(r_a.0) <= greatest_ratio() * exact_value(r_p.0),
        e * (exact_value(r_a.0) + exact_value(r_p.0)) == exact_value(r_a.0) - exact_value(r_p.0),
    ensures
        elliptic(got),
        0real <= e < 1real,
        distance(exact_value(got), e) * 9007199254740992real <= 8real,
{
    let ra = exact_value(r_a.0);
    let rp = exact_value(r_p.0);
    let gap = ra - rp;
    let sum = ra + rp;
    let top = difference(value(r_a.0), value(r_p.0));
    let bottom = crate::arithmetic::sum(value(r_a.0), value(r_p.0));
    lemma_small_constants();
    lemma_exact_integer(Real::zero(), 0);
    lemma_exact_integer(Real::one(), 1);
    lemma_normal_range();
    lemma_normal_range_is_wide();
    let least = exact_value(least_normal());
    let most = exact_value(greatest());
    let big = 9007199254740992real;
    assert(rp > 0real && ra > 0real);
    assert(least * big * 4real <= sum && sum <= most && gap <= most) by (nonlinear_arith)
        requires
            sum == ra + rp,
            0real <= gap <= sum,
            least * 100_000_000_000_000_000_000real <= rp,
            least * 100_000_000_000_000_000_000real <= ra,
            rp * 100_000_000_000_000_000_000real <= most,
            ra * 100_000_000_000_000_000_000real <= most,
            least > 0real,
            big == 9007199254740992real,
    ;

    lemma_evaluates_quotient(fpu, top, bottom, got);
    let (d, s) = choose|x: Real, y: Real| #[trigger]
        evaluates(fpu, top, x) && #[trigger] evaluates(fpu, bottom, y) && call_ensures(
            A::quotient,
            (fpu, x, y),
            got,
        );
    lemma_evaluates_difference(fpu, value(r_a.0), value(r_p.0), d);
    let (a1, p1) = choose|x: Real, y: Real| #[trigger]
        evaluates(fpu, value(r_a.0), x) && #[trigger] evaluates(fpu, value(r_p.0), y)
            && call_ensures(A::difference, (fpu, x, y), d);
    lemma_evaluates_value(fpu, r_a.0, a1);
    lemma_evaluates_value(fpu, r_p.0, p1);
    lemma_evaluates_sum(fpu, value(r_a.0), value(r_p.0), s);
    let (a2, p2) = choose|x: Real, y: Real| #[trigger]
        evaluates(fpu, value(r_a.0), x) && #[trigger] evaluates(fpu, value(r_p.0), y)
            && call_ensures(A::sum, (fpu, x, y), s);
    lemma_evaluates_value(fpu, r_a.0, a2);
    lemma_evaluates_value(fpu, r_p.0, p2);

    // Difference and sum, rounded once each.
    assert(in_range(gap) && in_range(sum));
    lemma_nearest_keeps_between(gap, d, Real::zero(), greatest());
    if gap >= least {
        lemma_nearest_is_accurate(gap, d);
    } else {
        lemma_nearest_keeps_between(gap, d, Real::zero(), least_normal());
    }
    lemma_nearest_is_accurate(sum, s);
    lemma_nearest_keeps_between(sum, s, least_normal(), greatest());
    let dh = exact_value(d);
    let sh = exact_value(s);

    // Their quotient lies between 0 and 1.
    let q = dh / sh;
    assert(q * sh == dh && 0real <= q <= 1real) by (nonlinear_arith)
        requires
            q == dh / sh,
            sh > 0real,
            dh >= 0real,
            gap >= least ==> distance(dh, gap) * big <= gap,
            gap < least ==> dh <= least,
            distance(sh, sum) * big <= sum,
            least * big * 4real <= sum,
            0real <= gap,
            gap * 1_000_001real <= sum * 999_999real,
            sum > 0real,
            big == 9007199254740992real,
    {
        assert(sh * big >= sum * (big - 1real));
        assert(dh * big <= sum * (big - 1real)) by {
            if gap >= least {
                assert(dh * big <= gap * (big + 1real));
                assert(gap * (big + 1real) * 1_000_001real <= sum * 999_999real * (big + 1real));
                assert(999_999real * (big + 1real) <= 1_000_001real * (big - 1real));
            } else {
                assert(dh * big <= least * big);
            }
        }
        assert(dh <= sh);
    }
    assert(in_range(q));
    lemma_nearest_in_unit_interval(q, got);
    let eh = exact_value(got);
    assert(distance(eh * sh, dh) * big <= sh) by (nonlinear_arith)
        requires
            q * sh == dh,
            distance(eh, q) * big <= 1real,
            sh > 0real,
    {
        assert(distance(eh * sh, q * sh) == distance(eh, q) * sh);
    }
    lemma_eccentricity_is_near(gap, sum, dh, sh, eh, e, least);

    // Less than 1, so an ellipse.
    assert(e * 1_000_001real <= 999_999real) by (nonlinear_arith)
        requires
            e * sum == gap,
            gap * 1_000_001real <= sum * 999_999real,
            sum > 0real,
    ;
    assert(0real <= eh < 1real);
    lemma_exact_order(got, Real::zero());
    lemma_exact_order(got, Real::one());
}


/// From periapsis and apoapsis and back, to one part in a million. In an
/// arithmetic that rounds to nearest, for distances well in the normal
/// range, `r_p <= r_a <= 10^6 * r_p`, the ellipse made of them has the
/// periapsis `r_p`, and an apoapsis within one part in 10^6 of `r_a`.
pub proof fn lemma_apoapsis_round_trip_is_kept<A: Arithmetic>(
    fpu: &A,
    r_p: Meters,
    r_a: Meters,
    elements: Elements,
    apoapsis: Real,
)
    requires
        rounds_to_nearest(fpu),
        r_p.0.finite(),
        r_a.0.finite(),
        well_in_range(exact_value(r_p.0)),
        well_in_range(exact_value(r_a.0)),
        exact_value(r_p.0) <= exact_value(r_a.0) <= greatest_ratio() * exact_value(r_p.0),
        elements.periapsis == r_p,
        evaluates(fpu, eccentricity_formula(r_p, r_a), elements.eccentricity@),
        evaluates(fpu, apoapsis_formula(elements), apoapsis),
    ensures
        apoapsis.finite(),
        distance(exact_value(apoapsis), exact_value(r_a.0)) * 1_000_000real <= exact_value(r_a.0),
{
    let ra = exact_value(r_a.0);
    let rp = exact_value(r_p.0);
    let eccentricity = elements.eccentricity@;
    let eh = exact_value(eccentricity);
    let major = semi_major_axis_formula(elements);
    let reach = crate::arithmetic::sum(value(Real::one()), value(eccentricity));
    lemma_small_constants();
    lemma_exact_integer(Real::zero(), 0);
    lemma_exact_integer(Real::one(), 1);
    lemma_normal_range();
    lemma_normal_range_is_wide();
    let least = exact_value(least_normal());
    let most = exact_value(greatest());
    let big = 9007199254740992real;
    assert(rp > 0real && ra > 0real);
    let sum = ra + rp;
    let e = (ra - rp) / sum;
    assert(e * sum == ra - rp) by (nonlinear_arith)
        requires
            e == (ra - rp) / sum,
            sum > 0real,
    ;
    lemma_rounded_eccentricity(fpu, r_p, r_a, eccentricity, e);
    lemma_exact_order(eccentricity, Real::zero());
    lemma_exact_order(eccentricity, Real::one());
    let g = 1real - eh;
    let a = rp / g;
    assert(a * g == rp) by (nonlinear_arith)
        requires
            a == rp / g,
            g > 0real,
    ;
    lemma_apoapsis_of_near_eccentricity(rp, ra, e, eh, a);

    // What the arithmetic did.
    lemma_evaluates_product(fpu, major, reach, apoapsis);
    let (m, h) = choose|x: Real, y: Real| #[trigger]
        evaluates(fpu, major, x) && #[trigger] evaluates(fpu, reach, y) && call_ensures(
            A::product,
            (fpu, x, y),
            apoapsis,
        );
    lemma_semi_major_axis_is_near(fpu, elements, m, a);
    lemma_evaluates_sum(fpu, value(Real::one()), value(eccentricity), h);
    let (one, ecc) = choose|x: Real, y: Real| #[trigger]
        evaluates(fpu, value(Real::one()), x) && #[trigger] evaluates(fpu, value(eccentricity), y)
            && call_ensures(A::sum, (fpu, x, y), h);
    lemma_evaluates_value(fpu, Real::one(), one);
    lemma_evaluates_value(fpu, eccentricity, ecc);

    // 1 + e, rounded once.
    let up = 1real + eh;
    assert(least <= up <= most && in_range(up));
    lemma_nearest_is_accurate(up, h);
    lemma_exact_integer(Real::two(), 2);
    lemma_in_range(Real::two());
    lemma_nearest_keeps_between(up, h, Real::one(), Real::two());
    let hh = exact_value(h);
    let mh = exact_value(m);

    // The product, rounded once.
    let turned = mh * hh;
    assert(mh * 2real >= a && mh <= 2real * a);
    assert(turned >= mh && turned <= 2real * mh) by (nonlinear_arith)
        requires
            turned == mh * hh,
            1real <= hh <= 2real,
            mh > 0real,
    ;
    assert(turned * 2real >= rp && turned <= 4_000_004real * rp);
    assert(least <= turned <= most) by (nonlinear_arith)
        requires
            turned * 2real >= rp,
            turned <= 4_000_004real * rp,
            rp > 0real,
            least * 100_000_000_000_000_000_000real <= rp,
            rp * 100_000_000_000_000_000_000real <= most,
            least > 0real,
    ;
    assert(in_range(turned));
    assert(m.finite() && h.finite());
    lemma_nearest_is_accurate(turned, apoapsis);
    let got = exact_value(apoapsis);
    let x = a * up;
    assert(distance(turned, x) * 1_000_000_000real <= x) by (nonlinear_arith)
        requires
            turned == mh * hh,
            x == a * up,
            distance(mh, a) * 2251799813685248real <= a,
            distance(hh, up) * big <= up,
            a > 0real,
            1real <= up <= 2real,
            big == 9007199254740992real,
    {
        assert(distance(mh * hh, a * up) <= distance(mh, a) * hh + a * distance(hh, up));
        assert(hh <= 2real * up);
        assert(distance(mh, a) * hh * 2251799813685248real <= a * (2real * up));
        assert(a * distance(hh, up) * big <= a * up);
    }
    assert(distance(got, ra) * 1_000_000real <= ra) by (nonlinear_arith)
        requires
            distance(got, turned) * big <= turned,
            distance(turned, x) * 1_000_000_000real <= x,
            distance(x, ra) * 100_000_000real <= ra,
            ra > 0real,
            big == 9007199254740992real,
    {
        assert(distance(got, ra) <= distance(got, turned) + distance(turned, x) + distance(
            x,
            ra,
        ));
        assert(x <= 2real * ra);
        assert(turned <= 2real * x);
    }
}

} // verus!
