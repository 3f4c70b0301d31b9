//! What the formulas of the ellipse satisfy in exact arithmetic.
//!
//! Each law here speaks of the value that a formula has over the real
//! numbers, where it has one. An arithmetic that rounds departs from that
//! value by its rounding errors, of which nothing is said here.

use vstd::prelude::*;

use crate::arithmetic::{difference, product, quotient, square_root, sum, value};
use crate::exact::{
    exact_value, lemma_exact_integer, lemma_exact_order, lemma_means_difference,
    lemma_means_product, lemma_means_quotient, lemma_means_square_root, lemma_means_sum,
    lemma_means_value, lemma_one_meaning, means,
};
use crate::ieee::Real;
use crate::ieee_lemmas::lemma_small_constants;
use crate::kepler::{
    apoapsis_formula, eccentricity_formula, focal_distance_formula, focal_eccentricity_formula,
    semi_major_axis_formula, semi_minor_axis_formula, two_a_formula, two_c_formula, Elements,
};
use crate::utils::Meters;

verus! {

/// The semi-major axis `a` times `1 - e` is the periapsis.
pub proof fn lemma_semi_major_axis(elements: Elements, a: real)
    requires
        means(semi_major_axis_formula(elements), a),
    ensures
        elements.eccentricity@.finite(),
        elements.periapsis.0.finite(),
        exact_value(elements.eccentricity@) != 1real,
        a * (1real - exact_value(elements.eccentricity@)) == exact_value(elements.periapsis.0),
{
    let gap = difference(value(Real::one()), value(elements.eccentricity@));
    lemma_means_quotient(value(elements.periapsis.0), gap, a);
    let (p, g) = choose|x: real, y: real| #[trigger]
        means(value(elements.periapsis.0), x) && #[trigger] means(gap, y) && y != 0real && a * y
            == x;
    lemma_means_value(elements.periapsis.0, p);
    lemma_means_difference(value(Real::one()), value(elements.eccentricity@), g);
    let (o, e) = choose|x: real, y: real| #[trigger]
        means(value(Real::one()), x) && #[trigger] means(value(elements.eccentricity@), y) && g
            == x - y;
    lemma_means_value(Real::one(), o);
    lemma_means_value(elements.eccentricity@, e);
    lemma_small_constants();
    lemma_exact_integer(Real::one(), 1);
}

/// The ellipse is right-angled at its center: the squares of the focal
/// distance and of the semi-minor axis add up to the square of the
/// semi-major axis.
pub proof fn lemma_axes_are_pythagorean(elements: Elements, a: real, b: real, c: real)
    requires
        means(semi_major_axis_formula(elements), a),
        means(semi_minor_axis_formula(elements), b),
        means(focal_distance_formula(elements), c),
    ensures
        c * c + b * b == a * a,
{
    let e_value = value(elements.eccentricity@);
    let major = semi_major_axis_formula(elements);
    let under = difference(value(Real::one()), product(e_value, e_value));
    lemma_small_constants();
    lemma_exact_integer(Real::one(), 1);

    lemma_means_product(major, square_root(under), b);
    let (a1, s) = choose|x: real, y: real| #[trigger]
        means(major, x) && #[trigger] means(square_root(under), y) && b == x * y;
    lemma_one_meaning(major, a, a1);
    lemma_means_square_root(under, s);
    let u = choose|x: real| #[trigger] means(under, x) && s >= 0real && s * s == x;
    lemma_means_difference(value(Real::one()), product(e_value, e_value), u);
    let (o, ee) = choose|x: real, y: real| #[trigger]
        means(value(Real::one()), x) && #[trigger] means(product(e_value, e_value), y) && u == x
            - y;
    lemma_means_value(Real::one(), o);
    lemma_means_product(e_value, e_value, ee);
    let (e1, e2) = choose|x: real, y: real| #[trigger]
        means(e_value, x) && #[trigger] means(e_value, y) && ee == x * y;
    lemma_means_value(elements.eccentricity@, e1);
    lemma_means_value(elements.eccentricity@, e2);

    lemma_means_product(e_value, major, c);
    let (e3, a2) = choose|x: real, y: real| #[trigger]
        means(e_value, x) && #[trigger] means(major, y) && c == x * y;
    lemma_means_value(elements.eccentricity@, e3);
    lemma_one_meaning(major, a, a2);

    let e = exact_value(elements.eccentricity@);
    assert(c * c + b * b == a * a) by (nonlinear_arith)
        requires
            b == a * s,
            c == e * a,
            s * s == 1real - e * e,
    ;
}

/// From periapsis and apoapsis and back: an ellipse whose periapsis is
/// `r_p` and whose eccentricity is exactly `(r_a - r_p) / (r_a + r_p)` has
/// the apoapsis `r_a`.
pub proof fn lemma_apoapsis_round_trip(elements: Elements, r_p: Meters, r_a: Meters, x: real)
    requires
        elements.periapsis == r_p,
        means(eccentricity_formula(r_p, r_a), exact_value(elements.eccentricity@)),
        means(apoapsis_formula(elements), x),
    ensures
        x == exact_value(r_a.0),
{
    let e = exact_value(elements.eccentricity@);
    let major = semi_major_axis_formula(elements);
    let top = difference(value(r_a.0), value(r_p.0));
    let bottom = sum(value(r_a.0), value(r_p.0));
    lemma_small_constants();
    lemma_exact_integer(Real::one(), 1);

    lemma_means_quotient(top, bottom, e);
    let (n, d) = choose|x: real, y: real| #[trigger]
        means(top, x) && #[trigger] means(bottom, y) && y != 0real && e * y == x;
    lemma_means_difference(value(r_a.0), value(r_p.0), n);
    let (ra1, rp1) = choose|x: real, y: real| #[trigger]
        means(value(r_a.0), x) && #[trigger] means(value(r_p.0), y) && n == x - y;
    lemma_means_value(r_a.0, ra1);
    lemma_means_value(r_p.0, rp1);
    lemma_means_sum(value(r_a.0), value(r_p.0), d);
    let (ra2, rp2) = choose|x: real, y: real| #[trigger]
        means(value(r_a.0), x) && #[trigger] means(value(r_p.0), y) && d == x + y;
    lemma_means_value(r_a.0, ra2);
    lemma_means_value(r_p.0, rp2);

    let reach = sum(value(Real::one()), value(elements.eccentricity@));
    lemma_means_product(major, reach, x);
    let (a, w) = choose|p: real, q: real| #[trigger]
        means(major, p) && #[trigger] means(reach, q) && x == p * q;
    lemma_semi_major_axis(elements, a);
    lemma_means_sum(value(Real::one()), value(elements.eccentricity@), w);
    let (o, e1) = choose|p: real, q: real| #[trigger]
        means(value(Real::one()), p) && #[trigger] means(value(elements.eccentricity@), q) && w
            == p + q;
    lemma_means_value(Real::one(), o);
    lemma_means_value(elements.eccentricity@, e1);

    let ra = exact_value(r_a.0);
    let rp = exact_value(r_p.0);
    assert(x * d == ra * d) by (nonlinear_arith)
        requires
            d == ra + rp,
            d != 0real,
            e * d == ra - rp,
            a * (1real - e) == rp,
            e != 1real,
            x == a * (1real + e),
    {
        assert((1real - e) * d == 2real * rp);
        assert((1real + e) * d == 2real * ra);
        assert(a * ((1real - e) * d) == rp * d);
        assert(a * (2real * rp) == rp * d);
        assert(rp != 0real);
        assert(2real * a == d);
        assert(x * d == a * ((1real + e) * d));
    }
    assert(x == ra) by (nonlinear_arith)
        requires
            x * d == ra * d,
            d != 0real,
    ;
}

/// An apoapsis beyond a positive periapsis makes an ellipse: the exact
/// eccentricity of positive distances `r_p <= r_a` is at least 0 and less
/// than 1, and 0 just where the two are equal.
pub proof fn lemma_eccentricity_of_an_ellipse(r_p: Meters, r_a: Meters, e: real)
    requires
        means(eccentricity_formula(r_p, r_a), e),
        0real < exact_value(r_p.0) <= exact_value(r_a.0),
    ensures
        0real <= e < 1real,
        e == 0real <==> exact_value(r_p.0) == exact_value(r_a.0),
{
    let top = difference(value(r_a.0), value(r_p.0));
    let bottom = sum(value(r_a.0), value(r_p.0));
    lemma_means_quotient(top, bottom, e);
    let (n, d) = choose|x: real, y: real| #[trigger]
        means(top, x) && #[trigger] means(bottom, y) && y != 0real && e * y == x;
    lemma_means_difference(value(r_a.0), value(r_p.0), n);
    let (ra1, rp1) = choose|x: real, y: real| #[trigger]
        means(value(r_a.0), x) && #[trigger] means(value(r_p.0), y) && n == x - y;
    lemma_means_value(r_a.0, ra1);
    lemma_means_value(r_p.0, rp1);
    lemma_means_sum(value(r_a.0), value(r_p.0), d);
    let (ra2, rp2) = choose|x: real, y: real| #[trigger]
        means(value(r_a.0), x) && #[trigger] means(value(r_p.0), y) && d == x + y;
    lemma_means_value(r_a.0, ra2);
    lemma_means_value(r_p.0, rp2);
    let ra = exact_value(r_a.0);
    let rp = exact_value(r_p.0);
    assert(0real <= e < 1real && (e == 0real <==> rp == ra)) by (nonlinear_arith)
        requires
            e * (ra + rp) == ra - rp,
            0real < rp <= ra,
    ;
}

/// The eccentricity found from two focal radii is that of an ellipse or a
/// line: for distances that are not negative, its exact value lies
/// between 0 and 1.
pub proof fn lemma_focal_eccentricity_in_unit_interval(r_f: Meters, r_f_p: Meters, e: real)
    requires
        means(focal_eccentricity_formula(r_f, r_f_p), e),
        exact_value(r_f.0) >= 0real,
        exact_value(r_f_p.0) >= 0real,
    ensures
        0real <= e <= 1real,
{
    let two = value(Real::two());
    let two_c = two_c_formula(r_f, r_f_p);
    let two_a = two_a_formula(r_f, r_f_p);
    lemma_small_constants();
    lemma_exact_integer(Real::two(), 2);
    lemma_means_quotient(quotient(two_c, two), quotient(two_a, two), e);
    let (c, a) = choose|x: real, y: real| #[trigger]
        means(quotient(two_c, two), x) && #[trigger] means(quotient(two_a, two), y) && y != 0real
            && e * y == x;
    lemma_means_quotient(two_c, two, c);
    let (cc, t1) = choose|x: real, y: real| #[trigger]
        means(two_c, x) && #[trigger] means(two, y) && y != 0real && c * y == x;
    lemma_means_value(Real::two(), t1);
    lemma_means_quotient(two_a, two, a);
    let (aa, t2) = choose|x: real, y: real| #[trigger]
        means(two_a, x) && #[trigger] means(two, y) && y != 0real && a * y == x;
    lemma_means_value(Real::two(), t2);
    lemma_means_sum(value(r_f.0), value(r_f_p.0), aa);
    let (f1, f2) = choose|x: real, y: real| #[trigger]
        means(value(r_f.0), x) && #[trigger] means(value(r_f_p.0), y) && aa == x + y;
    lemma_means_value(r_f.0, f1);
    lemma_means_value(r_f_p.0, f2);
    lemma_exact_order(r_f_p.0, r_f.0);
    if r_f.0.above(r_f_p.0) {
        lemma_means_difference(value(r_f.0), value(r_f_p.0), cc);
        let (g1, g2) = choose|x: real, y: real| #[trigger]
            means(value(r_f.0), x) && #[trigger] means(value(r_f_p.0), y) && cc == x - y;
        lemma_means_value(r_f.0, g1);
        lemma_means_value(r_f_p.0, g2);
    } else {
        lemma_means_difference(value(r_f_p.0), value(r_f.0), cc);
        let (g1, g2) = choose|x: real, y: real| #[trigger]
            means(value(r_f_p.0), x) && #[trigger] means(value(r_f.0), y) && cc == x - y;
        lemma_means_value(r_f_p.0, g1);
        lemma_means_value(r_f.0, g2);
    }
    assert(0real <= cc <= aa);
    assert(0real <= e <= 1real) by (nonlinear_arith)
        requires
            0real <= cc <= aa,
            c * 2real == cc,
            a * 2real == aa,
            a != 0real,
            e * a == c,
    ;
}

} // verus!
