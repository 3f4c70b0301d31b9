//! How near the tether formulas come to their exact values in an
//! arithmetic that rounds to nearest.
//!
//! The laws here hold of every arithmetic that rounds as IEEE-754
//! arithmetic does, on inputs whose intermediate results stay in the
//! normal range of the doubles. They speak of squares: a velocity `v` is
//! within one part in 10^12 of the root of `w` exactly when `v` is not
//! negative and `v * v` lies between `w * (1 - 10^-12)^2` and
//! `w * (1 + 10^-12)^2`.

use vstd::prelude::*;

use crate::arithmetic::{
    evaluates, lemma_evaluates_power, lemma_evaluates_product, lemma_evaluates_quotient,
    lemma_evaluates_square_root, lemma_evaluates_value, power, product, quotient, square_root,
    value, Arithmetic,
};
use crate::exact::{exact_value, lemma_exact_integer, lemma_exact_order};
use crate::ieee::Real;
use crate::ieee_lemmas::{lemma_at_most_on_bits, lemma_small_constants};
use crate::rounding::{
    cubes_accurately, distance, greatest, in_range, least_normal, lemma_in_range,
    lemma_nearest_is_accurate, lemma_nearest_of_a_double, lemma_nearest_stays_normal,
    lemma_normal_range, lemma_normal_range_is_wide, lemma_rounded_quotient,
    lemma_rounded_root, lemma_twice, rounds_to_nearest, ten_to_the_300,
};
use crate::squares::{
    lemma_of_cube, lemma_over_cube, lemma_period_squares, lemma_ratios_agree,
    lemma_root_squares_to, lemma_same_square, lemma_square_is_near, period_squares_to,
    squares_to,
};
use crate::tether_laws::{lemma_efficiency_sign, lemma_tau_positive};
use crate::tethers::{
    angular_velocity_formula, characteristic_velocity_formula, lemma_limits, material_fault,
    max_tensile_strength, orbital_period_formula, orbital_velocity_formula,
};
use crate::utils::{
    tau, KilogramsPerMetersCubed, Meters, MetersCubedByKilogramSecondsSquared, Pascals,
};

verus! {

/// Characteristic velocity to one part in 10^12. In an arithmetic that
/// rounds to nearest, for a material of the domain whose exact quotient
/// `2 * strength / density` lies in the normal range of the doubles, every
/// value that the formula takes is a positive finite number that squares
/// to that quotient.
pub proof fn lemma_characteristic_velocity_is_accurate<A: Arithmetic>(
    fpu: &A,
    tensile_strength: Pascals,
    density: KilogramsPerMetersCubed,
    v: Real,
)
    requires
        rounds_to_nearest(fpu),
        tensile_strength.0.finite(),
        density.0.finite(),
        material_fault(tensile_strength, density) is None,
        evaluates(fpu, characteristic_velocity_formula(tensile_strength, density), v),
        exact_value(least_normal()) * exact_value(density.0) <= 2real * exact_value(
            tensile_strength.0,
        ),
        2real * exact_value(tensile_strength.0) <= exact_value(greatest()) * exact_value(
            density.0,
        ),
    ensures
        v.finite(),
        exact_value(v) > 0real,
        squares_to(exact_value(v), exact_value(density.0), 2real * exact_value(tensile_strength.0)),
{
    let strength = tensile_strength.0;
    let doubled = product(value(strength), value(Real::two()));
    let ratio = quotient(doubled, value(density.0));
    let s = exact_value(strength);
    let d = exact_value(density.0);
    lemma_small_constants();
    lemma_exact_integer(Real::zero(), 0);
    lemma_exact_integer(Real::two(), 2);
    lemma_normal_range();
    lemma_exact_order(strength, Real::zero());
    lemma_exact_order(density.0, Real::zero());
    assert(s > 0real && d > 0real);

    // What the arithmetic did.
    lemma_evaluates_square_root(fpu, ratio, v);
    let q = choose|x: Real| #[trigger]
        evaluates(fpu, ratio, x) && call_ensures(A::square_root, (fpu, x), v);
    lemma_evaluates_quotient(fpu, doubled, value(density.0), q);
    let (p, rho) = choose|x: Real, y: Real| #[trigger]
        evaluates(fpu, doubled, x) && #[trigger] evaluates(fpu, value(density.0), y)
            && call_ensures(A::quotient, (fpu, x, y), q);
    lemma_evaluates_value(fpu, density.0, rho);
    lemma_evaluates_product(fpu, value(strength), value(Real::two()), p);
    let (sigma, two) = choose|x: Real, y: Real| #[trigger]
        evaluates(fpu, value(strength), x) && #[trigger] evaluates(fpu, value(Real::two()), y)
            && call_ensures(A::product, (fpu, x, y), p);
    lemma_evaluates_value(fpu, strength, sigma);
    lemma_evaluates_value(fpu, Real::two(), two);

    // Doubling is exact.
    lemma_limits();
    lemma_at_most_on_bits(strength, max_tensile_strength());
    let twice = lemma_twice(strength);
    lemma_in_range(twice);
    assert(exact_value(strength) * exact_value(Real::two()) == 2real * s);
    lemma_nearest_of_a_double(2real * s, p, twice);

    // The quotient and the root are rounded once each.
    lemma_rounded_quotient(fpu, p, density.0, q);
    lemma_rounded_root(fpu, q, v);
    lemma_root_squares_to(exact_value(v), exact_value(q), d, 2real * s);
}

/// Orbital velocity to one part in 10^12, and its square to one part in
/// 10^10. In an arithmetic that rounds to nearest, on an orbit whose exact
/// quotient `mu / radius` lies in the normal range of the doubles, every
/// value that the formula takes is a positive finite number that squares
/// to that quotient.
pub proof fn lemma_orbital_velocity_is_accurate<A: Arithmetic>(
    fpu: &A,
    radius: Meters,
    gravitational_parameter: MetersCubedByKilogramSecondsSquared,
    v: Real,
)
    requires
        rounds_to_nearest(fpu),
        radius.0.finite(),
        gravitational_parameter.0.finite(),
        exact_value(radius.0) > 0real,
        evaluates(fpu, orbital_velocity_formula(radius, gravitational_parameter), v),
        exact_value(least_normal()) * exact_value(radius.0) <= exact_value(
            gravitational_parameter.0,
        ) <= exact_value(greatest()) * exact_value(radius.0),
    ensures
        v.finite(),
        exact_value(v) > 0real,
        squares_to(exact_value(v), exact_value(radius.0), exact_value(gravitational_parameter.0)),
        distance(
            exact_value(v) * exact_value(v) * exact_value(radius.0),
            exact_value(gravitational_parameter.0),
        ) * 10_000_000_000real <= exact_value(gravitational_parameter.0),
{
    let r = exact_value(radius.0);
    let m = exact_value(gravitational_parameter.0);
    let ratio = quotient(value(gravitational_parameter.0), value(radius.0));
    lemma_normal_range();
    assert(m > 0real) by (nonlinear_arith)
        requires
            exact_value(least_normal()) * r <= m,
            exact_value(least_normal()) > 0real,
            r > 0real,
    ;
    lemma_evaluates_square_root(fpu, ratio, v);
    let q = choose|x: Real| #[trigger]
        evaluates(fpu, ratio, x) && call_ensures(A::square_root, (fpu, x), v);
    lemma_evaluates_quotient(fpu, value(gravitational_parameter.0), value(radius.0), q);
    let (mu, rho) = choose|x: Real, y: Real| #[trigger]
        evaluates(fpu, value(gravitational_parameter.0), x) && #[trigger] evaluates(
            fpu,
            value(radius.0),
            y,
        ) && call_ensures(A::quotient, (fpu, x, y), q);
    lemma_evaluates_value(fpu, gravitational_parameter.0, mu);
    lemma_evaluates_value(fpu, radius.0, rho);

    lemma_rounded_quotient(fpu, gravitational_parameter.0, radius.0, q);
    lemma_rounded_root(fpu, q, v);
    lemma_root_squares_to(exact_value(v), exact_value(q), r, m);
    lemma_square_is_near(exact_value(v), r, m);
}

/// The cube of the radius lies in the normal range, and the quotient of
/// `m` and the cube, `m` on top or below as `on_top` says, does so with a
/// factor of two to spare.
pub open spec fn cube_in_range(r: real, m: real, on_top: bool) -> bool {
    &&& r > 0real
    &&& m > 0real
    &&& exact_value(least_normal()) <= r * r * r <= exact_value(greatest())
    &&& if on_top {
        2real * exact_value(least_normal()) * (r * r * r) <= m && 2real * m <= exact_value(
            greatest(),
        ) * (r * r * r)
    } else {
        2real * exact_value(least_normal()) * m <= r * r * r && 2real * (r * r * r)
            <= exact_value(greatest()) * m
    }
}

/// The rounded cube of a radius: a positive double within one part in
/// 2^52 of the exact cube, so between half and twice of it.
proof fn lemma_rounded_cube<A: Arithmetic>(fpu: &A, radius: Real, c: Real)
    requires
        cubes_accurately(fpu),
        call_ensures(A::power, (fpu, radius, Real::three()), c),
        radius.finite(),
        exact_value(radius) > 0real,
        exact_value(least_normal()) <= exact_value(radius) * exact_value(radius) * exact_value(
            radius,
        ) <= exact_value(greatest()),
    ensures
        c.finite(),
        exact_value(c) > 0real,
        exact_value(c) * 2real >= exact_value(radius) * exact_value(radius) * exact_value(radius),
        exact_value(c) <= 2real * (exact_value(radius) * exact_value(radius) * exact_value(
            radius,
        )),
        distance(
            exact_value(c),
            exact_value(radius) * exact_value(radius) * exact_value(radius),
        ) * 4503599627370496real <= exact_value(radius) * exact_value(radius) * exact_value(
            radius,
        ),
{
    let r = exact_value(radius);
    let cube = r * r * r;
    let got = exact_value(c);
    lemma_normal_range();
    assert(c.finite() && distance(got, cube) * 4503599627370496real <= cube);
    assert(got > 0real && got * 2real >= cube && got <= 2real * cube) by (nonlinear_arith)
        requires
            distance(got, cube) * 4503599627370496real <= cube,
            cube > 0real,
    ;
}

/// Angular velocity to one part in 10^12. In an arithmetic that rounds
/// to nearest and cubes to within a unit in the last place, on an orbit
/// for which the cube of the radius and the quotient of `mu` by it lie in
/// the normal range, every value that the formula takes is a positive
/// finite number that squares to that quotient.
pub proof fn lemma_angular_velocity_is_accurate<A: Arithmetic>(
    fpu: &A,
    radius: Meters,
    gravitational_parameter: MetersCubedByKilogramSecondsSquared,
    omega: Real,
)
    requires
        rounds_to_nearest(fpu),
        cubes_accurately(fpu),
        radius.0.finite(),
        gravitational_parameter.0.finite(),
        evaluates(fpu, angular_velocity_formula(radius, gravitational_parameter), omega),
        cube_in_range(exact_value(radius.0), exact_value(gravitational_parameter.0), true),
    ensures
        omega.finite(),
        exact_value(omega) > 0real,
        squares_to(
            exact_value(omega),
            exact_value(radius.0) * exact_value(radius.0) * exact_value(radius.0),
            exact_value(gravitational_parameter.0),
        ),
{
    let r = exact_value(radius.0);
    let m = exact_value(gravitational_parameter.0);
    let cube = r * r * r;
    let cube_formula = power(value(radius.0), value(Real::three()));
    let ratio = quotient(value(gravitational_parameter.0), cube_formula);
    lemma_normal_range();
    let least = exact_value(least_normal());
    let most = exact_value(greatest());

    lemma_evaluates_square_root(fpu, ratio, omega);
    let q = choose|x: Real| #[trigger]
        evaluates(fpu, ratio, x) && call_ensures(A::square_root, (fpu, x), omega);
    lemma_evaluates_quotient(fpu, value(gravitational_parameter.0), cube_formula, q);
    let (mu, c) = choose|x: Real, y: Real| #[trigger]
        evaluates(fpu, value(gravitational_parameter.0), x) && #[trigger] evaluates(
            fpu,
            cube_formula,
            y,
        ) && call_ensures(A::quotient, (fpu, x, y), q);
    lemma_evaluates_value(fpu, gravitational_parameter.0, mu);
    lemma_evaluates_power(fpu, value(radius.0), value(Real::three()), c);
    let (base, three) = choose|x: Real, y: Real| #[trigger]
        evaluates(fpu, value(radius.0), x) && #[trigger] evaluates(fpu, value(Real::three()), y)
            && call_ensures(A::power, (fpu, x, y), c);
    lemma_evaluates_value(fpu, radius.0, base);
    lemma_evaluates_value(fpu, Real::three(), three);

    lemma_rounded_cube(fpu, radius.0, c);
    let got_cube = exact_value(c);
    assert(least * got_cube <= m <= most * got_cube) by (nonlinear_arith)
        requires
            2real * least * cube <= m,
            2real * m <= most * cube,
            got_cube * 2real >= cube,
            got_cube <= 2real * cube,
            least > 0real,
            most > 0real,
    {
        assert(least * got_cube <= least * (2real * cube));
        assert(most * (got_cube * 2real) >= most * cube);
    }
    lemma_rounded_quotient(fpu, gravitational_parameter.0, c, q);
    lemma_rounded_root(fpu, q, omega);
    lemma_over_cube(exact_value(q), got_cube, cube, m);
    lemma_root_squares_to(exact_value(omega), exact_value(q), cube, m);
}

/// Circular-orbit consistency to one part in 10^10. In an arithmetic that
/// rounds to nearest and cubes to within a unit in the last place, on an
/// orbit for which `mu / radius`, the cube of the radius and the quotient
/// of `mu` by it lie in the normal range, the velocity returned is within
/// one part in 10^10 of the angular velocity returned times the radius.
pub proof fn lemma_circular_orbit_consistency_is_kept<A: Arithmetic>(
    fpu: &A,
    radius: Meters,
    gravitational_parameter: MetersCubedByKilogramSecondsSquared,
    v: Real,
    omega: Real,
)
    requires
        rounds_to_nearest(fpu),
        cubes_accurately(fpu),
        radius.0.finite(),
        gravitational_parameter.0.finite(),
        evaluates(fpu, orbital_velocity_formula(radius, gravitational_parameter), v),
        evaluates(fpu, angular_velocity_formula(radius, gravitational_parameter), omega),
        exact_value(least_normal()) * exact_value(radius.0) <= exact_value(
            gravitational_parameter.0,
        ) <= exact_value(greatest()) * exact_value(radius.0),
        cube_in_range(exact_value(radius.0), exact_value(gravitational_parameter.0), true),
    ensures
        exact_value(v) > 0real,
        distance(exact_value(v), exact_value(omega) * exact_value(radius.0)) * 10_000_000_000real
            <= exact_value(v),
{
    lemma_orbital_velocity_is_accurate(fpu, radius, gravitational_parameter, v);
    lemma_angular_velocity_is_accurate(fpu, radius, gravitational_parameter, omega);
    let r = exact_value(radius.0);
    let m = exact_value(gravitational_parameter.0);
    let x = exact_value(v);
    let turn = exact_value(omega);
    let y = turn * r;
    assert(y > 0real && y * y * r == turn * turn * (r * r * r)) by (nonlinear_arith)
        requires
            y == turn * r,
            turn > 0real,
            r > 0real,
    ;
    assert(squares_to(y, r, m));
    lemma_same_square(x, y, r, m);
}

/// The orbital period to one part in 10^11. In an arithmetic that rounds
/// to nearest and cubes to within a unit in the last place, on an orbit
/// for which the cube of the radius and its quotient by `mu` lie in the
/// normal range, every value that the formula takes is a positive finite
/// number whose square, times `mu`, is the square of the full circle
/// times the cube of the radius, to within one part in 10^11 taken twice.
pub proof fn lemma_orbital_period_is_accurate<A: Arithmetic>(
    fpu: &A,
    radius: Meters,
    gravitational_parameter: MetersCubedByKilogramSecondsSquared,
    period: Real,
)
    requires
        rounds_to_nearest(fpu),
        cubes_accurately(fpu),
        radius.0.finite(),
        gravitational_parameter.0.finite(),
        evaluates(fpu, orbital_period_formula(radius, gravitational_parameter), period),
        cube_in_range(exact_value(radius.0), exact_value(gravitational_parameter.0), false),
    ensures
        period.finite(),
        exact_value(period) > 0real,
        period_squares_to(
            exact_value(period),
            exact_value(gravitational_parameter.0),
            exact_value(tau()),
            exact_value(radius.0) * exact_value(radius.0) * exact_value(radius.0),
        ),
{
    let r = exact_value(radius.0);
    let m = exact_value(gravitational_parameter.0);
    let cube = r * r * r;
    let circle = exact_value(tau());
    let cube_formula = power(value(radius.0), value(Real::three()));
    let ratio = quotient(cube_formula, value(gravitational_parameter.0));
    lemma_tau_positive();
    lemma_normal_range();
    lemma_normal_range_is_wide();
    let least = exact_value(least_normal());
    let most = exact_value(greatest());

    // What the arithmetic did.
    lemma_evaluates_product(fpu, value(tau()), square_root(ratio), period);
    let (full, root) = choose|x: Real, y: Real| #[trigger]
        evaluates(fpu, value(tau()), x) && #[trigger] evaluates(fpu, square_root(ratio), y)
            && call_ensures(A::product, (fpu, x, y), period);
    lemma_evaluates_value(fpu, tau(), full);
    lemma_evaluates_square_root(fpu, ratio, root);
    let q = choose|x: Real| #[trigger]
        evaluates(fpu, ratio, x) && call_ensures(A::square_root, (fpu, x), root);
    lemma_evaluates_quotient(fpu, cube_formula, value(gravitational_parameter.0), q);
    let (c, mu) = choose|x: Real, y: Real| #[trigger]
        evaluates(fpu, cube_formula, x) && #[trigger] evaluates(
            fpu,
            value(gravitational_parameter.0),
            y,
        ) && call_ensures(A::quotient, (fpu, x, y), q);
    lemma_evaluates_value(fpu, gravitational_parameter.0, mu);
    lemma_evaluates_power(fpu, value(radius.0), value(Real::three()), c);
    let (base, three) = choose|x: Real, y: Real| #[trigger]
        evaluates(fpu, value(radius.0), x) && #[trigger] evaluates(fpu, value(Real::three()), y)
            && call_ensures(A::power, (fpu, x, y), c);
    lemma_evaluates_value(fpu, radius.0, base);
    lemma_evaluates_value(fpu, Real::three(), three);

    // Cube, quotient and root.
    lemma_rounded_cube(fpu, radius.0, c);
    let got_cube = exact_value(c);
    assert(least * m <= got_cube <= most * m) by (nonlinear_arith)
        requires
            2real * least * m <= cube,
            2real * cube <= most * m,
            got_cube * 2real >= cube,
            got_cube <= 2real * cube,
    ;
    lemma_rounded_quotient(fpu, c, gravitational_parameter.0, q);
    lemma_rounded_root(fpu, q, root);
    lemma_of_cube(exact_value(q), got_cube, cube, m);
    lemma_root_squares_to(exact_value(root), exact_value(q), m, cube);

    // The product with the full circle stays in the normal range.
    let got = exact_value(root);
    let under_root = exact_value(q);
    let a = 9007199254740992real;
    let turned = circle * got;
    assert(least <= turned <= most) by (nonlinear_arith)
        requires
            turned == circle * got,
            6real < circle < 7real,
            got > 0real,
            least <= under_root <= most,
            got * got * ((a - 1real) * (a - 1real)) <= under_root * (a * a),
            under_root * (a * a) <= got * got * ((a + 1real) * (a + 1real)),
            0real < least < 1real,
            most >= ten_to_the_300(),
            ten_to_the_300() >= 1000real,
            a == 9007199254740992real,
    {
        if turned < least {
            assert(got < least);
            assert(got * got < least * least);
            assert(under_root * (a * a) < least * least * ((a + 1real) * (a + 1real)));
            assert(least * least * ((a + 1real) * (a + 1real)) <= least * (a * a));
            assert(false);
        }
        if turned > most {
            assert(got * 7real > most);
            assert(got * got * 49real > most * most);
            assert(under_root * (a * a) * 49real > most * most * ((a - 1real) * (a - 1real)));
            assert(most * ((a - 1real) * (a - 1real)) >= 49real * (a * a));
            assert(most * most * ((a - 1real) * (a - 1real)) >= most * (49real * (a * a)));
            assert(false);
        }
    }
    assert(in_range(turned));
    assert(full.finite() && root.finite());
    lemma_nearest_is_accurate(turned, period);
    lemma_nearest_stays_normal(turned, period);
    lemma_period_squares(exact_value(period), turned, circle, got, m, cube);
}

/// Kepler's third law to one part in 10^10. In an arithmetic that rounds
/// to nearest and cubes to within a unit in the last place, for two
/// orbits about one body, on each of which the cube of the radius and its
/// quotient by `mu` lie in the normal range, the square of the ratio of
/// the periods returned is within one part in 10^10 of the cube of the
/// ratio of the radii.
pub proof fn lemma_kepler_third_law_is_kept<A: Arithmetic>(
    fpu: &A,
    radius1: Meters,
    radius2: Meters,
    gravitational_parameter: MetersCubedByKilogramSecondsSquared,
    period1: Real,
    period2: Real,
)
    requires
        rounds_to_nearest(fpu),
        cubes_accurately(fpu),
        radius1.0.finite(),
        radius2.0.finite(),
        gravitational_parameter.0.finite(),
        evaluates(fpu, orbital_period_formula(radius1, gravitational_parameter), period1),
        evaluates(fpu, orbital_period_formula(radius2, gravitational_parameter), period2),
        cube_in_range(exact_value(radius1.0), exact_value(gravitational_parameter.0), false),
        cube_in_range(exact_value(radius2.0), exact_value(gravitational_parameter.0), false),
    ensures
        exact_value(period1) > 0real,
        exact_value(radius1.0) > 0real,
        distance(
            (exact_value(period2) / exact_value(period1)) * (exact_value(period2) / exact_value(
                period1,
            )),
            (exact_value(radius2.0) / exact_value(radius1.0)) * (exact_value(radius2.0)
                / exact_value(radius1.0)) * (exact_value(radius2.0) / exact_value(radius1.0)),
        ) * 10_000_000_000real <= (exact_value(radius2.0) / exact_value(radius1.0)) * (
        exact_value(radius2.0) / exact_value(radius1.0)) * (exact_value(radius2.0) / exact_value(
            radius1.0,
        )),
{
    lemma_orbital_period_is_accurate(fpu, radius1, gravitational_parameter, period1);
    lemma_orbital_period_is_accurate(fpu, radius2, gravitational_parameter, period2);
    lemma_tau_positive();
    let t1 = exact_value(period1);
    let t2 = exact_value(period2);
    let r1 = exact_value(radius1.0);
    let r2 = exact_value(radius2.0);
    let m = exact_value(gravitational_parameter.0);
    let circle = exact_value(tau());
    let x = t2 / t1;
    let y = r2 / r1;
    assert(x * t1 == t2 && y * r1 == r2) by (nonlinear_arith)
        requires
            x == t2 / t1,
            y == r2 / r1,
            t1 > 0real,
            r1 > 0real,
    ;
    lemma_ratios_agree(t1, t2, r1, r2, m, circle * circle, x, y);
}

/// Efficiency lies in the unit interval. In an arithmetic that follows
/// the sign rules, for every material and orbit with no fault, whatever
/// the velocity ratio comes to, the efficiency made of it is a number from
/// 0 to 1.
pub proof fn lemma_efficiency_is_in_unit_interval<A: Arithmetic>(
    fpu: &A,
    material: crate::materials::Material,
    radius: Meters,
    gravitational_parameter: MetersCubedByKilogramSecondsSquared,
    ratio: Real,
)
    requires
        crate::rounding::follows_sign_rules(fpu),
        crate::tethers::system_fault(material, radius, gravitational_parameter) is None,
        evaluates(
            fpu,
            crate::tethers::velocity_ratio_formula(material, radius, gravitational_parameter),
            ratio,
        ),
    ensures
        ratio.minimum(Real::one()).at_least_integer(0),
        ratio.minimum(Real::one()).at_most_integer(1),
{
    lemma_efficiency_sign(fpu, material, radius, gravitational_parameter, ratio);
    crate::tethers::lemma_efficiency_in_unit_interval(ratio);
}

} // verus!
