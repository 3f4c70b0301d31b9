//! What the tether formulas satisfy in exact arithmetic.
//!
//! Each law here speaks of the value that a formula has over the real
//! numbers, where it has one. An arithmetic that rounds departs from that
//! value by its rounding errors, of which nothing is said here.

use vstd::prelude::*;

use crate::arithmetic::{power, product, quotient, square_root, value};
use crate::exact::{
    exact_value, lemma_exact_integer, lemma_exact_order, lemma_means_cube, lemma_means_product,
    lemma_means_quotient, lemma_means_square_root, lemma_means_sum, lemma_means_value, means,
};
use crate::ieee::Real;
use crate::ieee_lemmas::lemma_small_constants;
use crate::materials::Material;
use crate::tethers::{
    angular_velocity_formula, characteristic_velocity_formula, orbit_fault,
    orbital_period_formula, orbital_velocity_formula, spin_multiplier_formula,
    velocity_ratio_formula,
};
use crate::utils::{
    lemma_constants, tau, KilogramsPerMetersCubed, Meters, MetersCubedByKilogramSecondsSquared,
    Pascals,
};

verus! {

/// The quotient of two given numbers means their exact quotient.
proof fn lemma_ratio_of_values(a: Real, b: Real, q: real)
    requires
        means(quotient(value(a), value(b)), q),
    ensures
        a.finite(),
        b.finite(),
        exact_value(b) != 0real,
        q * exact_value(b) == exact_value(a),
{
    lemma_means_quotient(value(a), value(b), q);
    let (x, y) = choose|x: real, y: real| #[trigger]
        means(value(a), x) && #[trigger] means(value(b), y) && y != 0real && q * y == x;
    lemma_means_value(a, x);
    lemma_means_value(b, y);
}

/// A number that is finite and not at most zero is positive.
proof fn lemma_positive(x: Real)
    requires
        x.finite(),
        !x.at_most(Real::zero()),
    ensures
        exact_value(x) > 0real,
{
    lemma_small_constants();
    lemma_exact_integer(Real::zero(), 0);
    lemma_exact_order(x, Real::zero());
}

/// Characteristic velocity is the root of twice the strength over the
/// density: its exact value `v` is not negative, and `v * v` times the
/// density is twice the strength.
pub proof fn lemma_characteristic_velocity_squared(
    tensile_strength: Pascals,
    density: KilogramsPerMetersCubed,
    v: real,
)
    requires
        means(characteristic_velocity_formula(tensile_strength, density), v),
    ensures
        tensile_strength.0.finite(),
        density.0.finite(),
        v >= 0real,
        exact_value(density.0) != 0real,
        v * v * exact_value(density.0) == 2real * exact_value(tensile_strength.0),
{
    let doubled = product(value(tensile_strength.0), value(Real::two()));
    lemma_means_square_root(quotient(doubled, value(density.0)), v);
    let q = choose|x: real| #[trigger]
        means(quotient(doubled, value(density.0)), x) && v >= 0real && v * v == x;
    lemma_means_quotient(doubled, value(density.0), q);
    let (p, d) = choose|x: real, y: real| #[trigger]
        means(doubled, x) && #[trigger] means(value(density.0), y) && y != 0real && q * y == x;
    lemma_means_value(density.0, d);
    lemma_means_product(value(tensile_strength.0), value(Real::two()), p);
    let (s, t) = choose|x: real, y: real| #[trigger]
        means(value(tensile_strength.0), x) && #[trigger] means(value(Real::two()), y) && p == x
            * y;
    lemma_means_value(tensile_strength.0, s);
    lemma_means_value(Real::two(), t);
    lemma_small_constants();
    lemma_exact_integer(Real::two(), 2);
    assert(v * v * d == 2real * s) by (nonlinear_arith)
        requires
            v * v == q,
            q * d == p,
            p == s * 2real,
    ;
}

/// Orbital velocity squared is the gravitational parameter over the
/// radius: its exact value `v` is not negative, and `v * v` times the
/// radius is the gravitational parameter.
pub proof fn lemma_orbital_velocity_squared(
    radius: Meters,
    gravitational_parameter: MetersCubedByKilogramSecondsSquared,
    v: real,
)
    requires
        means(orbital_velocity_formula(radius, gravitational_parameter), v),
    ensures
        v >= 0real,
        exact_value(radius.0) != 0real,
        v * v * exact_value(radius.0) == exact_value(gravitational_parameter.0),
{
    let inner = quotient(value(gravitational_parameter.0), value(radius.0));
    lemma_means_square_root(inner, v);
    let q = choose|x: real| #[trigger] means(inner, x) && v >= 0real && v * v == x;
    lemma_ratio_of_values(gravitational_parameter.0, radius.0, q);
}

/// Angular velocity squared is the gravitational parameter over the cube
/// of the radius.
pub proof fn lemma_angular_velocity_squared(
    radius: Meters,
    gravitational_parameter: MetersCubedByKilogramSecondsSquared,
    omega: real,
)
    requires
        means(angular_velocity_formula(radius, gravitational_parameter), omega),
    ensures
        omega >= 0real,
        exact_value(radius.0) != 0real,
        omega * omega * (exact_value(radius.0) * exact_value(radius.0) * exact_value(radius.0))
            == exact_value(gravitational_parameter.0),
{
    let cube = power(value(radius.0), value(Real::three()));
    let inner = quotient(value(gravitational_parameter.0), cube);
    lemma_means_square_root(inner, omega);
    let q = choose|x: real| #[trigger] means(inner, x) && omega >= 0real && omega * omega == x;
    lemma_means_quotient(value(gravitational_parameter.0), cube, q);
    let (m, c) = choose|x: real, y: real| #[trigger]
        means(value(gravitational_parameter.0), x) && #[trigger] means(cube, y) && y != 0real && q
            * y == x;
    lemma_means_value(gravitational_parameter.0, m);
    lemma_means_cube(value(radius.0), c);
    let r = choose|x: real| #[trigger] means(value(radius.0), x) && c == x * x * x;
    lemma_means_value(radius.0, r);
    assert(r != 0real) by (nonlinear_arith)
        requires
            c == r * r * r,
            c != 0real,
    ;
}

/// The orbital period squared is the square of the full circle times the
/// cube of the radius over the gravitational parameter.
pub proof fn lemma_orbital_period_squared(
    radius: Meters,
    gravitational_parameter: MetersCubedByKilogramSecondsSquared,
    period: real,
)
    requires
        means(orbital_period_formula(radius, gravitational_parameter), period),
    ensures
        radius.0.finite(),
        gravitational_parameter.0.finite(),
        exact_value(gravitational_parameter.0) != 0real,
        period * period * exact_value(gravitational_parameter.0) == exact_value(tau())
            * exact_value(tau()) * (exact_value(radius.0) * exact_value(radius.0) * exact_value(
            radius.0,
        )),
        orbit_fault(radius, gravitational_parameter) is None ==> period > 0real,
{
    let cube = power(value(radius.0), value(Real::three()));
    let inner = quotient(cube, value(gravitational_parameter.0));
    lemma_means_product(value(tau()), square_root(inner), period);
    let (t, s) = choose|x: real, y: real| #[trigger]
        means(value(tau()), x) && #[trigger] means(square_root(inner), y) && period == x * y;
    lemma_means_value(tau(), t);
    lemma_means_square_root(inner, s);
    let q = choose|x: real| #[trigger] means(inner, x) && s >= 0real && s * s == x;
    lemma_means_quotient(cube, value(gravitational_parameter.0), q);
    let (c, m) = choose|x: real, y: real| #[trigger]
        means(cube, x) && #[trigger] means(value(gravitational_parameter.0), y) && y != 0real && q
            * y == x;
    lemma_means_value(gravitational_parameter.0, m);
    lemma_means_cube(value(radius.0), c);
    let r = choose|x: real| #[trigger] means(value(radius.0), x) && c == x * x * x;
    lemma_means_value(radius.0, r);
    assert(period * period * m == t * t * (r * r * r)) by (nonlinear_arith)
        requires
            period == t * s,
            s * s == q,
            q * m == c,
            c == r * r * r,
    ;
    if orbit_fault(radius, gravitational_parameter) is None {
        lemma_positive(radius.0);
        lemma_positive(gravitational_parameter.0);
        lemma_constants();
        lemma_tau_positive();
        assert(s > 0real) by (nonlinear_arith)
            requires
                s >= 0real,
                s * s == q,
                q * m == r * r * r,
                r > 0real,
                m > 0real,
        ;
        assert(period > 0real) by (nonlinear_arith)
            requires
                period == t * s,
                t > 0real,
                s > 0real,
        ;
    }
}

/// The full circle is a number between 6 and 7.
pub proof fn lemma_tau_positive()
    ensures
        6real < exact_value(tau()) < 7real,
{
    lemma_constants();
    crate::exact::lemma_exact_between(
        tau(),
        6_283_185_307_179_586,
        6_283_185_307_179_587,
        1_000_000_000_000_000,
    );
}

/// Circular-orbit consistency: on an orbit of positive radius about a
/// positive gravitational parameter, velocity is angular velocity times
/// radius, and velocity squared is the gravitational parameter over the
/// radius.
pub proof fn lemma_circular_orbit_consistency(
    radius: Meters,
    gravitational_parameter: MetersCubedByKilogramSecondsSquared,
    v: real,
    omega: real,
)
    requires
        orbit_fault(radius, gravitational_parameter) is None,
        means(orbital_velocity_formula(radius, gravitational_parameter), v),
        means(angular_velocity_formula(radius, gravitational_parameter), omega),
    ensures
        v == omega * exact_value(radius.0),
        v * v == exact_value(gravitational_parameter.0) / exact_value(radius.0),
{
    lemma_orbital_velocity_squared(radius, gravitational_parameter, v);
    lemma_angular_velocity_squared(radius, gravitational_parameter, omega);
    let r = exact_value(radius.0);
    let m = exact_value(gravitational_parameter.0);
    lemma_means_square_root(quotient(value(gravitational_parameter.0), value(radius.0)), v);
    let q = choose|x: real| #[trigger]
        means(quotient(value(gravitational_parameter.0), value(radius.0)), x) && v >= 0real && v
            * v == x;
    lemma_ratio_of_values(gravitational_parameter.0, radius.0, q);
    lemma_positive(radius.0);
    let w = omega * r;
    assert(w * w * r == m) by (nonlinear_arith)
        requires
            w == omega * r,
            omega * omega * (r * r * r) == m,
    ;
    assert(w >= 0real) by (nonlinear_arith)
        requires
            w == omega * r,
            omega >= 0real,
            r > 0real,
    ;
    assert(v == w) by (nonlinear_arith)
        requires
            v >= 0real,
            w >= 0real,
            v * v * r == m,
            w * w * r == m,
            r > 0real,
    ;
    assert(v * v == m / r) by (nonlinear_arith)
        requires
            v * v * r == m,
            r > 0real,
    ;
}

/// Kepler's third law: about one body, the squares of the periods of two
/// orbits are to each other as the cubes of their radii.
pub proof fn lemma_kepler_third_law(
    radius1: Meters,
    radius2: Meters,
    gravitational_parameter: MetersCubedByKilogramSecondsSquared,
    period1: real,
    period2: real,
)
    requires
        orbit_fault(radius1, gravitational_parameter) is None,
        orbit_fault(radius2, gravitational_parameter) is None,
        means(orbital_period_formula(radius1, gravitational_parameter), period1),
        means(orbital_period_formula(radius2, gravitational_parameter), period2),
    ensures
        period1 != 0real,
        exact_value(radius1.0) != 0real,
        (period2 / period1) * (period2 / period1) == (exact_value(radius2.0) / exact_value(
            radius1.0,
        )) * (exact_value(radius2.0) / exact_value(radius1.0)) * (exact_value(radius2.0)
            / exact_value(radius1.0)),
{
    lemma_orbital_period_squared(radius1, gravitational_parameter, period1);
    lemma_orbital_period_squared(radius2, gravitational_parameter, period2);
    let r1 = exact_value(radius1.0);
    let r2 = exact_value(radius2.0);
    let m = exact_value(gravitational_parameter.0);
    let t = exact_value(tau());
    lemma_positive(radius1.0);
    lemma_positive(gravitational_parameter.0);
    lemma_tau_positive();
    let k = t * t;
    assert(k > 0real) by (nonlinear_arith)
        requires
            k == t * t,
            t > 0real,
    ;
    let c1 = r1 * r1 * r1;
    let c2 = r2 * r2 * r2;
    assert(c1 > 0real) by (nonlinear_arith)
        requires
            c1 == r1 * r1 * r1,
            r1 > 0real,
    ;
    let s1 = period1 * period1;
    let s2 = period2 * period2;
    assert(s1 * m == k * c1);
    assert(s2 * m == k * c2);
    assert(s2 * c1 == s1 * c2) by (nonlinear_arith)
        requires
            s1 * m == k * c1,
            s2 * m == k * c2,
            m > 0real,
            k > 0real,
    ;
    let x = period2 / period1;
    let y = r2 / r1;
    assert(x * period1 == period2 && y * r1 == r2) by (nonlinear_arith)
        requires
            x == period2 / period1,
            y == r2 / r1,
            period1 > 0real,
            r1 > 0real,
    ;
    assert((x * x) * s1 == s2) by (nonlinear_arith)
        requires
            x * period1 == period2,
            s1 == period1 * period1,
            s2 == period2 * period2,
    ;
    assert((y * y * y) * c1 == c2) by (nonlinear_arith)
        requires
            y * r1 == r2,
            c1 == r1 * r1 * r1,
            c2 == r2 * r2 * r2,
    ;
    let xx = x * x;
    let yyy = y * y * y;
    assert(s1 > 0real) by (nonlinear_arith)
        requires
            s1 == period1 * period1,
            period1 > 0real,
    ;
    assert(xx == yyy) by (nonlinear_arith)
        requires
            xx * s1 == s2,
            yyy * c1 == c2,
            s2 * c1 == s1 * c2,
            s1 > 0real,
            c1 > 0real,
    ;
}

/// The quotient of characteristic velocity and orbital velocity is not
/// negative, so the efficiency made of it is a number from 0 to 1.
pub proof fn lemma_velocity_ratio_not_negative(
    material: Material,
    radius: Meters,
    gravitational_parameter: MetersCubedByKilogramSecondsSquared,
    ratio: real,
)
    requires
        means(velocity_ratio_formula(material, radius, gravitational_parameter), ratio),
    ensures
        ratio >= 0real,
{
    let top = characteristic_velocity_formula(material.tensile_strength, material.density);
    let bottom = orbital_velocity_formula(radius, gravitational_parameter);
    lemma_means_quotient(top, bottom, ratio);
    let (c, o) = choose|x: real, y: real| #[trigger]
        means(top, x) && #[trigger] means(bottom, y) && y != 0real && ratio * y == x;
    lemma_characteristic_velocity_squared(material.tensile_strength, material.density, c);
    lemma_orbital_velocity_squared(radius, gravitational_parameter, o);
    assert(ratio >= 0real) by (nonlinear_arith)
        requires
            c >= 0real,
            o >= 0real,
            o != 0real,
            ratio * o == c,
    ;
}

/// The spin multiplier is `1 + 15 * length / radius`: its exact value
/// times the radius is the radius and fifteen tether lengths. A tether a
/// third as long as the body's radius has the multiplier 6.
pub proof fn lemma_spin_multiplier(tether_length: Meters, central_body_radius: Meters, x: real)
    requires
        means(spin_multiplier_formula(tether_length, central_body_radius), x),
    ensures
        exact_value(central_body_radius.0) != 0real,
        x * exact_value(central_body_radius.0) == exact_value(central_body_radius.0) + 15real
            * exact_value(tether_length.0),
        3real * exact_value(tether_length.0) == exact_value(central_body_radius.0) ==> x == 6real,
{
    let one = value(Real::one());
    let two = value(Real::two());
    let three = value(Real::three());
    let five = value(Real::five());
    let tether_diameter = product(value(tether_length.0), two);
    let body_diameter = product(value(central_body_radius.0), two);
    let share = quotient(tether_diameter, body_diameter);
    let reference = quotient(one, three);
    let scaled = product(quotient(share, reference), five);
    lemma_small_constants();
    lemma_exact_integer(Real::one(), 1);
    lemma_exact_integer(Real::two(), 2);
    lemma_exact_integer(Real::three(), 3);
    lemma_exact_integer(Real::five(), 5);

    lemma_means_sum(one, scaled, x);
    let (o, g5) = choose|p: real, q: real| #[trigger]
        means(one, p) && #[trigger] means(scaled, q) && x == p + q;
    lemma_means_value(Real::one(), o);
    lemma_means_product(quotient(share, reference), five, g5);
    let (g, f) = choose|p: real, q: real| #[trigger]
        means(quotient(share, reference), p) && #[trigger] means(five, q) && g5 == p * q;
    lemma_means_value(Real::five(), f);
    lemma_means_quotient(share, reference, g);
    let (d, t) = choose|p: real, q: real| #[trigger]
        means(share, p) && #[trigger] means(reference, q) && q != 0real && g * q == p;
    lemma_ratio_of_values(Real::one(), Real::three(), t);
    lemma_means_quotient(tether_diameter, body_diameter, d);
    let (td, bd) = choose|p: real, q: real| #[trigger]
        means(tether_diameter, p) && #[trigger] means(body_diameter, q) && q != 0real && d * q
            == p;
    lemma_means_product(value(tether_length.0), two, td);
    let (l, t1) = choose|p: real, q: real| #[trigger]
        means(value(tether_length.0), p) && #[trigger] means(two, q) && td == p * q;
    lemma_means_value(tether_length.0, l);
    lemma_means_value(Real::two(), t1);
    lemma_means_product(value(central_body_radius.0), two, bd);
    let (r, t2) = choose|p: real, q: real| #[trigger]
        means(value(central_body_radius.0), p) && #[trigger] means(two, q) && bd == p * q;
    lemma_means_value(central_body_radius.0, r);
    lemma_means_value(Real::two(), t2);

    assert(r != 0real && x * r == r + 15real * l) by (nonlinear_arith)
        requires
            x == 1real + g * 5real,
            g * t == d,
            t * 3real == 1real,
            d * (r * 2real) == l * 2real,
            r * 2real != 0real,
    {
        assert(g == 3real * d);
        assert(d * r == l);
    }
    if 3real * l == r {
        assert(x == 6real) by (nonlinear_arith)
            requires
                x * r == r + 15real * l,
                3real * l == r,
                r != 0real,
        ;
    }
}

/// A number that passed a test for being positive is a NaN or has its
/// sign bit clear.
proof fn lemma_passed_is_plus(x: Real)
    requires
        !x.at_most(Real::zero()),
    ensures
        x.nan() || !x.negative(),
{
}

/// The velocity ratio is never below zero. In an arithmetic that follows
/// the sign rules, for every material and orbit with no fault, every value
/// of the ratio of characteristic to orbital velocity is a NaN or a number
/// that is not below zero.
pub proof fn lemma_efficiency_sign<A: crate::arithmetic::Arithmetic>(
    fpu: &A,
    material: Material,
    radius: Meters,
    gravitational_parameter: MetersCubedByKilogramSecondsSquared,
    ratio: Real,
)
    requires
        crate::rounding::follows_sign_rules(fpu),
        crate::tethers::system_fault(material, radius, gravitational_parameter) is None,
        crate::arithmetic::evaluates(
            fpu,
            velocity_ratio_formula(material, radius, gravitational_parameter),
            ratio,
        ),
    ensures
        !ratio.below(Real::zero()),
{
    let strength = material.tensile_strength.0;
    let density = material.density.0;
    let doubled = product(value(strength), value(Real::two()));
    let inner_top = quotient(doubled, value(density));
    let top = characteristic_velocity_formula(material.tensile_strength, material.density);
    let inner_bottom = quotient(value(gravitational_parameter.0), value(radius.0));
    let bottom = orbital_velocity_formula(radius, gravitational_parameter);
    lemma_passed_is_plus(strength);
    lemma_passed_is_plus(density);
    lemma_passed_is_plus(radius.0);
    lemma_passed_is_plus(gravitational_parameter.0);

    crate::arithmetic::lemma_evaluates_quotient(fpu, top, bottom, ratio);
    let (c, o) = choose|x: Real, y: Real| #[trigger]
        crate::arithmetic::evaluates(fpu, top, x) && #[trigger] crate::arithmetic::evaluates(
            fpu,
            bottom,
            y,
        ) && call_ensures(A::quotient, (fpu, x, y), ratio);

    crate::arithmetic::lemma_evaluates_square_root(fpu, inner_top, c);
    let q1 = choose|x: Real| #[trigger]
        crate::arithmetic::evaluates(fpu, inner_top, x) && call_ensures(
            A::square_root,
            (fpu, x),
            c,
        );
    crate::arithmetic::lemma_evaluates_quotient(fpu, doubled, value(density), q1);
    let (p, d) = choose|x: Real, y: Real| #[trigger]
        crate::arithmetic::evaluates(fpu, doubled, x) && #[trigger] crate::arithmetic::evaluates(
            fpu,
            value(density),
            y,
        ) && call_ensures(A::quotient, (fpu, x, y), q1);
    crate::arithmetic::lemma_evaluates_value(fpu, density, d);
    crate::arithmetic::lemma_evaluates_product(fpu, value(strength), value(Real::two()), p);
    let (s, t) = choose|x: Real, y: Real| #[trigger]
        crate::arithmetic::evaluates(fpu, value(strength), x) && #[trigger]
        crate::arithmetic::evaluates(fpu, value(Real::two()), y) && call_ensures(
            A::product,
            (fpu, x, y),
            p,
        );
    crate::arithmetic::lemma_evaluates_value(fpu, strength, s);
    crate::arithmetic::lemma_evaluates_value(fpu, Real::two(), t);
    assert(!Real::two().nan() && !Real::two().negative());
    assert(p.nan() || !p.negative());
    assert(q1.nan() || !q1.negative());
    assert(c.nan() || !c.negative());

    crate::arithmetic::lemma_evaluates_square_root(fpu, inner_bottom, o);
    let q2 = choose|x: Real| #[trigger]
        crate::arithmetic::evaluates(fpu, inner_bottom, x) && call_ensures(
            A::square_root,
            (fpu, x),
            o,
        );
    crate::arithmetic::lemma_evaluates_quotient(
        fpu,
        value(gravitational_parameter.0),
        value(radius.0),
        q2,
    );
    let (m, r) = choose|x: Real, y: Real| #[trigger]
        crate::arithmetic::evaluates(fpu, value(gravitational_parameter.0), x) && #[trigger]
        crate::arithmetic::evaluates(fpu, value(radius.0), y) && call_ensures(
            A::quotient,
            (fpu, x, y),
            q2,
        );
    crate::arithmetic::lemma_evaluates_value(fpu, gravitational_parameter.0, m);
    crate::arithmetic::lemma_evaluates_value(fpu, radius.0, r);
    assert(q2.nan() || !q2.negative());
    assert(o.nan() || !o.negative());
    assert(ratio.nan() || !ratio.negative());
}

} // verus!
