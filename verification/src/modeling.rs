//! A rotating tether in orbit about the Moon that releases a payload from
//! its tip: a first model, for exploring designs.
//!
//! The impulse formula splits the tip speed between tether and payload by
//! their mass ratio alone. It is an illustration, not a derived law.

use vstd::arithmetic::power2::{lemma2_to64, lemma2_to64_rest, lemma_pow2_adds};
use vstd::prelude::*;

use crate::arithmetic::{
    difference, evaluates, product, quotient, square_root, sum, value, Arithmetic, Formula, Term,
};
use crate::ieee::{Real, ONE_BITS, TWO_BITS};
use crate::ieee_lemmas::{lemma_denotes_large_integer, lemma_lies_between};
use crate::materials::Material;
use crate::utils::{
    ten_thousand, ten_thousandth, thousand, Kilograms, Kilometers, MetersPerSecond,
    MetersPerSecondSquared, TEN_THOUSANDTH_BITS, TEN_THOUSAND_BITS, THOUSAND_BITS,
};

verus! {

/// Pattern of the double nearest to 1.124: how much thicker the tether is
/// at its thickest than at its thinnest.
pub const TAPER_RATIO_BITS: u64 = 0x3ff1_fbe7_6c8b_4396;

/// Pattern of the double nearest to 6.67430e-11, the gravitational
/// constant in m^3/(kg s^2).
pub const GRAVITATIONAL_CONSTANT_BITS: u64 = 0x3dd2_589e_ffed_8acc;

/// 1.124, to the nearest double.
pub open spec fn taper_ratio() -> Real {
    Real { bits: TAPER_RATIO_BITS }
}

/// 6.67430e-11, to the nearest double.
pub open spec fn gravitational_constant() -> Real {
    Real { bits: GRAVITATIONAL_CONSTANT_BITS }
}

/// The two constants are what their names say, to sixteen significant
/// digits.
pub proof fn lemma_constants()
    ensures
        taper_ratio().lies_between(
            1_124_000_000_000_000,
            1_124_000_000_000_001,
            1_000_000_000_000_000,
        ),
        gravitational_constant().lies_between(
            6_674_299_999_999_999,
            6_674_300_000_000_000,
            100_000_000_000_000_000_000_000_000,
        ),
{
    lemma2_to64();
    lemma2_to64_rest();
    lemma_pow2_adds(64, 22);
    lemma_lies_between(
        taper_ratio(),
        1_124_000_000_000_000,
        1_124_000_000_000_001,
        1_000_000_000_000_000,
        52,
    );
    lemma_lies_between(
        gravitational_constant(),
        6_674_299_999_999_999,
        6_674_300_000_000_000,
        100_000_000_000_000_000_000_000_000,
        86,
    );
}

/// A tether, by what is decided of it at design time.
#[derive(Debug)]
pub struct Tether {
    /// Altitude of the orbit of the tether's middle.
    pub altitude: Kilometers,
    pub length: Kilometers,
    pub mass: Kilograms,
    pub material: Material,
    /// Speed of the tip about the middle.
    pub rotational_velocity: MetersPerSecond,
}

/// The body that the tether orbits.
#[derive(Debug, Clone, Copy)]
pub struct Moon {
    /// Gravity at the surface.
    pub gravity: MetersPerSecondSquared,
    pub mass: Kilograms,
    pub radius: Kilometers,
}

/// What the tether carries and releases.
#[derive(Debug, Clone, Copy)]
pub struct Payload {
    pub mass: Kilograms,
    pub velocity: MetersPerSecond,
}

/// Length of the tether in meters: `length * 1000`.
pub open spec fn length_in_meters_formula(tether: Tether) -> Formula {
    product(value(tether.length.0), value(thousand()))
}

/// Cross-section of the tether at its thinnest, in square centimeters:
/// half the average, `((mass / (meters * density)) * 10000) / 2`.
pub open spec fn thinnest_formula(tether: Tether) -> Formula {
    quotient(
        product(
            quotient(
                value(tether.mass.0),
                product(length_in_meters_formula(tether), value(tether.material.density.0)),
            ),
            value(ten_thousand()),
        ),
        value(Real::two()),
    )
}

/// Cross-section of the tether at its thickest, in square centimeters:
/// `1.124 * thinnest`.
pub open spec fn thickest_formula(tether: Tether) -> Formula {
    product(value(taper_ratio()), thinnest_formula(tether))
}

/// `(strength * (thinnest * 0.0001)) * gravity`.
pub open spec fn max_load_formula(tether: Tether, gravity: MetersPerSecondSquared) -> Formula {
    product(
        product(
            value(tether.material.tensile_strength.0),
            product(thinnest_formula(tether), value(ten_thousandth())),
        ),
        value(gravity.0),
    )
}

/// `mass / max_load`.
pub open spec fn mass_ratio_formula(tether: Tether, body: Moon) -> Formula {
    quotient(value(tether.mass.0), max_load_formula(tether, body.gravity))
}

/// `strength / (density * gravity)`.
pub open spec fn characteristic_length_formula(tether: Tether, body: Moon) -> Formula {
    quotient(
        value(tether.material.tensile_strength.0),
        product(value(tether.material.density.0), value(body.gravity.0)),
    )
}

/// Radius of the orbit of the tether's middle, in meters:
/// `(radius + altitude) * 1000`.
pub open spec fn orbit_radius_formula(tether: Tether, body: Moon) -> Formula {
    product(sum(value(body.radius.0), value(tether.altitude.0)), value(thousand()))
}

/// Gravitational parameter of the body: `mass * 6.67430e-11`.
pub open spec fn gravitational_parameter_formula(body: Moon) -> Formula {
    product(value(body.mass.0), value(gravitational_constant()))
}

/// Orbital velocity of the tether's middle: `sqrt(mu / orbit_radius)`.
pub open spec fn center_velocity_formula(tether: Tether, body: Moon) -> Formula {
    square_root(
        quotient(gravitational_parameter_formula(body), orbit_radius_formula(tether, body)),
    )
}

/// Orbital velocity at the upper tip: `sqrt(mu / (orbit_radius +
/// (length * 1000) / 2))`.
pub open spec fn tip_velocity_formula(tether: Tether, body: Moon) -> Formula {
    square_root(
        quotient(
            gravitational_parameter_formula(body),
            sum(
                orbit_radius_formula(tether, body),
                quotient(length_in_meters_formula(tether), value(Real::two())),
            ),
        ),
    )
}

/// Share of the tip speed that the payload takes with it: `m / (1 + m)`
/// for the ratio `m` of tether mass to payload mass.
pub open spec fn transfer_formula(tether: Tether, payload: Payload) -> Formula {
    quotient(
        quotient(value(tether.mass.0), value(payload.mass.0)),
        sum(value(Real::one()), quotient(value(tether.mass.0), value(payload.mass.0))),
    )
}

/// `(tip_velocity + rotational_velocity * transfer) - center_velocity`.
pub open spec fn impulse_formula(tether: Tether, payload: Payload, body: Moon) -> Formula {
    difference(
        sum(
            tip_velocity_formula(tether, body),
            product(value(tether.rotational_velocity.0), transfer_formula(tether, payload)),
        ),
        center_velocity_formula(tether, body),
    )
}

impl Tether {
    pub fn new(
        altitude: Kilometers,
        length: Kilometers,
        mass: Kilograms,
        material: Material,
        rotational_velocity: MetersPerSecond,
    ) -> (tether: Tether)
        ensures
            tether.altitude == altitude,
            tether.length == length,
            tether.mass == mass,
            tether.material == material,
            tether.rotational_velocity == rotational_velocity,
    {
        Tether { altitude, length, mass, material, rotational_velocity }
    }

    fn length_in_meters_term<A: Arithmetic>(&self, fpu: &A) -> (t: Term)
        ensures
            t.sound(fpu),
            t.formula() == length_in_meters_formula(*self),
    {
        Term::given(fpu, self.length.0).times(
            fpu,
            Term::given(fpu, Real::from_bits(THOUSAND_BITS)),
        )
    }

    /// Cross-sections of the tether at its thinnest and at its thickest,
    /// in square centimeters.
    fn cross_sectional_area<A: Arithmetic>(&self, fpu: &A) -> (r: (Term, Term))
        ensures
            r.0.sound(fpu),
            r.0.formula() == thinnest_formula(*self),
            r.1.sound(fpu),
            r.1.formula() == thickest_formula(*self),
    {
        let len = self.length_in_meters_term(fpu);
        let square_meters = Term::given(fpu, self.mass.0).over(
            fpu,
            len.times(fpu, Term::given(fpu, self.material.density.0)),
        );
        let avg_cross_section = square_meters.times(
            fpu,
            Term::given(fpu, Real::from_bits(TEN_THOUSAND_BITS)),
        );
        let thinnest = avg_cross_section.over(fpu, Term::given(fpu, Real::from_bits(TWO_BITS)));
        let thickest = Term::given(fpu, Real::from_bits(TAPER_RATIO_BITS)).times(fpu, thinnest);
        (thinnest, thickest)
    }

    fn max_load_term<A: Arithmetic>(&self, fpu: &A, gravity: MetersPerSecondSquared) -> (t: Term)
        ensures
            t.sound(fpu),
            t.formula() == max_load_formula(*self, gravity),
    {
        let cable_area = self.cross_sectional_area(fpu).0.times(
            fpu,
            Term::given(fpu, Real::from_bits(TEN_THOUSANDTH_BITS)),
        );
        Term::given(fpu, self.material.tensile_strength.0).times(fpu, cable_area).times(
            fpu,
            Term::given(fpu, gravity.0),
        )
    }

    /// The load that the tether bears at its thinnest under `gravity`.
    pub fn max_load<A: Arithmetic>(&self, fpu: &A, gravity: MetersPerSecondSquared) -> (load:
        Kilograms)
        ensures
            evaluates(fpu, max_load_formula(*self, gravity), load.0),
    {
        let t = self.max_load_term(fpu, gravity);
        proof {
            t.lemma_evaluates(fpu);
        }
        Kilograms(t.number)
    }

    /// Mass of the tether over the load that it bears at `body`.
    pub fn mass_ratio<A: Arithmetic>(&self, fpu: &A, body: Moon) -> (ratio: Real)
        ensures
            evaluates(fpu, mass_ratio_formula(*self, body), ratio),
    {
        let max_load = self.max_load_term(fpu, body.gravity);
        let t = Term::given(fpu, self.mass.0).over(fpu, max_load);
        proof {
            t.lemma_evaluates(fpu);
        }
        t.number
    }

    /// The change of velocity that a payload gains on release from the
    /// upper tip: its velocity there, rotation included as far as the
    /// mass ratio lets it through, less the orbital velocity of the
    /// tether's middle.
    pub fn calc_impulse<A: Arithmetic>(&self, fpu: &A, payload: Payload, body: Moon) -> (delta_v:
        MetersPerSecond)
        ensures
            evaluates(fpu, impulse_formula(*self, payload, body), delta_v.0),
    {
        let one = Term::given(fpu, Real::from_bits(ONE_BITS));
        let two = Term::given(fpu, Real::from_bits(TWO_BITS));
        let thousand = Term::given(fpu, Real::from_bits(THOUSAND_BITS));
        let orbit_radius = Term::given(fpu, body.radius.0).plus(
            fpu,
            Term::given(fpu, self.altitude.0),
        ).times(fpu, thousand);
        let gravitational_parameter = Term::given(fpu, body.mass.0).times(
            fpu,
            Term::given(fpu, Real::from_bits(GRAVITATIONAL_CONSTANT_BITS)),
        );
        let orbital_velocity = gravitational_parameter.over(fpu, orbit_radius).root(fpu);

        let tether_length_m = self.length_in_meters_term(fpu);
        let tip_radius = orbit_radius.plus(fpu, tether_length_m.over(fpu, two));
        let orbital_velocity_at_tip = gravitational_parameter.over(fpu, tip_radius).root(fpu);

        let mass_ratio = Term::given(fpu, self.mass.0).over(
            fpu,
            Term::given(fpu, payload.mass.0),
        );
        let ideal_tip_boost = Term::given(fpu, self.rotational_velocity.0);
        let efficiency = mass_ratio.over(fpu, one.plus(fpu, mass_ratio));
        let actual_tip_boost = ideal_tip_boost.times(fpu, efficiency);

        let release_velocity = orbital_velocity_at_tip.plus(fpu, actual_tip_boost);
        let delta_v = release_velocity.minus(fpu, orbital_velocity);
        proof {
            delta_v.lemma_evaluates(fpu);
        }
        MetersPerSecond(delta_v.number)
    }

    /// The length at which a hanging tether of the material breaks under
    /// its own weight at `body`.
    pub fn characteristic_length<A: Arithmetic>(&self, fpu: &A, body: Moon) -> (length:
        Kilometers)
        ensures
            evaluates(fpu, characteristic_length_formula(*self, body), length.0),
    {
        let t = Term::given(fpu, self.material.tensile_strength.0).over(
            fpu,
            Term::given(fpu, self.material.density.0).times(
                fpu,
                Term::given(fpu, body.gravity.0),
            ),
        );
        proof {
            t.lemma_evaluates(fpu);
        }
        Kilometers(t.number)
    }
}

impl Moon {
    /// The Moon: 7.348e22 kg to the nearest double, 1737.5 km in radius,
    /// 1.625 m/s^2 at the surface.
    pub fn new() -> (moon: Moon)
        ensures
            moon.mass.0.denotes(73_479_999_999_999_997_902_848),
            moon.radius.0.lies_between(3475, 3475, 2),
            moon.gravity.0.lies_between(13, 13, 8),
    {
        let mass = Real::from_bits(0x44af_1eb7_b23c_8cae);
        let radius = Real::from_bits(0x409b_2600_0000_0000);
        let gravity = Real::from_bits(0x3ffa_0000_0000_0000);
        proof {
            lemma2_to64();
            lemma2_to64_rest();
            lemma_denotes_large_integer(mass, 73_479_999_999_999_997_902_848, 23);
            lemma_lies_between(radius, 3475, 3475, 2, 42);
            lemma_lies_between(gravity, 13, 13, 8, 52);
        }
        Moon {
            mass: Kilograms(mass),
            radius: Kilometers(radius),
            gravity: MetersPerSecondSquared(gravity),
        }
    }
}

impl Default for Moon {
    fn default() -> (moon: Moon)
        ensures
            moon.mass.0.denotes(73_479_999_999_999_997_902_848),
            moon.radius.0.lies_between(3475, 3475, 2),
            moon.gravity.0.lies_between(13, 13, 8),
    {
        Moon::new()
    }
}

impl Payload {
    pub fn new(mass: Kilograms, velocity: MetersPerSecond) -> (payload: Payload)
        ensures
            payload.mass == mass,
            payload.velocity == velocity,
    {
        Payload { mass, velocity }
    }
}

} // verus!
