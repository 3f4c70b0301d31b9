//! The bodies that a tether may orbit, and what is known of each.

use vstd::arithmetic::power2::{lemma2_to64, lemma2_to64_rest};
use vstd::prelude::*;

use crate::arithmetic::{evaluates, product, quotient, value, Arithmetic, Formula, Term};
use crate::ieee::{Real, TWO_BITS};
use crate::ieee_lemmas::{lemma_denotes_integer, lemma_denotes_large_integer};
use crate::utils::{pi, Kilograms, Meters, Seconds, PI_BITS};

verus! {

/// Mass, radius and rotation period of a body.
pub struct PlanetData {
    pub mass: Kilograms,
    pub radius: Meters,
    /// Sidereal rotation period.
    pub rotation_period: Seconds,
}

/// `(2 * pi) / period`.
pub open spec fn rotational_angular_velocity_formula(data: PlanetData) -> Formula {
    quotient(product(value(Real::two()), value(pi())), value(data.rotation_period.0))
}

impl PlanetData {
    /// Angular velocity of the body's rotation, in radians per second.
    pub fn rotational_angular_velocity<A: Arithmetic>(&self, fpu: &A) -> (r: Real)
        ensures
            evaluates(fpu, rotational_angular_velocity_formula(*self), r),
    {
        let two = Term::given(fpu, Real::from_bits(TWO_BITS));
        let t = two.times(fpu, Term::given(fpu, Real::from_bits(PI_BITS))).over(
            fpu,
            Term::given(fpu, self.rotation_period.0),
        );
        proof {
            t.lemma_evaluates(fpu);
        }
        t.number
    }
}

/// The bodies on record.
#[derive(Clone, Copy, Eq, PartialEq, Hash, Structural)]
pub enum Planets {
    Earth,
    Luna,
}

impl Planets {
    /// The record of the body.
    ///
    /// Radii and periods are whole numbers of meters and seconds. The
    /// masses are 5.972e24 kg and 7.34767309e22 kg, each rounded to the
    /// nearest double, which is the whole number stated here.
    pub fn data(&self) -> (d: PlanetData)
        ensures
            *self == Planets::Earth ==> d.mass.0.denotes(5_972_000_000_000_000_327_155_712)
                && d.radius.0.denotes(6_371_000) && d.rotation_period.0.denotes(86_164),
            *self == Planets::Luna ==> d.mass.0.denotes(73_476_730_900_000_001_753_088)
                && d.radius.0.denotes(1_737_400) && d.rotation_period.0.denotes(2_360_591),
    {
        proof {
            lemma2_to64();
            lemma2_to64_rest();
        }
        match self {
            Planets::Earth => {
                let mass = Real::from_bits(0x4513_c27b_1327_2fb6);
                let radius = Real::from_bits(0x4158_4dae_0000_0000);
                let rotation_period = Real::from_bits(0x40f5_0940_0000_0000);
                proof {
                    lemma_denotes_large_integer(mass, 5_972_000_000_000_000_327_155_712, 30);
                    lemma_denotes_integer(radius, 6_371_000, 30);
                    lemma_denotes_integer(rotation_period, 86_164, 36);
                }
                PlanetData {
                    mass: Kilograms(mass),
                    radius: Meters(radius),
                    rotation_period: Seconds(rotation_period),
                }
            },
            Planets::Luna => {
                let mass = Real::from_bits(0x44af_1e5c_f5e2_4a58);
                let radius = Real::from_bits(0x413a_82b8_0000_0000);
                let rotation_period = Real::from_bits(0x4142_0287_8000_0000);
                proof {
                    lemma_denotes_large_integer(mass, 73_476_730_900_000_001_753_088, 23);
                    lemma_denotes_integer(radius, 1_737_400, 32);
                    lemma_denotes_integer(rotation_period, 2_360_591, 31);
                }
                PlanetData {
                    mass: Kilograms(mass),
                    radius: Meters(radius),
                    rotation_period: Seconds(rotation_period),
                }
            },
        }
    }
}

} // verus!
