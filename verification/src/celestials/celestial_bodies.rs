//! The bodies on record. A mass is the stated number of kilograms rounded
//! to the nearest double, which is a whole number.

use vstd::arithmetic::power2::{lemma2_to64, lemma2_to64_rest};
use vstd::prelude::*;

use crate::celestials::CelestialBody;
use crate::ieee::Real;
use crate::ieee_lemmas::{lemma_denotes_integer, lemma_denotes_large_integer, lemma_lies_between};
use crate::utils::{Kilograms, Kilometers};

verus! {

/// Earth: 5.972e24 kg, 6371 km.
pub fn earth() -> (body: CelestialBody<'static>)
    ensures
        body.name@ == "Earth"@,
        body.mass.0.denotes(5_972_000_000_000_000_327_155_712),
        body.radius.0.denotes(6371),
{
    let mass = Real::from_bits(0x4513_c27b_1327_2fb6);
    let radius = Real::from_bits(0x40b8_e300_0000_0000);
    proof {
        lemma2_to64();
        lemma2_to64_rest();
        lemma_denotes_large_integer(mass, 5_972_000_000_000_000_327_155_712, 30);
        lemma_denotes_integer(radius, 6371, 40);
    }
    CelestialBody { name: "Earth", mass: Kilograms(mass), radius: Kilometers(radius) }
}

/// Mars: 6.417e23 kg, 3390 km.
pub fn mars() -> (body: CelestialBody<'static>)
    ensures
        body.name@ == "Mars"@,
        body.mass.0.denotes(641_700_000_000_000_066_060_288),
        body.radius.0.denotes(3390),
{
    let mass = Real::from_bits(0x44e0_fc54_0df5_f605);
    let radius = Real::from_bits(0x40aa_7c00_0000_0000);
    proof {
        lemma2_to64();
        lemma2_to64_rest();
        lemma_denotes_large_integer(mass, 641_700_000_000_000_066_060_288, 27);
        lemma_denotes_integer(radius, 3390, 41);
    }
    CelestialBody { name: "Mars", mass: Kilograms(mass), radius: Kilometers(radius) }
}

/// The Moon: 7.35e22 kg, 1737.48 km to the nearest double.
pub fn moon() -> (body: CelestialBody<'static>)
    ensures
        body.name@ == "Moon"@,
        body.mass.0.denotes(73_500_000_000_000_001_048_576),
        body.radius.0.lies_between(
            1_737_480_000_000_000,
            1_737_480_000_000_001,
            1_000_000_000_000,
        ),
{
    let mass = Real::from_bits(0x44af_20e2_cec8_9ed6);
    let radius = Real::from_bits(0x409b_25eb_851e_b852);
    proof {
        lemma2_to64();
        lemma2_to64_rest();
        lemma_denotes_large_integer(mass, 73_500_000_000_000_001_048_576, 23);
        lemma_lies_between(
            radius,
            1_737_480_000_000_000,
            1_737_480_000_000_001,
            1_000_000_000_000,
            42,
        );
    }
    CelestialBody { name: "Moon", mass: Kilograms(mass), radius: Kilometers(radius) }
}

} // verus!
