//! Metals for structures and cables.
//!
//! Every material here is in the domain of the characteristic velocity.

use vstd::arithmetic::power2::{lemma2_to64, lemma2_to64_rest};
use vstd::prelude::*;

use crate::ieee::Real;
use crate::ieee_lemmas::lemma_denotes_integer;
use crate::materials::Material;
use crate::tethers::{lemma_whole_numbers_in_domain, material_fault};
use crate::utils::{KilogramsPerMetersCubed, Pascals};

verus! {

/// High-carbon steel wire: 2.2 GPa, 7850 kg/m^3, modulus 200 GPa.
pub fn piano_wire() -> (m: Material)
    ensures
        m.name@ == "Piano Wire Steel"@,
        m.tensile_strength.0.denotes(2_200_000_000),
        m.density.0.denotes(7_850),
        m.youngs_modulus matches Some(modulus) && modulus.0.denotes(200_000_000_000),
        m.description@ == "High-carbon steel wire, very high strength"@,
        material_fault(m.tensile_strength, m.density) is None,
{
    let tensile_strength = Real::from_bits(0x41e0_642a_c000_0000);
    let density = Real::from_bits(0x40be_aa00_0000_0000);
    let modulus = Real::from_bits(0x4247_4876_e800_0000);
    proof {
        lemma2_to64();
        lemma2_to64_rest();
        lemma_denotes_integer(tensile_strength, 2_200_000_000, 21);
        lemma_denotes_integer(density, 7_850, 40);
        lemma_denotes_integer(modulus, 200_000_000_000, 15);
        lemma_whole_numbers_in_domain(
            Pascals(tensile_strength),
            KilogramsPerMetersCubed(density),
            2_200_000_000,
            7_850,
        );
    }
    Material::new(
        "Piano Wire Steel",
        Pascals(tensile_strength),
        KilogramsPerMetersCubed(density),
        Some(Pascals(modulus)),
        "High-carbon steel wire, very high strength",
    )
}

/// Aluminum 6061-T6: 310 MPa, 2700 kg/m^3, modulus 69 GPa.
pub fn aluminum_6061_t6() -> (m: Material)
    ensures
        m.name@ == "Aluminum 6061-T6"@,
        m.tensile_strength.0.denotes(310_000_000),
        m.density.0.denotes(2_700),
        m.youngs_modulus matches Some(modulus) && modulus.0.denotes(69_000_000_000),
        m.description@ == "Common aerospace aluminum alloy"@,
        material_fault(m.tensile_strength, m.density) is None,
{
    let tensile_strength = Real::from_bits(0x41b2_7a39_8000_0000);
    let density = Real::from_bits(0x40a5_1800_0000_0000);
    let modulus = Real::from_bits(0x4230_10b8_7200_0000);
    proof {
        lemma2_to64();
        lemma2_to64_rest();
        lemma_denotes_integer(tensile_strength, 310_000_000, 24);
        lemma_denotes_integer(density, 2_700, 41);
        lemma_denotes_integer(modulus, 69_000_000_000, 16);
        lemma_whole_numbers_in_domain(
            Pascals(tensile_strength),
            KilogramsPerMetersCubed(density),
            310_000_000,
            2_700,
        );
    }
    Material::new(
        "Aluminum 6061-T6",
        Pascals(tensile_strength),
        KilogramsPerMetersCubed(density),
        Some(Pascals(modulus)),
        "Common aerospace aluminum alloy",
    )
}

/// Titanium Ti-6Al-4V: 1.17 GPa, 4430 kg/m^3, modulus 114 GPa.
pub fn titanium_6al_4v() -> (m: Material)
    ensures
        m.name@ == "Titanium Ti-6Al-4V"@,
        m.tensile_strength.0.denotes(1_170_000_000),
        m.density.0.denotes(4_430),
        m.youngs_modulus matches Some(modulus) && modulus.0.denotes(114_000_000_000),
        m.description@ == "Aerospace grade titanium alloy"@,
        material_fault(m.tensile_strength, m.density) is None,
{
    let tensile_strength = Real::from_bits(0x41d1_6f32_2000_0000);
    let density = Real::from_bits(0x40b1_4e00_0000_0000);
    let modulus = Real::from_bits(0x423a_8aed_f400_0000);
    proof {
        lemma2_to64();
        lemma2_to64_rest();
        lemma_denotes_integer(tensile_strength, 1_170_000_000, 22);
        lemma_denotes_integer(density, 4_430, 40);
        lemma_denotes_integer(modulus, 114_000_000_000, 16);
        lemma_whole_numbers_in_domain(
            Pascals(tensile_strength),
            KilogramsPerMetersCubed(density),
            1_170_000_000,
            4_430,
        );
    }
    Material::new(
        "Titanium Ti-6Al-4V",
        Pascals(tensile_strength),
        KilogramsPerMetersCubed(density),
        Some(Pascals(modulus)),
        "Aerospace grade titanium alloy",
    )
}

} // verus!
