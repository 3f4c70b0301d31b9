//! High-strength fibers, the usual choice for space tethers.
//!
//! Every material here is in the domain of the characteristic velocity.

use vstd::arithmetic::power2::{lemma2_to64, lemma2_to64_rest};
use vstd::prelude::*;

use crate::ieee::Real;
use crate::ieee_lemmas::lemma_denotes_integer;
use crate::materials::Material;
use crate::tethers::{lemma_whole_numbers_in_domain, material_fault};
use crate::utils::{KilogramsPerMetersCubed, Pascals};

verus! {

/// PBO, sold as Zylon: 5.9 GPa, 1340 kg/m^3, modulus 270 GPa.
pub fn pbo() -> (m: Material)
    ensures
        m.name@ == "PBO (Zylon)"@,
        m.tensile_strength.0.denotes(5_900_000_000),
        m.density.0.denotes(1_340),
        m.youngs_modulus matches Some(modulus) && modulus.0.denotes(270_000_000_000),
        m.description@ == "Ultra-high strength synthetic fiber, excellent for space tethers"@,
        material_fault(m.tensile_strength, m.density) is None,
{
    let tensile_strength = Real::from_bits(0x41f5_faad_b000_0000);
    let density = Real::from_bits(0x4094_f000_0000_0000);
    let modulus = Real::from_bits(0x424f_6ea0_8600_0000);
    proof {
        lemma2_to64();
        lemma2_to64_rest();
        lemma_denotes_integer(tensile_strength, 5_900_000_000, 20);
        lemma_denotes_integer(density, 1_340, 42);
        lemma_denotes_integer(modulus, 270_000_000_000, 15);
        lemma_whole_numbers_in_domain(
            Pascals(tensile_strength),
            KilogramsPerMetersCubed(density),
            5_900_000_000,
            1_340,
        );
    }
    Material::new(
        "PBO (Zylon)",
        Pascals(tensile_strength),
        KilogramsPerMetersCubed(density),
        Some(Pascals(modulus)),
        "Ultra-high strength synthetic fiber, excellent for space tethers",
    )
}

/// Single-wall carbon nanotube, by theory: 63 GPa, 1300 kg/m^3, modulus 1 TPa.
pub fn carbon_nanotube() -> (m: Material)
    ensures
        m.name@ == "Carbon Nanotube (SWNT)"@,
        m.tensile_strength.0.denotes(63_000_000_000),
        m.density.0.denotes(1_300),
        m.youngs_modulus matches Some(modulus) && modulus.0.denotes(1_000_000_000_000),
        m.description@ == "Theoretical single-wall carbon nanotube properties"@,
        material_fault(m.tensile_strength, m.density) is None,
{
    let tensile_strength = Real::from_bits(0x422d_562f_6c00_0000);
    let density = Real::from_bits(0x4094_5000_0000_0000);
    let modulus = Real::from_bits(0x426d_1a94_a200_0000);
    proof {
        lemma2_to64();
        lemma2_to64_rest();
        lemma_denotes_integer(tensile_strength, 63_000_000_000, 17);
        lemma_denotes_integer(density, 1_300, 42);
        lemma_denotes_integer(modulus, 1_000_000_000_000, 13);
        lemma_whole_numbers_in_domain(
            Pascals(tensile_strength),
            KilogramsPerMetersCubed(density),
            63_000_000_000,
            1_300,
        );
    }
    Material::new(
        "Carbon Nanotube (SWNT)",
        Pascals(tensile_strength),
        KilogramsPerMetersCubed(density),
        Some(Pascals(modulus)),
        "Theoretical single-wall carbon nanotube properties",
    )
}

/// Kevlar 49, an aramid fiber: 3.6 GPa, 1440 kg/m^3, modulus 112 GPa.
pub fn kevlar_49() -> (m: Material)
    ensures
        m.name@ == "Kevlar 49"@,
        m.tensile_strength.0.denotes(3_600_000_000),
        m.density.0.denotes(1_440),
        m.youngs_modulus matches Some(modulus) && modulus.0.denotes(112_000_000_000),
        m.description@ == "High-strength aramid fiber, commonly used in aerospace"@,
        material_fault(m.tensile_strength, m.density) is None,
{
    let tensile_strength = Real::from_bits(0x41ea_d274_8000_0000);
    let density = Real::from_bits(0x4096_8000_0000_0000);
    let modulus = Real::from_bits(0x423a_13b8_6000_0000);
    proof {
        lemma2_to64();
        lemma2_to64_rest();
        lemma_denotes_integer(tensile_strength, 3_600_000_000, 21);
        lemma_denotes_integer(density, 1_440, 42);
        lemma_denotes_integer(modulus, 112_000_000_000, 16);
        lemma_whole_numbers_in_domain(
            Pascals(tensile_strength),
            KilogramsPerMetersCubed(density),
            3_600_000_000,
            1_440,
        );
    }
    Material::new(
        "Kevlar 49",
        Pascals(tensile_strength),
        KilogramsPerMetersCubed(density),
        Some(Pascals(modulus)),
        "High-strength aramid fiber, commonly used in aerospace",
    )
}

/// Ultra-high molecular weight polyethylene: 3.5 GPa, 970 kg/m^3, modulus 172 GPa.
pub fn uhmwpe() -> (m: Material)
    ensures
        m.name@ == "UHMWPE (Spectra/Dyneema)"@,
        m.tensile_strength.0.denotes(3_500_000_000),
        m.density.0.denotes(970),
        m.youngs_modulus matches Some(modulus) && modulus.0.denotes(172_000_000_000),
        m.description@ == "Ultra-high molecular weight polyethylene fiber"@,
        material_fault(m.tensile_strength, m.density) is None,
{
    let tensile_strength = Real::from_bits(0x41ea_13b8_6000_0000);
    let density = Real::from_bits(0x408e_5000_0000_0000);
    let modulus = Real::from_bits(0x4244_05ff_dc00_0000);
    proof {
        lemma2_to64();
        lemma2_to64_rest();
        lemma_denotes_integer(tensile_strength, 3_500_000_000, 21);
        lemma_denotes_integer(density, 970, 43);
        lemma_denotes_integer(modulus, 172_000_000_000, 15);
        lemma_whole_numbers_in_domain(
            Pascals(tensile_strength),
            KilogramsPerMetersCubed(density),
            3_500_000_000,
            970,
        );
    }
    Material::new(
        "UHMWPE (Spectra/Dyneema)",
        Pascals(tensile_strength),
        KilogramsPerMetersCubed(density),
        Some(Pascals(modulus)),
        "Ultra-high molecular weight polyethylene fiber",
    )
}

} // verus!
