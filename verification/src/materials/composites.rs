//! Composite materials.
//!
//! Every material here is in the domain of the characteristic velocity.

use vstd::arithmetic::power2::{lemma2_to64, lemma2_to64_rest};
use vstd::prelude::*;

use crate::ieee::Real;
use crate::ieee_lemmas::lemma_denotes_integer;
use crate::materials::Material;
use crate::tethers::{lemma_whole_numbers_in_domain, material_fault};
use crate::utils::{KilogramsPerMetersCubed, Pascals};

verus! {

/// Unidirectional carbon fiber in polymer: 3.5 GPa along the fiber, 1600 kg/m^3, modulus 230 GPa.
pub fn carbon_fiber_ud() -> (m: Material)
    ensures
        m.name@ == "Carbon Fiber (UD)"@,
        m.tensile_strength.0.denotes(3_500_000_000),
        m.density.0.denotes(1_600),
        m.youngs_modulus matches Some(modulus) && modulus.0.denotes(230_000_000_000),
        m.description@ == "Unidirectional carbon fiber reinforced polymer"@,
        material_fault(m.tensile_strength, m.density) is None,
{
    let tensile_strength = Real::from_bits(0x41ea_13b8_6000_0000);
    let density = Real::from_bits(0x4099_0000_0000_0000);
    let modulus = Real::from_bits(0x424a_c688_be00_0000);
    proof {
        lemma2_to64();
        lemma2_to64_rest();
        lemma_denotes_integer(tensile_strength, 3_500_000_000, 21);
        lemma_denotes_integer(density, 1_600, 42);
        lemma_denotes_integer(modulus, 230_000_000_000, 15);
        lemma_whole_numbers_in_domain(
            Pascals(tensile_strength),
            KilogramsPerMetersCubed(density),
            3_500_000_000,
            1_600,
        );
    }
    Material::new(
        "Carbon Fiber (UD)",
        Pascals(tensile_strength),
        KilogramsPerMetersCubed(density),
        Some(Pascals(modulus)),
        "Unidirectional carbon fiber reinforced polymer",
    )
}

/// E-glass fiber in polymer: 3.4 GPa, 2540 kg/m^3, modulus 72 GPa.
pub fn glass_fiber() -> (m: Material)
    ensures
        m.name@ == "Glass Fiber (E-glass)"@,
        m.tensile_strength.0.denotes(3_400_000_000),
        m.density.0.denotes(2_540),
        m.youngs_modulus matches Some(modulus) && modulus.0.denotes(72_000_000_000),
        m.description@ == "E-glass fiber reinforced polymer"@,
        material_fault(m.tensile_strength, m.density) is None,
{
    let tensile_strength = Real::from_bits(0x41e9_54fc_4000_0000);
    let density = Real::from_bits(0x40a3_d800_0000_0000);
    let modulus = Real::from_bits(0x4230_c388_d000_0000);
    proof {
        lemma2_to64();
        lemma2_to64_rest();
        lemma_denotes_integer(tensile_strength, 3_400_000_000, 21);
        lemma_denotes_integer(density, 2_540, 41);
        lemma_denotes_integer(modulus, 72_000_000_000, 16);
        lemma_whole_numbers_in_domain(
            Pascals(tensile_strength),
            KilogramsPerMetersCubed(density),
            3_400_000_000,
            2_540,
        );
    }
    Material::new(
        "Glass Fiber (E-glass)",
        Pascals(tensile_strength),
        KilogramsPerMetersCubed(density),
        Some(Pascals(modulus)),
        "E-glass fiber reinforced polymer",
    )
}

} // verus!
