use almagest::arithmetic::Arithmetic;
use almagest::ieee::Real;
use almagest::materials::{composites, fibers, metals, Material};
use almagest::utils::{KilogramsPerMetersCubed, Pascals};

/// IEEE-754 double arithmetic: the operators of `f64`, and libm for root
/// and power.
struct Fpu;

impl Arithmetic for Fpu {
    fn sum(&self, a: Real, b: Real) -> Real {
        num(val(a) + val(b))
    }

    fn difference(&self, a: Real, b: Real) -> Real {
        num(val(a) - val(b))
    }

    fn product(&self, a: Real, b: Real) -> Real {
        num(val(a) * val(b))
    }

    fn quotient(&self, a: Real, b: Real) -> Real {
        num(val(a) / val(b))
    }

    fn square_root(&self, a: Real) -> Real {
        num(libm::sqrt(val(a)))
    }

    fn power(&self, base: Real, exponent: Real) -> Real {
        num(libm::pow(val(base), val(exponent)))
    }
}

fn num(x: f64) -> Real {
    Real::from_bits(x.to_bits())
}

fn val(x: Real) -> f64 {
    f64::from_bits(x.to_bits())
}

/// Equal, or within `epsilon` of each other, or within one part in 2^52 of
/// the larger.
fn close(a: f64, b: f64, epsilon: f64) -> bool {
    if a == b {
        return true;
    }
    if a.is_infinite() || b.is_infinite() {
        return false;
    }
    let gap = (a - b).abs();
    gap <= epsilon || gap <= a.abs().max(b.abs()) * f64::EPSILON
}

#[test]
fn test_material_creation() {
    let material = Material::new(
        "Test Material",
        Pascals(num(1e9)),
        KilogramsPerMetersCubed(num(1000.0)),
        Some(Pascals(num(50e9))),
        "A test material",
    );

    assert_eq!(material.name, "Test Material");
    assert_eq!(val(material.tensile_strength.value()), 1e9);
    assert_eq!(val(material.density.0), 1000.0);
}

#[test]
fn test_specific_strength() {
    let pbo = fibers::pbo();
    let specific_strength = val(pbo.specific_strength(&Fpu));

    // PBO: 5.9e9 Pa / 1340 kg/m³ ≈ 4.4e6 N⋅m/kg
    assert!(close(specific_strength, 4.4e6, 0.1e6));
}

#[test]
fn test_material_comparison() {
    let pbo = fibers::pbo();
    let kevlar = fibers::kevlar_49();
    let aluminum = metals::aluminum_6061_t6();

    // PBO should have higher specific strength than Kevlar
    assert!(pbo.specific_strength(&Fpu) > kevlar.specific_strength(&Fpu));

    // Both fibers should have much higher specific strength than aluminum
    assert!(pbo.specific_strength(&Fpu) > aluminum.specific_strength(&Fpu));
    assert!(kevlar.specific_strength(&Fpu) > aluminum.specific_strength(&Fpu));
}

#[test]
fn test_all_materials_have_valid_properties() {
    let materials = [
        fibers::pbo(),
        fibers::carbon_nanotube(),
        fibers::kevlar_49(),
        fibers::uhmwpe(),
        metals::piano_wire(),
        metals::aluminum_6061_t6(),
        metals::titanium_6al_4v(),
        composites::carbon_fiber_ud(),
        composites::glass_fiber(),
    ];

    for material in &materials {
        // All materials should have positive tensile strength and density
        assert!(val(material.tensile_strength.value()) > 0.0);
        assert!(val(material.density.0) > 0.0);

        // Name and description should not be empty
        assert!(!material.name.is_empty());
        assert!(!material.description.is_empty());

        // Young's modulus, if present, should be positive
        if let Some(youngs) = material.youngs_modulus {
            assert!(val(youngs.value()) > 0.0);
        }
    }
}

#[test]
fn test_realistic_material_properties() {
    // Test that material properties are within realistic ranges

    // PBO should have very high strength
    assert!(val(fibers::pbo().tensile_strength.value()) > 5e9); // > 5 GPa

    // Aluminum should be much weaker than high-performance fibers
    assert!(val(metals::aluminum_6061_t6().tensile_strength.value()) < 1e9); // < 1 GPa

    // Carbon nanotubes should have the highest theoretical strength
    assert!(
        val(fibers::carbon_nanotube().tensile_strength.value())
            > val(fibers::pbo().tensile_strength.value())
    );

    // Density ranges should be realistic
    // Fibers typically 1000-2000 kg/m³
    assert!(val(fibers::pbo().density.0) > 1000.0 && val(fibers::pbo().density.0) < 2000.0);

    // Metals typically 2000-8000 kg/m³
    assert!(
        val(metals::aluminum_6061_t6().density.0) > 2000.0
            && val(metals::aluminum_6061_t6().density.0) < 4000.0
    );
    assert!(
        val(metals::titanium_6al_4v().density.0) > 4000.0
            && val(metals::titanium_6al_4v().density.0) < 5000.0
    );
}
