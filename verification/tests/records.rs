use almagest::arithmetic::Arithmetic;
use almagest::celestials::celestial_bodies;
use almagest::ieee::Real;
use almagest::materials::{composites, fibers, metals, Material};
use almagest::planets::Planets;
use almagest::tethers::characteristic_velocity_for_material;

/// IEEE-754 double arithmetic: the operators of `f64`, and libm for root
/// and power.
struct Fpu;

impl Arithmetic for Fpu {
    fn sum(&self, a: Real, b: Real) -> Real {
        num(val(a) + val(b))
    }

    fn difference(&self, a: Real, b: Real) -> Real {
        num(val(a) - val(b))
    }

    fn product(&self, a: Real, b: Real) -> Real {
        num(val(a) * val(b))
    }

    fn quotient(&self, a: Real, b: Real) -> Real {
        num(val(a) / val(b))
    }

    fn square_root(&self, a: Real) -> Real {
        num(libm::sqrt(val(a)))
    }

    fn power(&self, base: Real, exponent: Real) -> Real {
        num(libm::pow(val(base), val(exponent)))
    }
}

fn num(x: f64) -> Real {
    Real::from_bits(x.to_bits())
}

fn val(x: Real) -> f64 {
    f64::from_bits(x.to_bits())
}

fn properties(m: &Material) -> (f64, f64, Option<f64>) {
    (
        val(m.tensile_strength.0),
        val(m.density.0),
        m.youngs_modulus.map(|y| val(y.0)),
    )
}

#[test]
fn the_catalogue_holds_the_published_values() {
    assert_eq!(properties(&fibers::pbo()), (5.9e9, 1340.0, Some(270e9)));
    assert_eq!(properties(&fibers::carbon_nanotube()), (63e9, 1300.0, Some(1000e9)));
    assert_eq!(properties(&fibers::kevlar_49()), (3.6e9, 1440.0, Some(112e9)));
    assert_eq!(properties(&fibers::uhmwpe()), (3.5e9, 970.0, Some(172e9)));
    assert_eq!(properties(&metals::piano_wire()), (2.2e9, 7850.0, Some(200e9)));
    assert_eq!(properties(&metals::aluminum_6061_t6()), (310e6, 2700.0, Some(69e9)));
    assert_eq!(properties(&metals::titanium_6al_4v()), (1170e6, 4430.0, Some(114e9)));
    assert_eq!(properties(&composites::carbon_fiber_ud()), (3.5e9, 1600.0, Some(230e9)));
    assert_eq!(properties(&composites::glass_fiber()), (3.4e9, 2540.0, Some(72e9)));
}

#[test]
fn the_catalogue_names_and_describes_its_materials() {
    assert_eq!(fibers::pbo().name, "PBO (Zylon)");
    assert_eq!(
        fibers::pbo().description,
        "Ultra-high strength synthetic fiber, excellent for space tethers"
    );
    assert_eq!(fibers::carbon_nanotube().name, "Carbon Nanotube (SWNT)");
    assert_eq!(fibers::kevlar_49().name, "Kevlar 49");
    assert_eq!(fibers::uhmwpe().name, "UHMWPE (Spectra/Dyneema)");
    assert_eq!(metals::piano_wire().name, "Piano Wire Steel");
    assert_eq!(metals::aluminum_6061_t6().name, "Aluminum 6061-T6");
    assert_eq!(metals::titanium_6al_4v().name, "Titanium Ti-6Al-4V");
    assert_eq!(composites::carbon_fiber_ud().name, "Carbon Fiber (UD)");
    assert_eq!(composites::glass_fiber().name, "Glass Fiber (E-glass)");
    assert_eq!(composites::glass_fiber().description, "E-glass fiber reinforced polymer");
}

#[test]
fn every_catalogued_material_has_a_characteristic_velocity() {
    for material in [
        fibers::pbo(),
        fibers::carbon_nanotube(),
        fibers::kevlar_49(),
        fibers::uhmwpe(),
        metals::piano_wire(),
        metals::aluminum_6061_t6(),
        metals::titanium_6al_4v(),
        composites::carbon_fiber_ud(),
        composites::glass_fiber(),
    ] {
        let v = characteristic_velocity_for_material(&Fpu, &material).unwrap();
        assert!(val(v.0) > 400.0 && val(v.0) < 10_000.0, "{}", material.name);
    }
}

#[test]
fn specific_strength_is_strength_over_density() {
    let kevlar = fibers::kevlar_49();
    assert_eq!(val(kevlar.specific_strength(&Fpu)), 2.5e6);
    let pbo = fibers::pbo();
    assert_eq!(val(pbo.specific_strength(&Fpu)).to_bits(), (5.9e9f64 / 1340.0).to_bits());
}

#[test]
fn the_planets_on_record() {
    let earth = Planets::Earth.data();
    assert_eq!(val(earth.mass.0), 5.972e24);
    assert_eq!(val(earth.radius.0), 6.371e6);
    assert_eq!(val(earth.rotation_period.0), 86_164.0);
    let luna = Planets::Luna.data();
    assert_eq!(val(luna.mass.0), 7.34767309e22);
    assert_eq!(val(luna.radius.0), 1.7374e6);
    assert_eq!(val(luna.rotation_period.0), 2_360_591.0);
    assert!(Planets::Earth == Planets::Earth && Planets::Earth != Planets::Luna);
}

#[test]
fn a_planet_turns_once_in_its_rotation_period() {
    let earth = Planets::Earth.data();
    let omega = val(earth.rotational_angular_velocity(&Fpu));
    assert_eq!(omega.to_bits(), (2.0 * std::f64::consts::PI / 86_164.0).to_bits());
    assert!((omega - 7.2921e-5).abs() < 1e-9, "{omega}");
    let luna = Planets::Luna.data();
    assert!(val(luna.rotational_angular_velocity(&Fpu)) < omega);
}

#[test]
fn the_celestial_bodies_on_record() {
    let earth = celestial_bodies::earth();
    assert_eq!((earth.name, val(earth.mass.0), val(earth.radius.0)), ("Earth", 5.972e24, 6_371.0));
    let mars = celestial_bodies::mars();
    assert_eq!((mars.name, val(mars.mass.0), val(mars.radius.0)), ("Mars", 6.417e23, 3_390.0));
    let moon = celestial_bodies::moon();
    assert_eq!((moon.name, val(moon.mass.0), val(moon.radius.0)), ("Moon", 7.35e22, 1_737.48));
}
