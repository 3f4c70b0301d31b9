use almagest::arithmetic::Arithmetic;
use almagest::error::InvalidInput;
use almagest::ieee::Real;
use almagest::materials::{fibers, Material};
use almagest::tethers::{
    characteristic_velocity, characteristic_velocity_for_material, check_material, check_orbit,
    momentum_exchange_angular_velocity, momentum_exchange_efficiency,
    momentum_exchange_orbital_period, momentum_exchange_orbital_velocity,
    momentum_exchange_spin_rate, MAX_DENSITY_BITS, MAX_TENSILE_STRENGTH_BITS,
};
use almagest::utils::{
    KilogramsPerMetersCubed, Meters, MetersCubedByKilogramSecondsSquared, Pascals,
};

/// IEEE-754 double arithmetic: the operators of `f64`, and libm for root
/// and power.
struct Fpu;

impl Arithmetic for Fpu {
    fn sum(&self, a: Real, b: Real) -> Real {
        num(val(a) + val(b))
    }

    fn difference(&self, a: Real, b: Real) -> Real {
        num(val(a) - val(b))
    }

    fn product(&self, a: Real, b: Real) -> Real {
        num(val(a) * val(b))
    }

    fn quotient(&self, a: Real, b: Real) -> Real {
        num(val(a) / val(b))
    }

    fn square_root(&self, a: Real) -> Real {
        num(libm::sqrt(val(a)))
    }

    fn power(&self, base: Real, exponent: Real) -> Real {
        num(libm::pow(val(base), val(exponent)))
    }
}

fn num(x: f64) -> Real {
    Real::from_bits(x.to_bits())
}

fn val(x: Real) -> f64 {
    f64::from_bits(x.to_bits())
}

fn velocity(strength: f64, density: f64) -> Result<f64, InvalidInput> {
    characteristic_velocity(&Fpu, Pascals(num(strength)), KilogramsPerMetersCubed(num(density)))
        .map(|v| val(v.0))
}

fn custom(strength: f64, density: f64) -> Material {
    Material::new(
        "custom",
        Pascals(num(strength)),
        KilogramsPerMetersCubed(num(density)),
        None,
        "made for a test",
    )
}

const EARTH_MU: f64 = 3.986004418e14;

#[test]
fn characteristic_velocity_is_the_root_of_twice_strength_over_density() {
    for (strength, density) in [
        (5.9e9, 1340.0),
        (3.6e9, 1440.0),
        (3.5e9, 970.0),
        (2.2e9, 7850.0),
        (1.23456789e9, 987.654321),
        (1.0e6, 500.0),
        (200e9, 50_000.0),
        (5e-324, 50_000.0),
    ] {
        let want = libm::sqrt((strength * 2.0) / density);
        assert_eq!(velocity(strength, density).unwrap().to_bits(), want.to_bits());
    }
}

#[test]
fn characteristic_velocity_of_pbo_is_2967_49() {
    let v = velocity(5.9e9, 1340.0).unwrap();
    assert!((v - 2967.49).abs() <= 0.01, "{v}");
    assert_eq!(v, 2967.4854926778885);
}

#[test]
fn each_material_fault_is_named() {
    assert_eq!(velocity(0.0, 1340.0), Err(InvalidInput::TensileStrengthNotPositive));
    assert_eq!(velocity(-0.0, 1340.0), Err(InvalidInput::TensileStrengthNotPositive));
    assert_eq!(velocity(-5.9e9, 1340.0), Err(InvalidInput::TensileStrengthNotPositive));
    assert_eq!(velocity(f64::NEG_INFINITY, 1340.0), Err(InvalidInput::TensileStrengthNotPositive));
    assert_eq!(velocity(5.9e9, 0.0), Err(InvalidInput::DensityNotPositive));
    assert_eq!(velocity(5.9e9, -1340.0), Err(InvalidInput::DensityNotPositive));
    assert_eq!(velocity(300e9, 1340.0), Err(InvalidInput::TensileStrengthTooHigh));
    assert_eq!(velocity(f64::INFINITY, 1340.0), Err(InvalidInput::TensileStrengthTooHigh));
    assert_eq!(velocity(5.9e9, 60_000.0), Err(InvalidInput::DensityTooHigh));
    assert_eq!(velocity(5.9e9, f64::INFINITY), Err(InvalidInput::DensityTooHigh));
}

#[test]
fn the_first_material_fault_wins() {
    assert_eq!(velocity(-1.0, -1.0), Err(InvalidInput::TensileStrengthNotPositive));
    assert_eq!(velocity(-1.0, 60_000.0), Err(InvalidInput::TensileStrengthNotPositive));
    assert_eq!(velocity(300e9, -1.0), Err(InvalidInput::DensityNotPositive));
    assert_eq!(velocity(300e9, 60_000.0), Err(InvalidInput::TensileStrengthTooHigh));
}

#[test]
fn the_limits_themselves_are_in_the_domain() {
    assert_eq!(MAX_TENSILE_STRENGTH_BITS, 200e9f64.to_bits());
    assert_eq!(MAX_DENSITY_BITS, 50_000.0f64.to_bits());
    assert!(velocity(200e9, 50_000.0).is_ok());
    let above_strength = f64::from_bits(200e9f64.to_bits() + 1);
    let above_density = f64::from_bits(50_000.0f64.to_bits() + 1);
    assert_eq!(velocity(above_strength, 1340.0), Err(InvalidInput::TensileStrengthTooHigh));
    assert_eq!(velocity(5.9e9, above_density), Err(InvalidInput::DensityTooHigh));
    assert!(velocity(f64::from_bits(1), f64::from_bits(1)).is_ok());
}

#[test]
fn a_nan_passes_every_test_and_comes_back_as_a_nan() {
    assert!(velocity(f64::NAN, 1340.0).unwrap().is_nan());
    assert!(velocity(5.9e9, f64::NAN).unwrap().is_nan());
    let v = momentum_exchange_orbital_velocity(
        &Fpu,
        Meters(num(f64::NAN)),
        MetersCubedByKilogramSecondsSquared(num(EARTH_MU)),
    );
    assert!(val(v.unwrap().0).is_nan());
}

#[test]
fn check_material_and_check_orbit_name_the_same_faults() {
    let check = |s: f64, d: f64| check_material(Pascals(num(s)), KilogramsPerMetersCubed(num(d)));
    assert_eq!(check(5.9e9, 1340.0), Ok(()));
    assert_eq!(check(0.0, 1340.0), Err(InvalidInput::TensileStrengthNotPositive));
    assert_eq!(check(5.9e9, 0.0), Err(InvalidInput::DensityNotPositive));
    assert_eq!(check(201e9, 1340.0), Err(InvalidInput::TensileStrengthTooHigh));
    assert_eq!(check(5.9e9, 50_001.0), Err(InvalidInput::DensityTooHigh));
    let orbit =
        |r: f64, mu: f64| check_orbit(Meters(num(r)), MetersCubedByKilogramSecondsSquared(num(mu)));
    assert_eq!(orbit(6.771e6, EARTH_MU), Ok(()));
    assert_eq!(orbit(0.0, EARTH_MU), Err(InvalidInput::RadiusNotPositive));
    assert_eq!(orbit(6.771e6, 0.0), Err(InvalidInput::GravitationalParameterNotPositive));
    assert_eq!(orbit(-1.0, -1.0), Err(InvalidInput::RadiusNotPositive));
}

#[test]
fn orbital_formulas_match_their_closed_forms_bit_for_bit() {
    for r in [6.571e6, 6.771e6, 1.2e7, 4.2157e7] {
        let radius = Meters(num(r));
        let mu = MetersCubedByKilogramSecondsSquared(num(EARTH_MU));
        let v = momentum_exchange_orbital_velocity(&Fpu, radius, mu).unwrap();
        assert_eq!(val(v.0).to_bits(), libm::sqrt(EARTH_MU / r).to_bits());
        let t = momentum_exchange_orbital_period(&Fpu, radius, mu).unwrap();
        let want = std::f64::consts::TAU * libm::sqrt(libm::pow(r, 3.0) / EARTH_MU);
        assert_eq!(val(t.0).to_bits(), want.to_bits());
        let w = momentum_exchange_angular_velocity(&Fpu, radius, mu).unwrap();
        assert_eq!(val(w.0).to_bits(), libm::sqrt(EARTH_MU / libm::pow(r, 3.0)).to_bits());
    }
}

#[test]
fn low_earth_orbit_end_to_end() {
    let radius = Meters(num(6.771e6));
    let mu = MetersCubedByKilogramSecondsSquared(num(EARTH_MU));
    let v = val(momentum_exchange_orbital_velocity(&Fpu, radius, mu).unwrap().0);
    assert!((v - 7669.0).abs() <= 10.0, "{v}");
    let t = val(momentum_exchange_orbital_period(&Fpu, radius, mu).unwrap().0);
    assert!((t - 5543.0).abs() <= 10.0, "{t}");
    let w = val(momentum_exchange_angular_velocity(&Fpu, radius, mu).unwrap().0);
    assert!((w - 0.00113).abs() <= 0.0001, "{w}");
}

#[test]
fn each_orbit_fault_is_named_by_all_three_formulas() {
    let mu = MetersCubedByKilogramSecondsSquared(num(EARTH_MU));
    let radius = Meters(num(6.771e6));
    let none = MetersCubedByKilogramSecondsSquared(num(0.0));
    let nowhere = Meters(num(-6.771e6));
    assert_eq!(
        momentum_exchange_orbital_velocity(&Fpu, nowhere, mu).map(|v| val(v.0)),
        Err(InvalidInput::RadiusNotPositive)
    );
    assert_eq!(
        momentum_exchange_orbital_velocity(&Fpu, radius, none).map(|v| val(v.0)),
        Err(InvalidInput::GravitationalParameterNotPositive)
    );
    assert_eq!(
        momentum_exchange_orbital_period(&Fpu, nowhere, none).map(|v| val(v.0)),
        Err(InvalidInput::RadiusNotPositive)
    );
    assert_eq!(
        momentum_exchange_orbital_period(&Fpu, radius, none).map(|v| val(v.0)),
        Err(InvalidInput::GravitationalParameterNotPositive)
    );
    assert_eq!(
        momentum_exchange_angular_velocity(&Fpu, nowhere, mu).map(|v| val(v.0)),
        Err(InvalidInput::RadiusNotPositive)
    );
    assert_eq!(
        momentum_exchange_angular_velocity(&Fpu, radius, none).map(|v| val(v.0)),
        Err(InvalidInput::GravitationalParameterNotPositive)
    );
}

#[test]
fn efficiency_is_the_velocity_ratio_below_one_and_one_above() {
    let mu = MetersCubedByKilogramSecondsSquared(num(EARTH_MU));
    let low = Meters(num(6.771e6));
    let pbo = fibers::pbo();
    let want = libm::sqrt((5.9e9 * 2.0) / 1340.0) / libm::sqrt(EARTH_MU / 6.771e6);
    let got = val(momentum_exchange_efficiency(&Fpu, &pbo, low, mu).unwrap());
    assert_eq!(got.to_bits(), want.to_bits());
    assert!(got < 1.0);

    // Nanotube at geostationary height: the material outruns the orbit.
    let high = Meters(num(4.2157e7));
    let tube = fibers::carbon_nanotube();
    let ratio = libm::sqrt((63e9 * 2.0) / 1300.0) / libm::sqrt(EARTH_MU / 4.2157e7);
    assert!(ratio > 3.0);
    let capped = val(momentum_exchange_efficiency(&Fpu, &tube, high, mu).unwrap());
    assert_eq!(capped.to_bits(), 1.0f64.to_bits());
}

#[test]
fn efficiency_stays_in_the_unit_interval() {
    let mu = MetersCubedByKilogramSecondsSquared(num(EARTH_MU));
    for strength in [5e-324, 1.0, 310e6, 5.9e9, 200e9] {
        for density in [5e-324, 1.0, 970.0, 50_000.0] {
            for r in [5e-324, 1.0, 6.771e6, 4.2e7, 1e300, f64::MAX, f64::INFINITY] {
                let m = custom(strength, density);
                let e = val(momentum_exchange_efficiency(&Fpu, &m, Meters(num(r)), mu).unwrap());
                assert!((0.0..=1.0).contains(&e), "{strength} {density} {r}: {e}");
            }
        }
    }
}

#[test]
fn a_fault_of_the_material_comes_before_a_fault_of_the_orbit() {
    let mu = MetersCubedByKilogramSecondsSquared(num(EARTH_MU));
    let bad_mu = MetersCubedByKilogramSecondsSquared(num(-1.0));
    let bad_r = Meters(num(0.0));
    let r = Meters(num(6.771e6));
    let good = custom(5.9e9, 1340.0);
    let weightless = custom(5.9e9, 0.0);
    let efficiency = |m: &Material, r, mu| momentum_exchange_efficiency(&Fpu, m, r, mu).map(val);
    assert_eq!(efficiency(&weightless, bad_r, bad_mu), Err(InvalidInput::DensityNotPositive));
    assert_eq!(efficiency(&custom(300e9, 1.0), bad_r, mu), Err(InvalidInput::TensileStrengthTooHigh));
    assert_eq!(efficiency(&good, bad_r, bad_mu), Err(InvalidInput::RadiusNotPositive));
    assert_eq!(efficiency(&good, r, bad_mu), Err(InvalidInput::GravitationalParameterNotPositive));
    assert!(efficiency(&good, r, mu).is_ok());
}

#[test]
fn for_material_reads_strength_and_density() {
    let kevlar = fibers::kevlar_49();
    let direct = velocity(3.6e9, 1440.0).unwrap();
    let by_record = characteristic_velocity_for_material(&Fpu, &kevlar).unwrap();
    assert_eq!(val(by_record.0).to_bits(), direct.to_bits());
    assert_eq!(
        characteristic_velocity_for_material(&Fpu, &custom(1.0, 50_001.0)).map(|v| val(v.0)),
        Err(InvalidInput::DensityTooHigh)
    );
}

#[test]
fn spin_rate_follows_moravec_and_is_capped_at_ten() {
    let spin = |length: f64, radius: f64| {
        momentum_exchange_spin_rate(&Fpu, Meters(num(length)), Meters(num(radius))).map(val)
    };
    let formula = |length: f64, radius: f64| {
        1.0 + (((length * 2.0) / (radius * 2.0)) / (1.0 / 3.0)) * 5.0
    };
    let earth = 6.371e6;
    for length in [50e3, 100e3, 200e3, 500e3, 1.05e6, earth / 3.0] {
        assert_eq!(spin(length, earth).unwrap().to_bits(), formula(length, earth).to_bits());
    }
    let moravec = spin(earth / 3.0, earth).unwrap();
    assert!((moravec - 6.0).abs() <= 0.1, "{moravec}");
    // 3/5 of the radius is where the formula reaches 10.
    assert!(spin(0.59 * earth, earth).unwrap() < 10.0);
    assert_eq!(spin(0.61 * earth, earth).unwrap(), 10.0);
    assert_eq!(spin(earth, earth).unwrap(), 10.0);
    assert_eq!(spin(f64::INFINITY, earth).unwrap(), 10.0);
    assert_eq!(spin(f64::INFINITY, f64::INFINITY).unwrap(), 10.0);
}

#[test]
fn each_spin_fault_is_named() {
    let spin = |length: f64, radius: f64| {
        momentum_exchange_spin_rate(&Fpu, Meters(num(length)), Meters(num(radius))).map(val)
    };
    assert_eq!(spin(0.0, 6.371e6), Err(InvalidInput::TetherLengthNotPositive));
    assert_eq!(spin(-1.0, -1.0), Err(InvalidInput::TetherLengthNotPositive));
    assert_eq!(spin(1000.0, 0.0), Err(InvalidInput::BodyRadiusNotPositive));
    assert_eq!(spin(1000.0, -1e6), Err(InvalidInput::BodyRadiusNotPositive));
}

#[test]
fn every_reason_is_spelled_out() {
    let reasons = [
        (InvalidInput::TensileStrengthNotPositive, "Tensile strength must be positive"),
        (InvalidInput::DensityNotPositive, "Density must be positive"),
        (InvalidInput::TensileStrengthTooHigh, "Tensile strength exceeds known material limits"),
        (InvalidInput::DensityTooHigh, "Density exceeds reasonable material limits"),
        (InvalidInput::RadiusNotPositive, "Orbital radius must be positive"),
        (
            InvalidInput::GravitationalParameterNotPositive,
            "Gravitational parameter must be positive",
        ),
        (InvalidInput::TetherLengthNotPositive, "Tether length must be positive"),
        (InvalidInput::BodyRadiusNotPositive, "Central body radius must be positive"),
        (InvalidInput::EccentricityNegative, "value must be non-negative"),
    ];
    for (fault, text) in reasons {
        assert_eq!(fault.reason(), text);
    }
}
