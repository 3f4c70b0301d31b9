use almagest::arithmetic::Arithmetic;
use almagest::ieee::Real;
use almagest::materials::{fibers, metals};
use almagest::tethers::{
    characteristic_velocity, characteristic_velocity_for_material,
    momentum_exchange_angular_velocity, momentum_exchange_efficiency,
    momentum_exchange_orbital_period, momentum_exchange_orbital_velocity,
    momentum_exchange_spin_rate,
};
use almagest::utils::{
    KilogramsPerMetersCubed, Meters, MetersCubedByKilogramSecondsSquared, Pascals,
};

/// IEEE-754 double arithmetic: the operators of `f64`, and libm for root
/// and power.
struct Fpu;

impl Arithmetic for Fpu {
    fn sum(&self, a: Real, b: Real) -> Real {
        num(val(a) + val(b))
    }

    fn difference(&self, a: Real, b: Real) -> Real {
        num(val(a) - val(b))
    }

    fn product(&self, a: Real, b: Real) -> Real {
        num(val(a) * val(b))
    }

    fn quotient(&self, a: Real, b: Real) -> Real {
        num(val(a) / val(b))
    }

    fn square_root(&self, a: Real) -> Real {
        num(libm::sqrt(val(a)))
    }

    fn power(&self, base: Real, exponent: Real) -> Real {
        num(libm::pow(val(base), val(exponent)))
    }
}

fn num(x: f64) -> Real {
    Real::from_bits(x.to_bits())
}

fn val(x: Real) -> f64 {
    f64::from_bits(x.to_bits())
}

/// Equal, or within `epsilon` of each other, or within one part in 2^52 of
/// the larger.
fn close(a: f64, b: f64, epsilon: f64) -> bool {
    if a == b {
        return true;
    }
    if a.is_infinite() || b.is_infinite() {
        return false;
    }
    let gap = (a - b).abs();
    gap <= epsilon || gap <= a.abs().max(b.abs()) * f64::EPSILON
}

#[test]
fn test_char_velo() {
    let pbo_char_vel =
        characteristic_velocity(&Fpu, Pascals(num(5.9e9)), KilogramsPerMetersCubed(num(1_340.0)))
            .expect("Valid PBO parameters");
    assert!(close(val(pbo_char_vel.0), 2967.49, 0.01));
}

#[test]
fn test_char_velo_validation() {
    // Test negative tensile strength
    assert!(characteristic_velocity(
        &Fpu,
        Pascals(num(-1000.0)),
        KilogramsPerMetersCubed(num(1000.0))
    )
    .is_err());

    // Test negative density
    assert!(characteristic_velocity(
        &Fpu,
        Pascals(num(1e9)),
        KilogramsPerMetersCubed(num(-1000.0))
    )
    .is_err());

    // Test zero values
    assert!(
        characteristic_velocity(&Fpu, Pascals(num(0.0)), KilogramsPerMetersCubed(num(1000.0)))
            .is_err()
    );
    assert!(
        characteristic_velocity(&Fpu, Pascals(num(1e9)), KilogramsPerMetersCubed(num(0.0)))
            .is_err()
    );

    // Test unreasonably high values
    assert!(characteristic_velocity(
        &Fpu,
        Pascals(num(300e9)),
        KilogramsPerMetersCubed(num(1000.0))
    )
    .is_err());
    assert!(characteristic_velocity(
        &Fpu,
        Pascals(num(1e9)),
        KilogramsPerMetersCubed(num(100_000.0))
    )
    .is_err());
}

#[test]
fn test_char_velo_with_materials() {
    // Test with PBO using the materials database
    let pbo_velocity =
        characteristic_velocity_for_material(&Fpu, &fibers::pbo()).expect("Valid PBO material");
    assert!(close(val(pbo_velocity.0), 2967.49, 0.01));

    // Test with Kevlar
    let kevlar_velocity = characteristic_velocity_for_material(&Fpu, &fibers::kevlar_49())
        .expect("Valid Kevlar material");
    // sqrt((2 * 3.6e9) / 1440) ≈ 2236 m/s
    assert!(close(val(kevlar_velocity.0), 2236.0, 10.0));

    // Verify PBO has higher characteristic velocity than Kevlar
    assert!(pbo_velocity.0 > kevlar_velocity.0);
}

#[test]
fn test_material_specific_strength_correlation() {
    // Materials with higher specific strength should generally have higher characteristic velocity
    let pbo = characteristic_velocity_for_material(&Fpu, &fibers::pbo()).unwrap();
    let aluminum =
        characteristic_velocity_for_material(&Fpu, &metals::aluminum_6061_t6()).unwrap();
    let uhmwpe = characteristic_velocity_for_material(&Fpu, &fibers::uhmwpe()).unwrap();

    // High-performance fibers should outperform metals significantly
    assert!(pbo.0 > aluminum.0);
    assert!(uhmwpe.0 > aluminum.0);

    // PBO should be among the best performers
    assert!(pbo.0 > uhmwpe.0);
}

#[test]
fn test_momentum_exchange_orbital_velocity() {
    // Earth's standard gravitational parameter
    let earth_mu = MetersCubedByKilogramSecondsSquared(num(3.986004418e14));

    // Test LEO orbital velocity (400km altitude)
    let earth_radius = Meters(num(6.371e6));
    let leo_altitude = Meters(num(400e3));
    let leo_radius = Meters(num(val(earth_radius.0) + val(leo_altitude.0)));

    let leo_velocity = momentum_exchange_orbital_velocity(&Fpu, leo_radius, earth_mu)
        .expect("Valid LEO parameters");

    // LEO velocity should be approximately 7,669 m/s
    assert!(close(val(leo_velocity.0), 7669.0, 10.0));

    // Test geostationary orbital velocity
    let geo_altitude = Meters(num(35.786e6));
    let geo_radius = Meters(num(val(earth_radius.0) + val(geo_altitude.0)));

    let geo_velocity = momentum_exchange_orbital_velocity(&Fpu, geo_radius, earth_mu)
        .expect("Valid GEO parameters");

    // GEO velocity should be approximately 3,074 m/s
    assert!(close(val(geo_velocity.0), 3074.0, 10.0));

    // Higher orbits should have lower velocities
    assert!(leo_velocity.0 > geo_velocity.0);
}

#[test]
fn test_momentum_exchange_orbital_velocity_validation() {
    let earth_mu = MetersCubedByKilogramSecondsSquared(num(3.986004418e14));

    // Test negative radius
    assert!(momentum_exchange_orbital_velocity(&Fpu, Meters(num(-1000.0)), earth_mu).is_err());

    // Test zero radius
    assert!(momentum_exchange_orbital_velocity(&Fpu, Meters(num(0.0)), earth_mu).is_err());

    // Test negative gravitational parameter
    assert!(momentum_exchange_orbital_velocity(
        &Fpu,
        Meters(num(7e6)),
        MetersCubedByKilogramSecondsSquared(num(-1e14))
    )
    .is_err());

    // Test zero gravitational parameter
    assert!(momentum_exchange_orbital_velocity(
        &Fpu,
        Meters(num(7e6)),
        MetersCubedByKilogramSecondsSquared(num(0.0))
    )
    .is_err());
}

#[test]
fn test_momentum_exchange_orbital_period() {
    let earth_mu = MetersCubedByKilogramSecondsSquared(num(3.986004418e14));
    let earth_radius = Meters(num(6.371e6));

    // Test LEO orbital period (400km altitude)
    let leo_altitude = Meters(num(400e3));
    let leo_radius = Meters(num(val(earth_radius.0) + val(leo_altitude.0)));

    let leo_period = momentum_exchange_orbital_period(&Fpu, leo_radius, earth_mu)
        .expect("Valid LEO parameters");

    // LEO period should be approximately 5,543 seconds (~92.4 minutes)
    assert!(close(val(leo_period.0), 5543.0, 10.0));

    // Test geostationary orbital period
    let geo_altitude = Meters(num(35.786e6));
    let geo_radius = Meters(num(val(earth_radius.0) + val(geo_altitude.0)));

    let geo_period = momentum_exchange_orbital_period(&Fpu, geo_radius, earth_mu)
        .expect("Valid GEO parameters");

    // GEO period should be approximately 86,164 seconds (23h 56m 4s)
    assert!(close(val(geo_period.0), 86164.0, 100.0));

    // Higher orbits should have longer periods
    assert!(geo_period.0 > leo_period.0);
}

#[test]
fn test_momentum_exchange_angular_velocity() {
    let earth_mu = MetersCubedByKilogramSecondsSquared(num(3.986004418e14));
    let earth_radius = Meters(num(6.371e6));
    let leo_altitude = Meters(num(400e3));
    let leo_radius = Meters(num(val(earth_radius.0) + val(leo_altitude.0)));

    let angular_vel = momentum_exchange_angular_velocity(&Fpu, leo_radius, earth_mu)
        .expect("Valid LEO parameters");

    // Angular velocity should be approximately 0.00113 rad/s for LEO
    assert!(close(val(angular_vel.0), 0.00113, 0.0001));

    // Test relationship: ω = v/r
    let orbital_vel = momentum_exchange_orbital_velocity(&Fpu, leo_radius, earth_mu).unwrap();
    let expected_angular_vel = val(orbital_vel.0) / val(leo_radius.0);
    assert!(close(val(angular_vel.0), expected_angular_vel, 1e-10));
}

#[test]
fn test_momentum_exchange_efficiency() {
    let earth_mu = MetersCubedByKilogramSecondsSquared(num(3.986004418e14));
    let earth_radius = Meters(num(6.371e6));
    let leo_altitude = Meters(num(400e3));
    let leo_radius = Meters(num(val(earth_radius.0) + val(leo_altitude.0)));

    // Test efficiency with PBO material
    let pbo_efficiency = val(
        momentum_exchange_efficiency(&Fpu, &fibers::pbo(), leo_radius, earth_mu)
            .expect("Valid PBO efficiency calculation"),
    );

    // PBO has characteristic velocity ~2967 m/s, LEO orbital velocity ~7669 m/s
    // So efficiency should be ~0.387 (38.7%)
    assert!(close(pbo_efficiency, 0.387, 0.01));

    // Efficiency should be between 0 and 1
    assert!(pbo_efficiency >= 0.0 && pbo_efficiency <= 1.0);

    // Test efficiency with weaker material (aluminum)
    let aluminum_efficiency = val(
        momentum_exchange_efficiency(&Fpu, &metals::aluminum_6061_t6(), leo_radius, earth_mu)
            .expect("Valid aluminum efficiency calculation"),
    );

    // Aluminum should have lower efficiency than PBO
    assert!(aluminum_efficiency < pbo_efficiency);
    assert!(aluminum_efficiency >= 0.0 && aluminum_efficiency <= 1.0);
}

#[test]
fn test_momentum_exchange_kepler_third_law() {
    // Verify that our period calculation follows Kepler's third law: T² ∝ r³
    let earth_mu = MetersCubedByKilogramSecondsSquared(num(3.986004418e14));

    let radius1 = Meters(num(7e6));
    let radius2 = Meters(num(14e6)); // Double the radius

    let period1 = momentum_exchange_orbital_period(&Fpu, radius1, earth_mu).unwrap();
    let period2 = momentum_exchange_orbital_period(&Fpu, radius2, earth_mu).unwrap();

    // T₂²/T₁² should equal (r₂/r₁)³ = 2³ = 8
    let period_ratio_squared = libm::pow(val(period2.0) / val(period1.0), 2.0);
    let radius_ratio_cubed = libm::pow(val(radius2.0) / val(radius1.0), 3.0);

    assert!(close(period_ratio_squared, radius_ratio_cubed, 1e-10));
}

#[test]
fn test_momentum_exchange_vis_viva_equation() {
    // Verify that our velocity calculation follows the vis-viva equation for circular orbits
    let earth_mu = MetersCubedByKilogramSecondsSquared(num(3.986004418e14));

    let test_radii = [
        Meters(num(6.571e6)), // LEO
        Meters(num(1.2e7)),   // Medium orbit
        Meters(num(4.2e7)),   // GEO
    ];

    for radius in &test_radii {
        let velocity = momentum_exchange_orbital_velocity(&Fpu, *radius, earth_mu).unwrap();
        let angular_velocity =
            momentum_exchange_angular_velocity(&Fpu, *radius, earth_mu).unwrap();

        // For circular orbits: v = ωr
        let velocity_from_angular = val(angular_velocity.0) * val(radius.0);
        assert!(close(val(velocity.0), velocity_from_angular, 1e-10));

        // For circular orbits: v² = μ/r
        let velocity_squared = libm::pow(val(velocity.0), 2.0);
        let expected_velocity_squared = val(earth_mu.0) / val(radius.0);
        assert!(close(velocity_squared, expected_velocity_squared, 1e-10));
    }
}

#[test]
fn test_momentum_exchange_spin_rate() {
    let earth_radius = Meters(num(6.371e6));

    // Test small tether (should have spin rate close to 1x)
    let small_tether = Meters(num(50e3)); // 50 km
    let small_spin = val(momentum_exchange_spin_rate(&Fpu, small_tether, earth_radius).unwrap());
    assert!(small_spin >= 1.0 && small_spin < 2.0);

    // Test medium tether
    let medium_tether = Meters(num(200e3)); // 200 km
    let medium_spin = val(momentum_exchange_spin_rate(&Fpu, medium_tether, earth_radius).unwrap());
    assert!(medium_spin > small_spin);
    assert!(medium_spin < 3.0);

    // Test large tether (approaching Moravec's 1/3 diameter case)
    let large_tether = Meters(num(1.05e6)); // ~1000 km (diameter ~2000 km ≈ 1/6 Earth diameter)
    let large_spin = val(momentum_exchange_spin_rate(&Fpu, large_tether, earth_radius).unwrap());
    assert!(large_spin > medium_spin);

    // Test Moravec reference case: tether diameter = 1/3 Earth diameter
    // Tether length = Earth diameter / 6 = Earth radius / 3
    let moravec_tether = Meters(num(val(earth_radius.0) / 3.0));
    let moravec_spin =
        val(momentum_exchange_spin_rate(&Fpu, moravec_tether, earth_radius).unwrap());
    assert!(close(moravec_spin, 6.0, 0.1));
}

#[test]
fn test_momentum_exchange_spin_rate_validation() {
    let earth_radius = Meters(num(6.371e6));

    // Test negative tether length
    assert!(momentum_exchange_spin_rate(&Fpu, Meters(num(-1000.0)), earth_radius).is_err());

    // Test zero tether length
    assert!(momentum_exchange_spin_rate(&Fpu, Meters(num(0.0)), earth_radius).is_err());

    // Test negative central body radius
    assert!(momentum_exchange_spin_rate(&Fpu, Meters(num(1000.0)), Meters(num(-1e6))).is_err());

    // Test zero central body radius
    assert!(momentum_exchange_spin_rate(&Fpu, Meters(num(1000.0)), Meters(num(0.0))).is_err());
}

#[test]
fn test_momentum_exchange_spin_rate_scaling() {
    let earth_radius = Meters(num(6.371e6));

    // Test that larger tethers always have higher spin rates
    let lengths = [
        Meters(num(50e3)),  // 50 km
        Meters(num(100e3)), // 100 km
        Meters(num(200e3)), // 200 km
        Meters(num(500e3)), // 500 km
    ];

    let mut prev_spin = 0.0;
    for length in &lengths {
        let spin = val(momentum_exchange_spin_rate(&Fpu, *length, earth_radius).unwrap());
        assert!(
            spin > prev_spin,
            "Spin rate should increase with tether length"
        );
        assert!(spin >= 1.0, "Spin rate should be at least 1x orbital rate");
        prev_spin = spin;
    }
}
