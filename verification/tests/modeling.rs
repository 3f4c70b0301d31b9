use almagest::arithmetic::Arithmetic;
use almagest::ieee::Real;
use almagest::materials::fibers::kevlar_49;
use almagest::modeling::{Moon, Payload, Tether};
use almagest::utils::{Kilograms, Kilometers, MetersPerSecond};

/// IEEE-754 double arithmetic: the operators of `f64`, and libm for root
/// and power.
struct Fpu;

impl Arithmetic for Fpu {
    fn sum(&self, a: Real, b: Real) -> Real {
        num(val(a) + val(b))
    }

    fn difference(&self, a: Real, b: Real) -> Real {
        num(val(a) - val(b))
    }

    fn product(&self, a: Real, b: Real) -> Real {
        num(val(a) * val(b))
    }

    fn quotient(&self, a: Real, b: Real) -> Real {
        num(val(a) / val(b))
    }

    fn square_root(&self, a: Real) -> Real {
        num(libm::sqrt(val(a)))
    }

    fn power(&self, base: Real, exponent: Real) -> Real {
        num(libm::pow(val(base), val(exponent)))
    }
}

fn num(x: f64) -> Real {
    Real::from_bits(x.to_bits())
}

fn val(x: Real) -> f64 {
    f64::from_bits(x.to_bits())
}

#[test]
fn it_works() {
    let t = Tether::new(
        Kilometers(num(100.0)),
        Kilometers(num(95.0)),
        Kilograms(num(100.0)),
        kevlar_49(),
        MetersPerSecond(num(7_000.0)),
    );
    assert_eq!(t.length, Kilometers(num(95.0)));
    assert_eq!(t.rotational_velocity, MetersPerSecond(num(7_000.0)));
}

/// Test basic momentum conservation: impulse should increase with rotational velocity
#[test]
fn impulse_increases_with_rotational_velocity() {
    let moon = Moon::default();
    let payload = Payload::new(Kilograms(num(1000.0)), MetersPerSecond(num(0.0)));

    let tether_slow = Tether::new(
        Kilometers(num(100.0)),
        Kilometers(num(100.0)),
        Kilograms(num(10_000.0)),
        kevlar_49(),
        MetersPerSecond(num(500.0)),
    );

    let tether_fast = Tether::new(
        Kilometers(num(100.0)),
        Kilometers(num(100.0)),
        Kilograms(num(10_000.0)),
        kevlar_49(),
        MetersPerSecond(num(1500.0)),
    );

    let impulse_slow = val(tether_slow.calc_impulse(&Fpu, payload, moon).0);
    let impulse_fast = val(tether_fast.calc_impulse(&Fpu, payload, moon).0);

    assert!(
        impulse_fast > impulse_slow,
        "Higher rotational velocity should produce greater impulse"
    );
}

/// Test mass ratio effect: heavier tether should transfer more momentum
#[test]
fn heavier_tether_increases_efficiency() {
    let moon = Moon::default();
    let payload = Payload::new(Kilograms(num(1000.0)), MetersPerSecond(num(0.0)));

    let tether_light = Tether::new(
        Kilometers(num(100.0)),
        Kilometers(num(100.0)),
        Kilograms(num(5_000.0)),
        kevlar_49(),
        MetersPerSecond(num(1000.0)),
    );

    let tether_heavy = Tether::new(
        Kilometers(num(100.0)),
        Kilometers(num(100.0)),
        Kilograms(num(50_000.0)),
        kevlar_49(),
        MetersPerSecond(num(1000.0)),
    );

    let impulse_light = val(tether_light.calc_impulse(&Fpu, payload, moon).0);
    let impulse_heavy = val(tether_heavy.calc_impulse(&Fpu, payload, moon).0);

    assert!(
        impulse_heavy > impulse_light,
        "Heavier tether should transfer momentum more efficiently"
    );
}

/// Test with realistic lunar tether parameters from Moravec (1977)
/// Reference: "A Non-Synchronous Orbital Skyhook" by Hans Moravec
/// Typical lunar tether: 100km altitude, 100km length, rotating at ~1.6 km/s tip speed
#[test]
fn moravec_lunar_tether_scenario() {
    let moon = Moon::default();
    // Small payload (e.g., sample return capsule)
    let payload = Payload::new(Kilograms(num(500.0)), MetersPerSecond(num(0.0)));

    // Realistic lunar tether parameters
    let tether = Tether::new(
        Kilometers(num(100.0)),   // Low lunar orbit
        Kilometers(num(100.0)),   // 100km total length
        Kilograms(num(20_000.0)), // ~20 ton tether
        kevlar_49(),
        MetersPerSecond(num(1600.0)), // 1.6 km/s tip velocity
    );

    let impulse = val(tether.calc_impulse(&Fpu, payload, moon).0);

    // Expected delta-v should be substantial but not exceed rotational velocity
    // With mass ratio of 40:1, efficiency should be ~0.976
    // Expected impulse ~1.5-1.6 km/s range
    assert!(
        impulse > 1400.0 && impulse < 1700.0,
        "Moravec-style tether should provide ~1.5 km/s impulse, got {} m/s",
        impulse
    );
}

/// Test escape velocity scenario
/// Lunar escape velocity from low orbit: ~2.4 km/s
/// Test if aggressive tether can provide sufficient delta-v
#[test]
fn lunar_escape_capability() {
    let moon = Moon::default();
    let payload = Payload::new(Kilograms(num(1000.0)), MetersPerSecond(num(0.0)));

    // Aggressive tether design for escape missions
    let tether = Tether::new(
        Kilometers(num(100.0)),
        Kilometers(num(150.0)),    // Longer tether
        Kilograms(num(100_000.0)), // Heavy tether for efficiency
        kevlar_49(),
        MetersPerSecond(num(2500.0)), // High tip speed
    );

    let impulse = val(tether.calc_impulse(&Fpu, payload, moon).0);

    // Should provide enough delta-v to contribute significantly to escape
    // (escape from 100km lunar orbit requires ~2.2 km/s additional delta-v)
    assert!(
        impulse > 2000.0,
        "High-performance tether should provide >2 km/s for escape missions, got {} m/s",
        impulse
    );
}

/// Test efficiency limits with very light payload
/// Should approach full rotational velocity transfer
#[test]
fn light_payload_high_efficiency() {
    let moon = Moon::default();
    // Very light payload relative to tether
    let payload = Payload::new(Kilograms(num(10.0)), MetersPerSecond(num(0.0)));

    let tether = Tether::new(
        Kilometers(num(100.0)),
        Kilometers(num(100.0)),
        Kilograms(num(50_000.0)), // 5000:1 mass ratio
        kevlar_49(),
        MetersPerSecond(num(1000.0)),
    );

    let impulse = val(tether.calc_impulse(&Fpu, payload, moon).0);

    // With 5000:1 mass ratio, efficiency = 5000/(1+5000) = 0.9998
    // The rotational component should be ~999.8 m/s
    // Total impulse includes orbital velocity differences too
    // We should get at least 97% of rotational velocity in the impulse
    assert!(
        impulse > 970.0,
        "Light payload should achieve high momentum transfer, got {} m/s",
        impulse
    );
}

/// Test with heavy payload (low efficiency)
#[test]
fn heavy_payload_reduced_efficiency() {
    let moon = Moon::default();
    // Heavy payload equal to tether mass
    let payload = Payload::new(Kilograms(num(10_000.0)), MetersPerSecond(num(0.0)));

    let tether = Tether::new(
        Kilometers(num(100.0)),
        Kilometers(num(100.0)),
        Kilograms(num(10_000.0)), // 1:1 mass ratio
        kevlar_49(),
        MetersPerSecond(num(1000.0)),
    );

    let impulse = val(tether.calc_impulse(&Fpu, payload, moon).0);

    // With 1:1 mass ratio, efficiency should be ~0.5
    // Impulse should be roughly half the rotational velocity
    let efficiency = impulse / 1000.0;
    assert!(
        efficiency > 0.45 && efficiency < 0.55,
        "Equal mass payload should have ~50% efficiency, got {:.4}",
        efficiency
    );
}

/// Test altitude effect: higher orbits have lower orbital velocities
#[test]
fn altitude_affects_baseline_velocity() {
    let moon = Moon::default();
    let payload = Payload::new(Kilograms(num(1000.0)), MetersPerSecond(num(0.0)));

    let tether_low = Tether::new(
        Kilometers(num(50.0)), // Lower orbit (faster)
        Kilometers(num(100.0)),
        Kilograms(num(20_000.0)),
        kevlar_49(),
        MetersPerSecond(num(1000.0)),
    );

    let tether_high = Tether::new(
        Kilometers(num(500.0)), // Higher orbit (slower)
        Kilometers(num(100.0)),
        Kilograms(num(20_000.0)),
        kevlar_49(),
        MetersPerSecond(num(1000.0)),
    );

    let impulse_low = val(tether_low.calc_impulse(&Fpu, payload, moon).0);
    let impulse_high = val(tether_high.calc_impulse(&Fpu, payload, moon).0);

    // Both should provide similar rotational boost, but measured from different
    // orbital velocity baselines. The delta-v should be similar since it's
    // primarily determined by rotational velocity and mass ratio.
    let difference = (impulse_low - impulse_high).abs();
    assert!(
        difference < 100.0,
        "Altitude should have minimal effect on rotational impulse transfer (difference: {} m/s)",
        difference
    );
}

/// Validate against published tether exchange ratios
/// Hoyt & Forward (2000): "Mass ratio of 100:1 provides ~99% efficiency"
#[test]
fn validate_hoyt_forward_efficiency() {
    let moon = Moon::default();
    let payload = Payload::new(Kilograms(num(100.0)), MetersPerSecond(num(0.0)));

    let tether_light = Tether::new(
        Kilometers(num(100.0)),
        Kilometers(num(100.0)),
        Kilograms(num(1_000.0)), // 10:1 mass ratio
        kevlar_49(),
        MetersPerSecond(num(1500.0)),
    );

    let tether_heavy = Tether::new(
        Kilometers(num(100.0)),
        Kilometers(num(100.0)),
        Kilograms(num(10_000.0)), // 100:1 mass ratio
        kevlar_49(),
        MetersPerSecond(num(1500.0)),
    );

    let impulse_light = val(tether_light.calc_impulse(&Fpu, payload, moon).0);
    let impulse_heavy = val(tether_heavy.calc_impulse(&Fpu, payload, moon).0);

    // With 100:1 mass ratio, efficiency = 100/101 = 0.9901 (99.01%)
    // With 10:1 mass ratio, efficiency = 10/11 = 0.9091 (90.91%)
    // The heavier tether should provide noticeably more impulse
    let improvement = (impulse_heavy - impulse_light) / impulse_light;
    assert!(
        improvement > 0.05,
        "100:1 mass ratio should provide significantly more impulse than 10:1 (improvement: {:.1}%)",
        improvement * 100.0
    );

    // Total impulse should be at least 97% of rotational velocity for 100:1 ratio
    assert!(
        impulse_heavy > 1455.0,
        "100:1 ratio should yield high efficiency, got {} m/s",
        impulse_heavy
    );
}
