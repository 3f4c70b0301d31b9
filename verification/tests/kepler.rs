use almagest::arithmetic::Arithmetic;
use almagest::ieee::Real;
use almagest::kepler::{Ellipse, Point};
use almagest::utils::{Eccentricity, Meters};

/// IEEE-754 double arithmetic: the operators of `f64`, and libm for root
/// and power.
struct Fpu;

impl Arithmetic for Fpu {
    fn sum(&self, a: Real, b: Real) -> Real {
        num(val(a) + val(b))
    }

    fn difference(&self, a: Real, b: Real) -> Real {
        num(val(a) - val(b))
    }

    fn product(&self, a: Real, b: Real) -> Real {
        num(val(a) * val(b))
    }

    fn quotient(&self, a: Real, b: Real) -> Real {
        num(val(a) / val(b))
    }

    fn square_root(&self, a: Real) -> Real {
        num(libm::sqrt(val(a)))
    }

    fn power(&self, base: Real, exponent: Real) -> Real {
        num(libm::pow(val(base), val(exponent)))
    }
}

fn num(x: f64) -> Real {
    Real::from_bits(x.to_bits())
}

fn val(x: Real) -> f64 {
    f64::from_bits(x.to_bits())
}

/// Equal, or within `epsilon` of each other, or within one part in 2^52 of
/// the larger.
fn close(a: f64, b: f64, epsilon: f64) -> bool {
    if a == b {
        return true;
    }
    if a.is_infinite() || b.is_infinite() {
        return false;
    }
    let gap = (a - b).abs();
    gap <= epsilon || gap <= a.abs().max(b.abs()) * f64::EPSILON
}

fn origin() -> Point {
    Point {
        x: Meters(num(0.0)),
        y: Meters(num(0.0)),
    }
}

fn ellipse(e: f64, r_p: f64) -> Ellipse {
    Ellipse::new(Eccentricity::new(num(e)).unwrap(), origin(), Meters(num(r_p)))
}

#[test]
fn has_focus() {
    let f = Point {
        x: Meters(num(1.0)),
        y: Meters(num(1.0)),
    };
    let e = Ellipse::new(Eccentricity::new(num(1.0)).unwrap(), f, Meters(num(1.0)));
    assert_eq!(e.primary_focus(), f);
}

#[test]
fn calcs_semi_major_axis() {
    let f = Point {
        x: Meters(num(1.0)),
        y: Meters(num(1.0)),
    };
    let e = Ellipse::new(Eccentricity::new(num(0.5)).unwrap(), f, Meters(num(1.0)));
    let expected = Meters(num(2.0));
    assert_eq!(e.semi_major_axis(&Fpu), expected);
}

// Test case 1: Circle (e = 0)
#[test]
fn test_circle() {
    let ellipse = ellipse(0.0, 1000.0);

    // For a circle: r_p = r_a = a = b
    assert!(close(val(ellipse.semi_major_axis(&Fpu).0), 1000.0, 1e-10));
    assert!(close(val(ellipse.semi_minor_axis(&Fpu).0), 1000.0, 1e-10));
    assert!(close(val(ellipse.apoapsis(&Fpu).0), 1000.0, 1e-10));
    assert!(close(val(ellipse.focal_distance(&Fpu).0), 0.0, 1e-10));
}

// Test case 2: Earth's orbit (approximately)
#[test]
fn test_earth_orbit() {
    let e_val = 0.0167; // Earth's orbital eccentricity
    let r_p_val = 147_097_000_000.0; // Perihelion in meters

    let ellipse = ellipse(e_val, r_p_val);

    let expected_a = 149_595_240_516.6277;
    let expected_r_a = 152_093_481_033.25537;

    assert!(close(val(ellipse.semi_major_axis(&Fpu).0), expected_a, 1e-6));
    assert!(close(val(ellipse.apoapsis(&Fpu).0), expected_r_a, 1e-6));
}

// Test case 3: Highly eccentric orbit (comet-like)
#[test]
fn test_highly_eccentric_orbit() {
    let ellipse = ellipse(0.9, 1000.0);

    // For e = 0.9, r_p = 1000:
    // a = r_p / (1 - e) = 1000 / 0.1 = 10000
    // r_a = a(1 + e) = 10000 * 1.9 = 19000
    // b = a * sqrt(1 - e²) = 10000 * sqrt(0.19) ≈ 4358.9
    // c = a * e = 9000

    assert!(close(val(ellipse.semi_major_axis(&Fpu).0), 10000.0, 1e-10));
    assert!(close(val(ellipse.apoapsis(&Fpu).0), 19000.0, 1e-10));
    assert!(close(
        val(ellipse.semi_minor_axis(&Fpu).0),
        4358.898943540674,
        1e-6
    ));
    assert!(close(val(ellipse.focal_distance(&Fpu).0), 9000.0, 1e-6));
}

// Test case 4: Low Earth Orbit (ISS-like)
#[test]
fn test_low_earth_orbit() {
    let earth_radius = 6_371_000.0; // Earth radius in meters
    let ellipse = ellipse(0.0002, earth_radius + 408_000.0);

    // For nearly circular LEO
    let expected_a = (earth_radius + 408_000.0) / (1.0 - 0.0002);
    let expected_r_a = expected_a * (1.0 + 0.0002);

    assert!(close(val(ellipse.semi_major_axis(&Fpu).0), expected_a, 1.0));
    assert!(close(val(ellipse.apoapsis(&Fpu).0), expected_r_a, 1.0));
}

// Test case 5: Geostationary Transfer Orbit (GTO)
#[test]
fn test_geostationary_transfer_orbit() {
    let earth_radius = 6_371_000.0;
    let ellipse = ellipse(0.7308, earth_radius + 200_000.0);

    // Calculate expected values using orbital mechanics formulas
    let expected_a = val(ellipse.periapsis().0) / (1.0 - val(ellipse.eccentricity().value()));
    let expected_r_a = 2.0 * expected_a - val(ellipse.periapsis().0);

    assert!(close(val(ellipse.semi_major_axis(&Fpu).0), expected_a, 1e3));
    assert!(close(val(ellipse.apoapsis(&Fpu).0), expected_r_a, 1e5));
}

// Test case 6: Parabolic trajectory (e = 1.0)
#[test]
fn test_parabolic_trajectory() {
    let ellipse = ellipse(1.0, 1000.0);

    // For parabolic orbit: a approaches infinity, r_a approaches infinity
    // This is a degenerate case that might need special handling
    assert!(val(ellipse.semi_major_axis(&Fpu).0).is_infinite());
    assert!(val(ellipse.apoapsis(&Fpu).0).is_infinite());
}

// Test case 6b: Ellipse constructor from periapsis and apoapsis
#[test]
fn test_from_periapsis_apoapsis_constructor() {
    let r_p = Meters(num(6_571_000.0)); // Example: 200 km above Earth's surface
    let r_a = Meters(num(42_157_000.0)); // Example: geostationary altitude
    let f = origin();

    let ellipse = Ellipse::from_periapsis_apoapsis(&Fpu, r_p, r_a, f).unwrap();

    let expected_a = (val(r_p.0) + val(r_a.0)) / 2.0;
    let expected_e = (val(r_a.0) - val(r_p.0)) / (val(r_a.0) + val(r_p.0));

    assert!(close(val(ellipse.semi_major_axis(&Fpu).0), expected_a, 1e-6));
    assert!(close(val(ellipse.eccentricity().value()), expected_e, 1e-6));
    assert!(close(val(ellipse.apoapsis(&Fpu).0), val(r_a.0), 1e-6));
    assert!(close(val(ellipse.periapsis().0), val(r_p.0), 1e-6));
}

// Test case 7: Edge case - very small periapsis
#[test]
fn test_small_periapsis() {
    let ellipse = ellipse(0.5, 1.0); // 1 meter periapsis

    // a = r_p / (1 - e) = 1 / 0.5 = 2
    // r_a = a(1 + e) = 2 * 1.5 = 3
    assert!(close(val(ellipse.semi_major_axis(&Fpu).0), 2.0, 1e-10));
    assert!(close(val(ellipse.apoapsis(&Fpu).0), 3.0, 1e-10));
}

// Test case 8: Mathematical precision test
#[test]
fn test_mathematical_relationships() {
    let ellipse = ellipse(0.3, 7000.0);

    let a = val(ellipse.semi_major_axis(&Fpu).0);
    let b = val(ellipse.semi_minor_axis(&Fpu).0);
    let c = val(ellipse.focal_distance(&Fpu).0);
    let r_a = val(ellipse.apoapsis(&Fpu).0);
    let e = val(ellipse.eccentricity().value());

    // Test fundamental ellipse relationships
    assert!(close(c * c + b * b, a * a, 1e-6)); // c² + b² = a²
    assert!(close(c, a * e, 1e-10)); // c = ae
    assert!(close(val(ellipse.periapsis().0), a * (1.0 - e), 1e-10)); // r_p = a(1-e)
    assert!(close(r_a, a * (1.0 + e), 1e-10)); // r_a = a(1+e)
    assert!(close(b, a * (1.0 - e * e).sqrt(), 1e-10)); // b = a√(1-e²)
}

// Property-based test helper
#[test]
fn test_eccentricity_bounds() {
    // Test that calculations work for valid eccentricity range [0, 1)
    // First, for a circle:
    let circle = ellipse(0.0, 1000.0);

    // All calculated values should be positive and finite
    assert!(val(circle.semi_major_axis(&Fpu).0) > 0.0);
    assert!(val(circle.semi_major_axis(&Fpu).0).is_finite());
    assert!(val(circle.semi_minor_axis(&Fpu).0) > 0.0);
    assert!(val(circle.semi_minor_axis(&Fpu).0).is_finite());
    assert!(val(circle.apoapsis(&Fpu).0) == val(circle.periapsis().0));

    // Then, for the other ranges:
    for e_val in [0.1, 0.25, 0.5, 0.75, 0.9, 0.95, 0.99, 0.999] {
        let ellipse = ellipse(e_val, 1000.0);

        // All calculated values should be positive and finite
        assert!(val(ellipse.semi_major_axis(&Fpu).0) > 0.0);
        assert!(val(ellipse.semi_major_axis(&Fpu).0).is_finite());
        assert!(val(ellipse.semi_minor_axis(&Fpu).0) > 0.0);
        assert!(val(ellipse.semi_minor_axis(&Fpu).0).is_finite());
        assert!(val(ellipse.apoapsis(&Fpu).0) > val(ellipse.periapsis().0));

        if e_val < 1.0 {
            assert!(val(ellipse.apoapsis(&Fpu).0).is_finite());
        }
    }
}
