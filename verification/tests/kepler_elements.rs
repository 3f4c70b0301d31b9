use almagest::arithmetic::Arithmetic;
use almagest::error::InvalidInput;
use almagest::ieee::Real;
use almagest::kepler::{calc_2a, calc_2c, calc_ecc, Ellipse, Point};
use almagest::utils::{Eccentricity, Meters};

/// IEEE-754 double arithmetic: the operators of `f64`, and libm for root
/// and power.
struct Fpu;

impl Arithmetic for Fpu {
    fn sum(&self, a: Real, b: Real) -> Real {
        num(val(a) + val(b))
    }

    fn difference(&self, a: Real, b: Real) -> Real {
        num(val(a) - val(b))
    }

    fn product(&self, a: Real, b: Real) -> Real {
        num(val(a) * val(b))
    }

    fn quotient(&self, a: Real, b: Real) -> Real {
        num(val(a) / val(b))
    }

    fn square_root(&self, a: Real) -> Real {
        num(libm::sqrt(val(a)))
    }

    fn power(&self, base: Real, exponent: Real) -> Real {
        num(libm::pow(val(base), val(exponent)))
    }
}

fn num(x: f64) -> Real {
    Real::from_bits(x.to_bits())
}

fn val(x: Real) -> f64 {
    f64::from_bits(x.to_bits())
}

fn origin() -> Point {
    Point {
        x: Meters(num(0.0)),
        y: Meters(num(0.0)),
    }
}

fn ellipse(e: f64, r_p: f64) -> Ellipse {
    Ellipse::new(Eccentricity::new(num(e)).unwrap(), origin(), Meters(num(r_p)))
}

#[test]
fn an_ellipse_keeps_what_it_was_made_of() {
    let focus = Point {
        x: Meters(num(3.0)),
        y: Meters(num(-4.0)),
    };
    let e = Eccentricity::new(num(0.25)).unwrap();
    let made = Ellipse::new(e, focus, Meters(num(7000.0)));
    assert_eq!(made.eccentricity(), e);
    assert_eq!(made.primary_focus(), focus);
    assert_eq!(made.periapsis(), Meters(num(7000.0)));
    assert_eq!(made.periapsis().0.to_bits(), 7000.0f64.to_bits());
}

#[test]
fn derived_lengths_match_their_closed_forms_bit_for_bit() {
    for (e, r_p) in [(0.0, 1000.0), (0.0167, 147_097_000_000.0), (0.3, 7000.0), (0.9, 1000.0)] {
        let orbit = ellipse(e, r_p);
        let a = r_p / (1.0 - e);
        let b = a * libm::sqrt(1.0 - (e * e));
        assert_eq!(val(orbit.semi_major_axis(&Fpu).0).to_bits(), a.to_bits());
        assert_eq!(val(orbit.semi_minor_axis(&Fpu).0).to_bits(), b.to_bits());
        assert_eq!(val(orbit.apoapsis(&Fpu).0).to_bits(), (a * (1.0 + e)).to_bits());
        assert_eq!(val(orbit.focal_distance(&Fpu).0).to_bits(), (e * a).to_bits());
        assert_eq!(val(orbit.flattening(&Fpu)).to_bits(), ((a - b) / a).to_bits());
    }
}

#[test]
fn a_circle_is_not_flattened_and_a_3_4_5_ellipse_by_a_fifth() {
    assert_eq!(val(ellipse(0.0, 1000.0).flattening(&Fpu)), 0.0);
    // e = 0.6 gives b = 0.8 a.
    let f = val(ellipse(0.6, 1000.0).flattening(&Fpu));
    assert!((f - 0.2).abs() < 1e-15, "{f}");
}

#[test]
fn focal_distance_and_semi_minor_axis_span_the_semi_major_axis() {
    for e in [0.0, 0.1, 0.25, 0.5, 0.75, 0.9, 0.99] {
        let orbit = ellipse(e, 6_771_000.0);
        let a = val(orbit.semi_major_axis(&Fpu).0);
        let b = val(orbit.semi_minor_axis(&Fpu).0);
        let c = val(orbit.focal_distance(&Fpu).0);
        let gap = (c * c + b * b - a * a).abs();
        assert!(gap <= 1e-6 * a * a, "e = {e}: off by {gap}");
    }
}

#[test]
fn from_periapsis_and_apoapsis_and_back() {
    for (r_p, r_a) in [(6_571_000.0, 42_157_000.0), (1.0, 3.0), (7000.0, 7000.0), (1.0, 1e9)] {
        let orbit =
            Ellipse::from_periapsis_apoapsis(&Fpu, Meters(num(r_p)), Meters(num(r_a)), origin())
                .unwrap();
        assert_eq!(val(orbit.periapsis().0), r_p);
        let back = val(orbit.apoapsis(&Fpu).0);
        assert!((back - r_a).abs() <= 1e-6 * r_a, "{r_p} {r_a}: {back}");
        let e = val(orbit.eccentricity().value());
        assert_eq!(e.to_bits(), ((r_a - r_p) / (r_a + r_p)).to_bits());
    }
}

#[test]
fn an_apoapsis_inside_the_periapsis_is_refused() {
    let refused =
        Ellipse::from_periapsis_apoapsis(&Fpu, Meters(num(3.0)), Meters(num(1.0)), origin());
    assert_eq!(refused.err(), Some(InvalidInput::EccentricityNegative));
    // Equal distances make a circle; no distances at all make nothing.
    let circle =
        Ellipse::from_periapsis_apoapsis(&Fpu, Meters(num(2.0)), Meters(num(2.0)), origin());
    assert_eq!(val(circle.unwrap().eccentricity().value()), 0.0);
    let undefined =
        Ellipse::from_periapsis_apoapsis(&Fpu, Meters(num(0.0)), Meters(num(0.0)), origin());
    assert_eq!(undefined.err(), Some(InvalidInput::EccentricityNegative));
}

#[test]
fn focal_radii_give_the_axes() {
    let (near, far) = (Meters(num(2.0)), Meters(num(8.0)));
    assert_eq!(val(calc_2a(&Fpu, near, far).0), 10.0);
    assert_eq!(val(calc_2a(&Fpu, far, near).0), 10.0);
    assert_eq!(val(calc_2c(&Fpu, near, far).0), 6.0);
    assert_eq!(val(calc_2c(&Fpu, far, near).0), 6.0);
    assert_eq!(val(calc_2c(&Fpu, near, near).0), 0.0);
    assert!(val(calc_2c(&Fpu, Meters(num(f64::NAN)), near).0).is_nan());
}

#[test]
fn focal_radii_give_the_eccentricity() {
    let e = calc_ecc(&Fpu, Meters(num(2.0)), Meters(num(8.0))).unwrap();
    assert_eq!(val(e.value()), 0.6);
    let same = calc_ecc(&Fpu, Meters(num(8.0)), Meters(num(2.0))).unwrap();
    assert_eq!(val(same.value()), 0.6);
    let circle = calc_ecc(&Fpu, Meters(num(5.0)), Meters(num(5.0))).unwrap();
    assert_eq!(val(circle.value()), 0.0);
    // Radii that sum to less than nothing give a negative quotient.
    let refused = calc_ecc(&Fpu, Meters(num(-2.0)), Meters(num(-8.0)));
    assert_eq!(refused.err(), Some(InvalidInput::EccentricityNegative));
}

#[test]
fn eccentricity_lets_through_all_that_is_at_least_zero() {
    assert_eq!(Eccentricity::new(num(-0.0)).unwrap().value().to_bits(), (-0.0f64).to_bits());
    assert_eq!(val(Eccentricity::new(num(2.5)).unwrap().value()), 2.5);
    assert!(val(Eccentricity::new(num(f64::INFINITY)).unwrap().value()).is_infinite());
    assert_eq!(Eccentricity::new(num(f64::NAN)), Err(InvalidInput::EccentricityNegative));
    assert_eq!(Eccentricity::new(num(-f64::NAN)), Err(InvalidInput::EccentricityNegative));
    assert_eq!(Eccentricity::new(num(-5e-324)), Err(InvalidInput::EccentricityNegative));
    assert_eq!(
        Eccentricity::new(num(f64::NEG_INFINITY)),
        Err(InvalidInput::EccentricityNegative)
    );
    assert_eq!(InvalidInput::EccentricityNegative.reason(), "value must be non-negative");
}

#[test]
fn a_focal_eccentricity_that_is_no_number_is_refused() {
    // No radii at all: nothing over nothing.
    let nothing = calc_ecc(&Fpu, Meters(num(0.0)), Meters(num(0.0)));
    assert_eq!(nothing.err(), Some(InvalidInput::EccentricityNegative));
    let undefined = calc_ecc(&Fpu, Meters(num(f64::NAN)), Meters(num(8.0)));
    assert_eq!(undefined.err(), Some(InvalidInput::EccentricityNegative));
}
