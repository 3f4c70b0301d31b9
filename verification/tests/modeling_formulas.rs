use almagest::arithmetic::Arithmetic;
use almagest::ieee::Real;
use almagest::materials::fibers::kevlar_49;
use almagest::modeling::{
    Moon, Payload, Tether, GRAVITATIONAL_CONSTANT_BITS, TAPER_RATIO_BITS,
};
use almagest::utils::{Kilograms, Kilometers, MetersPerSecond, MetersPerSecondSquared};

/// IEEE-754 double arithmetic: the operators of `f64`, and libm for root
/// and power.
struct Fpu;

impl Arithmetic for Fpu {
    fn sum(&self, a: Real, b: Real) -> Real {
        num(val(a) + val(b))
    }

    fn difference(&self, a: Real, b: Real) -> Real {
        num(val(a) - val(b))
    }

    fn product(&self, a: Real, b: Real) -> Real {
        num(val(a) * val(b))
    }

    fn quotient(&self, a: Real, b: Real) -> Real {
        num(val(a) / val(b))
    }

    fn square_root(&self, a: Real) -> Real {
        num(libm::sqrt(val(a)))
    }

    fn power(&self, base: Real, exponent: Real) -> Real {
        num(libm::pow(val(base), val(exponent)))
    }
}

fn num(x: f64) -> Real {
    Real::from_bits(x.to_bits())
}

fn val(x: Real) -> f64 {
    f64::from_bits(x.to_bits())
}

fn tether() -> Tether {
    Tether::new(
        Kilometers(num(100.0)),
        Kilometers(num(95.0)),
        Kilograms(num(20_000.0)),
        kevlar_49(),
        MetersPerSecond(num(1_600.0)),
    )
}

#[test]
fn the_moon_of_the_model() {
    for moon in [Moon::new(), Moon::default()] {
        assert_eq!(val(moon.mass.0), 7.348e22);
        assert_eq!(val(moon.radius.0), 1_737.5);
        assert_eq!(val(moon.gravity.0), 1.625);
    }
    assert_eq!(TAPER_RATIO_BITS, 1.124f64.to_bits());
    assert_eq!(GRAVITATIONAL_CONSTANT_BITS, 6.67430e-11f64.to_bits());
}

#[test]
fn a_tether_and_a_payload_keep_what_they_were_made_of() {
    let t = tether();
    assert_eq!(t.altitude, Kilometers(num(100.0)));
    assert_eq!(t.length, Kilometers(num(95.0)));
    assert_eq!(t.mass, Kilograms(num(20_000.0)));
    assert_eq!(t.material, kevlar_49());
    assert_eq!(t.rotational_velocity, MetersPerSecond(num(1_600.0)));
    let p = Payload::new(Kilograms(num(500.0)), MetersPerSecond(num(12.0)));
    assert_eq!(val(p.mass.0), 500.0);
    assert_eq!(val(p.velocity.0), 12.0);
}

#[test]
fn max_load_follows_its_formula() {
    let len: f64 = 95.0 * 1000.0;
    let average = (20_000.0 / (len * 1440.0)) * 10_000.0;
    let thinnest = average / 2.0;
    let want: f64 = (3.6e9 * (thinnest * 1e-4)) * 1.625;
    let got = tether().max_load(&Fpu, MetersPerSecondSquared(num(1.625)));
    assert_eq!(val(got.0).to_bits(), want.to_bits());
    let ratio = tether().mass_ratio(&Fpu, Moon::new());
    assert_eq!(val(ratio).to_bits(), (20_000.0 / want).to_bits());
}

#[test]
fn characteristic_length_follows_its_formula() {
    let got = tether().characteristic_length(&Fpu, Moon::new());
    assert_eq!(val(got.0).to_bits(), (3.6e9f64 / (1440.0 * 1.625)).to_bits());
}

#[test]
fn impulse_follows_its_formula() {
    let (altitude, length, mass, spin): (f64, f64, f64, f64) = (100.0, 95.0, 20_000.0, 1_600.0);
    let payload_mass: f64 = 500.0;
    let orbit_radius = (1_737.5 + altitude) * 1000.0;
    let mu = 7.348e22 * 6.67430e-11;
    let v_center = libm::sqrt(mu / orbit_radius);
    let tip_radius = orbit_radius + (length * 1000.0) / 2.0;
    let v_tip = libm::sqrt(mu / tip_radius);
    let mass_ratio = mass / payload_mass;
    let transfer = mass_ratio / (1.0 + mass_ratio);
    let want = (v_tip + spin * transfer) - v_center;
    let payload = Payload::new(Kilograms(num(payload_mass)), MetersPerSecond(num(0.0)));
    let got = tether().calc_impulse(&Fpu, payload, Moon::new());
    assert_eq!(val(got.0).to_bits(), want.to_bits());
}
