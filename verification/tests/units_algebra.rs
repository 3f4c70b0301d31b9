use almagest::arithmetic::Arithmetic;
use almagest::ieee::Real;
use almagest::utils::{
    CentimetersSquared, KilogramsPerMetersCubed, Kilometers, Meters, MetersPerSecond,
    MetersSquared, Pascals, RadiansPerSecond, Seconds, E_BITS, G_BITS, PI_BITS, TAU_BITS,
    TEN_THOUSANDTH_BITS, TEN_THOUSAND_BITS, THOUSAND_BITS,
};

/// IEEE-754 double arithmetic: the operators of `f64`, and libm for root
/// and power.
struct Fpu;

impl Arithmetic for Fpu {
    fn sum(&self, a: Real, b: Real) -> Real {
        num(val(a) + val(b))
    }

    fn difference(&self, a: Real, b: Real) -> Real {
        num(val(a) - val(b))
    }

    fn product(&self, a: Real, b: Real) -> Real {
        num(val(a) * val(b))
    }

    fn quotient(&self, a: Real, b: Real) -> Real {
        num(val(a) / val(b))
    }

    fn square_root(&self, a: Real) -> Real {
        num(libm::sqrt(val(a)))
    }

    fn power(&self, base: Real, exponent: Real) -> Real {
        num(libm::pow(val(base), val(exponent)))
    }
}

fn num(x: f64) -> Real {
    Real::from_bits(x.to_bits())
}

fn val(x: Real) -> f64 {
    f64::from_bits(x.to_bits())
}

#[test]
fn each_operation_is_one_operation_of_the_arithmetic() {
    let (x, y) = (1234.567, 0.000891);
    let (a, b) = (Meters(num(x)), Meters(num(y)));
    assert_eq!(val(a.add(&Fpu, b).0).to_bits(), (x + y).to_bits());
    assert_eq!(val(a.sub(&Fpu, b).0).to_bits(), (x - y).to_bits());
    assert_eq!(val(a.div(&Fpu, b)).to_bits(), (x / y).to_bits());
    assert_eq!(val(a.mul(&Fpu, b).0).to_bits(), (x * y).to_bits());
    assert_eq!(val(a.mul_scalar(&Fpu, num(y)).0).to_bits(), (x * y).to_bits());
    assert_eq!(val(Meters::scalar_mul(&Fpu, num(y), a).0).to_bits(), (y * x).to_bits());
    assert_eq!(val(a.div_scalar(&Fpu, num(y)).0).to_bits(), (x / y).to_bits());
    assert_eq!(val(a.mul_area(&Fpu, MetersSquared(num(y))).0).to_bits(), (x * y).to_bits());

    let (s, t) = (MetersSquared(num(x)), MetersSquared(num(y)));
    assert_eq!(val(s.add(&Fpu, t).0).to_bits(), (x + y).to_bits());
    assert_eq!(val(s.sub(&Fpu, t).0).to_bits(), (x - y).to_bits());
    assert_eq!(val(s.mul_scalar(&Fpu, num(y)).0).to_bits(), (x * y).to_bits());
    assert_eq!(val(s.div_scalar(&Fpu, num(y)).0).to_bits(), (x / y).to_bits());
    assert_eq!(val(s.div(&Fpu, b).0).to_bits(), (x / y).to_bits());

    let (k, l) = (Kilometers(num(x)), Kilometers(num(y)));
    assert_eq!(val(k.add(&Fpu, l).0).to_bits(), (x + y).to_bits());
}

#[test]
fn subtraction_and_division_keep_their_order() {
    let (a, b) = (Meters(num(10.0)), Meters(num(4.0)));
    assert_eq!(val(a.sub(&Fpu, b).0), 6.0);
    assert_eq!(val(b.sub(&Fpu, a).0), -6.0);
    assert_eq!(val(a.div(&Fpu, b)), 2.5);
    assert_eq!(val(b.div(&Fpu, a)), 0.4);
    assert_eq!(val(MetersSquared(num(10.0)).div(&Fpu, b).0), 2.5);
}

#[test]
fn pressure_over_density_and_pressure_scaled() {
    let strength = Pascals(num(5.9e9));
    let density = KilogramsPerMetersCubed(num(1340.0));
    let per_density: MetersPerSecond = strength.div(&Fpu, density);
    assert_eq!(val(per_density.value()).to_bits(), (5.9e9f64 / 1340.0).to_bits());
    assert_eq!(val(strength.mul_scalar(&Fpu, num(2.0)).value()), 11.8e9);
    assert_eq!(val(strength.to_newtons_per_meters_squared().0), 5.9e9);
}

#[test]
fn lengths_convert_by_a_thousand() {
    assert_eq!(val(Meters::from_kilometers(&Fpu, Kilometers(num(1.5))).0), 1500.0);
    assert_eq!(val(Kilometers::from_meters(&Fpu, Meters(num(1500.0))).0), 1.5);
    for x in [0.0, 1.0, 408.0, 6371.0, 1737.48, 384_400.0, 149_597_870.7] {
        let there = Meters::from_kilometers(&Fpu, Kilometers(num(x)));
        let back = val(Kilometers::from_meters(&Fpu, there).0);
        assert!((back - x).abs() <= x * f64::EPSILON, "{x} came back as {back}");
    }
}

#[test]
fn areas_convert_by_ten_thousand() {
    let cm2 = CentimetersSquared::from_meters_squared(&Fpu, MetersSquared(num(2.5)));
    assert_eq!(val(cm2.value()), 25_000.0);
    let m2 = MetersSquared::from_centimeters_squared(&Fpu, CentimetersSquared(num(25_000.0)));
    assert_eq!(val(m2.value()).to_bits(), (25_000.0f64 * 1e-4).to_bits());
    assert!((val(m2.value()) - 2.5).abs() < 1e-15);
}

#[test]
fn constants_are_the_doubles_nearest_to_what_they_name() {
    assert_eq!(PI_BITS, std::f64::consts::PI.to_bits());
    assert_eq!(TAU_BITS, std::f64::consts::TAU.to_bits());
    assert_eq!(E_BITS, std::f64::consts::E.to_bits());
    assert_eq!(G_BITS, 6.6742e-11f64.to_bits());
    assert_eq!(THOUSAND_BITS, 1_000.0f64.to_bits());
    assert_eq!(TEN_THOUSAND_BITS, 10_000.0f64.to_bits());
    assert_eq!(TEN_THOUSANDTH_BITS, 1e-4f64.to_bits());
}

#[test]
fn every_accessor_gives_the_number_wrapped() {
    assert_eq!(val(MetersPerSecond(num(7_800.0)).value()), 7_800.0);
    assert_eq!(val(Seconds(num(5_400.0)).value()), 5_400.0);
    assert_eq!(val(RadiansPerSecond(num(7.2921e-5)).value()), 7.2921e-5);
    assert_eq!(val(Pascals(num(400e6)).value()), 400e6);
    assert_eq!(val(Kilometers(num(6_371.0)).value()), 6_371.0);
    assert_eq!(val(CentimetersSquared(num(12.5)).value()), 12.5);
    assert_eq!(Meters::zero().value().to_bits(), 0);
}

#[test]
fn quantities_compare_as_their_numbers_do() {
    let nan = Meters(num(f64::NAN));
    assert!(nan != nan);
    assert!(!(nan < Meters(num(1.0))) && !(nan >= Meters(num(1.0))));
    assert_eq!(Meters(num(0.0)), Meters(num(-0.0)));
    assert!(Pascals(num(-1.0)) < Pascals(num(0.0)));
    assert!(Seconds(num(f64::INFINITY)) > Seconds(num(f64::MAX)));
}
