//! Physical quantities, each tagged with its dimension by its type.
//!
//! A quantity wraps one [`Real`]. Quantities of different dimensions are
//! different types, and the only ways to combine them are the methods
//! below: sums and differences within one dimension, scaling by a plain
//! number, the ratio of two lengths, length by length to area, length by
//! area to volume, area over length to length, and pressure over density.
//! A combination that is not listed cannot be written. Each method
//! performs one operation of the arithmetic handed to it and examines
//! neither its operands nor its result.
//!
//! Quantities of one dimension compare as their numbers do.

use vstd::arithmetic::power2::{lemma2_to64, lemma2_to64_rest, lemma_pow2_adds};
use vstd::prelude::*;

use crate::arithmetic::{
    difference, evaluates, product, quotient, sum, value, Arithmetic, Term,
};
use crate::error::InvalidInput;
use crate::ieee::{Real, ZERO_BITS};
use crate::ieee_lemmas::{lemma_denotes_integer, lemma_lies_between};

verus! {

/// Pattern of 1000, the number of meters in a kilometer.
pub const THOUSAND_BITS: u64 = 0x408f_4000_0000_0000;

/// Pattern of 10 000, the number of square centimeters in a square meter.
pub const TEN_THOUSAND_BITS: u64 = 0x40c3_8800_0000_0000;

/// Pattern of the double nearest to 0.0001, the number of square meters
/// in a square centimeter.
pub const TEN_THOUSANDTH_BITS: u64 = 0x3f1a_36e2_eb1c_432d;

/// Pattern of the double nearest to pi.
pub const PI_BITS: u64 = 0x4009_21fb_5444_2d18;

/// Pattern of the double nearest to 2 pi, the full circle.
pub const TAU_BITS: u64 = 0x4019_21fb_5444_2d18;

/// Pattern of the double nearest to Euler's number.
pub const E_BITS: u64 = 0x4005_bf0a_8b14_5769;

/// Pattern of the double nearest to 6.6742e-11, the gravitational constant
/// in m^3/(kg s^2).
pub const G_BITS: u64 = 0x3dd2_588c_fc3d_ebe5;

/// 1000.
pub open spec fn thousand() -> Real {
    Real { bits: THOUSAND_BITS }
}

/// 10 000.
pub open spec fn ten_thousand() -> Real {
    Real { bits: TEN_THOUSAND_BITS }
}

/// 0.0001, to the nearest double.
pub open spec fn ten_thousandth() -> Real {
    Real { bits: TEN_THOUSANDTH_BITS }
}

/// Pi, to the nearest double.
pub open spec fn pi() -> Real {
    Real { bits: PI_BITS }
}

/// 2 pi, to the nearest double.
pub open spec fn tau() -> Real {
    Real { bits: TAU_BITS }
}

/// Euler's number, to the nearest double.
pub open spec fn euler() -> Real {
    Real { bits: E_BITS }
}

/// The gravitational constant, 6.6742e-11 to the nearest double.
pub open spec fn gravitational_constant() -> Real {
    Real { bits: G_BITS }
}

/// The named constants are what their names say: 1000 and 10 000 exactly,
/// the others to fifteen or sixteen significant digits.
pub proof fn lemma_constants()
    ensures
        thousand().denotes(1000),
        ten_thousand().denotes(10_000),
        ten_thousandth().lies_between(
            10_000_000_000_000_000,
            10_000_000_000_000_001,
            100_000_000_000_000_000_000,
        ),
        pi().lies_between(3_141_592_653_589_793, 3_141_592_653_589_794, 1_000_000_000_000_000),
        tau().lies_between(6_283_185_307_179_586, 6_283_185_307_179_587, 1_000_000_000_000_000),
        euler().lies_between(2_718_281_828_459_045, 2_718_281_828_459_046, 1_000_000_000_000_000),
        gravitational_constant().lies_between(
            6_674_199_999_999_999,
            6_674_200_000_000_000,
            100_000_000_000_000_000_000_000_000,
        ),
{
    lemma2_to64();
    lemma2_to64_rest();
    lemma_pow2_adds(64, 2);
    lemma_pow2_adds(64, 22);
    lemma_denotes_integer(thousand(), 1000, 43);
    lemma_denotes_integer(ten_thousand(), 10_000, 39);
    lemma_lies_between(
        ten_thousandth(),
        10_000_000_000_000_000,
        10_000_000_000_000_001,
        100_000_000_000_000_000_000,
        66,
    );
    lemma_lies_between(
        pi(),
        3_141_592_653_589_793,
        3_141_592_653_589_794,
        1_000_000_000_000_000,
        51,
    );
    lemma_lies_between(
        tau(),
        6_283_185_307_179_586,
        6_283_185_307_179_587,
        1_000_000_000_000_000,
        50,
    );
    lemma_lies_between(
        euler(),
        2_718_281_828_459_045,
        2_718_281_828_459_046,
        1_000_000_000_000_000,
        51,
    );
    lemma_lies_between(
        gravitational_constant(),
        6_674_199_999_999_999,
        6_674_200_000_000_000,
        100_000_000_000_000_000_000_000_000,
        86,
    );
}

/// Length in centimeters.
#[derive(Copy, Clone, Debug, PartialEq, PartialOrd)]
pub struct Centimeters(pub Real);

/// Length in meters: distances, radii, altitudes.
#[derive(Copy, Clone, Debug, PartialEq, PartialOrd)]
pub struct Meters(pub Real);

/// Length in kilometers.
#[derive(Copy, Clone, Debug, PartialEq, PartialOrd)]
pub struct Kilometers(pub Real);

/// Area in square centimeters.
#[derive(Copy, Clone, Debug, PartialEq, PartialOrd)]
pub struct CentimetersSquared(pub Real);

/// Area in square meters.
#[derive(Copy, Clone, Debug, PartialEq, PartialOrd)]
pub struct MetersSquared(pub Real);

/// Volume in cubic meters.
#[derive(Copy, Clone, Debug, PartialEq, PartialOrd)]
pub struct MetersCubed(pub Real);

/// Pressure or stress in pascals.
#[derive(Copy, Clone, Debug, PartialEq, PartialOrd)]
pub struct Pascals(pub Real);

/// Force per area in newtons per square meter, the pascal by another name.
#[derive(Copy, Clone, Debug, PartialEq, PartialOrd)]
pub struct NewtonsPerMetersSquared(pub Real);

/// Mass in kilograms.
#[derive(Copy, Clone, Debug, PartialEq, PartialOrd)]
pub struct Kilograms(pub Real);

/// Density in kilograms per cubic meter.
#[derive(Copy, Clone, Debug, PartialEq, PartialOrd)]
pub struct KilogramsPerMetersCubed(pub Real);

/// Gravitational parameter in m^3/(kg s^2).
#[derive(Copy, Clone, Debug, PartialEq, PartialOrd)]
pub struct MetersCubedByKilogramSecondsSquared(pub Real);

/// Velocity in meters per second.
#[derive(Copy, Clone, Debug, PartialEq, PartialOrd)]
pub struct MetersPerSecond(pub Real);

/// Acceleration in meters per second squared.
#[derive(Copy, Clone, Debug, PartialEq, PartialOrd)]
pub struct MetersPerSecondSquared(pub Real);

/// Time in seconds.
#[derive(Copy, Clone, Debug, PartialEq, PartialOrd)]
pub struct Seconds(pub Real);

/// Angular velocity in radians per second.
#[derive(Copy, Clone, Debug, PartialEq, PartialOrd)]
pub struct RadiansPerSecond(pub Real);

impl MetersPerSecond {
    /// The number of units, without its dimension.
    pub fn value(&self) -> (r: Real)
        ensures
            r == self.0,
    {
        self.0
    }
}

impl Seconds {
    /// The number of units, without its dimension.
    pub fn value(&self) -> (r: Real)
        ensures
            r == self.0,
    {
        self.0
    }
}

impl RadiansPerSecond {
    /// The number of units, without its dimension.
    pub fn value(&self) -> (r: Real)
        ensures
            r == self.0,
    {
        self.0
    }
}

impl Pascals {
    /// The same pressure, read as force per area.
    pub fn to_newtons_per_meters_squared(&self) -> (r: NewtonsPerMetersSquared)
        ensures
            r.0 == self.0,
    {
        NewtonsPerMetersSquared(self.value())
    }

    /// The number of units, without its dimension.
    pub fn value(&self) -> (r: Real)
        ensures
            r == self.0,
    {
        self.0
    }

    /// Pressure over density. The quotient is typed as a velocity; it is the
    /// square of one until the formula that asked for it has taken its root.
    pub fn div<A: Arithmetic>(self, fpu: &A, rhs: KilogramsPerMetersCubed) -> (r: MetersPerSecond)
        ensures
            evaluates(fpu, quotient(value(self.0), value(rhs.0)), r.0),
    {
        let t = Term::given(fpu, self.0).over(fpu, Term::given(fpu, rhs.0));
        proof {
            t.lemma_evaluates(fpu);
        }
        MetersPerSecond(t.number)
    }

    /// The pressure `rhs` times over.
    pub fn mul_scalar<A: Arithmetic>(self, fpu: &A, rhs: Real) -> (r: Pascals)
        ensures
            evaluates(fpu, product(value(self.0), value(rhs)), r.0),
    {
        let t = Term::given(fpu, self.0).times(fpu, Term::given(fpu, rhs));
        proof {
            t.lemma_evaluates(fpu);
        }
        Pascals(t.number)
    }
}

impl Kilometers {
    /// The number of units, without its dimension.
    pub fn value(&self) -> (r: Real)
        ensures
            r == self.0,
    {
        self.0
    }

    /// The two lengths together.
    pub fn add<A: Arithmetic>(self, fpu: &A, rhs: Kilometers) -> (r: Kilometers)
        ensures
            evaluates(fpu, sum(value(self.0), value(rhs.0)), r.0),
    {
        let t = Term::given(fpu, self.0).plus(fpu, Term::given(fpu, rhs.0));
        proof {
            t.lemma_evaluates(fpu);
        }
        Kilometers(t.number)
    }

    /// The same length in kilometers: the number of meters over 1000.
    pub fn from_meters<A: Arithmetic>(fpu: &A, m: Meters) -> (r: Kilometers)
        ensures
            evaluates(fpu, quotient(value(m.0), value(thousand())), r.0),
    {
        let t = Term::given(fpu, m.value()).over(
            fpu,
            Term::given(fpu, Real::from_bits(THOUSAND_BITS)),
        );
        proof {
            t.lemma_evaluates(fpu);
        }
        Kilometers(t.number)
    }
}

impl Meters {
    /// No length at all: positive zero.
    pub fn zero() -> (r: Meters)
        ensures
            r.0 == Real::zero(),
    {
        Meters(Real::from_bits(ZERO_BITS))
    }

    /// The number of units, without its dimension.
    pub fn value(&self) -> (r: Real)
        ensures
            r == self.0,
    {
        self.0
    }

    /// The same length in meters: the number of kilometers times 1000.
    pub fn from_kilometers<A: Arithmetic>(fpu: &A, km: Kilometers) -> (r: Meters)
        ensures
            evaluates(fpu, product(value(km.0), value(thousand())), r.0),
    {
        let t = Term::given(fpu, km.value()).times(
            fpu,
            Term::given(fpu, Real::from_bits(THOUSAND_BITS)),
        );
        proof {
            t.lemma_evaluates(fpu);
        }
        Meters(t.number)
    }

    /// The two lengths together.
    pub fn add<A: Arithmetic>(self, fpu: &A, rhs: Meters) -> (r: Meters)
        ensures
            evaluates(fpu, sum(value(self.0), value(rhs.0)), r.0),
    {
        let t = Term::given(fpu, self.0).plus(fpu, Term::given(fpu, rhs.0));
        proof {
            t.lemma_evaluates(fpu);
        }
        Meters(t.number)
    }

    /// The length less `rhs`.
    pub fn sub<A: Arithmetic>(self, fpu: &A, rhs: Meters) -> (r: Meters)
        ensures
            evaluates(fpu, difference(value(self.0), value(rhs.0)), r.0),
    {
        let t = Term::given(fpu, self.0).minus(fpu, Term::given(fpu, rhs.0));
        proof {
            t.lemma_evaluates(fpu);
        }
        Meters(t.number)
    }

    /// The ratio of the two lengths, a plain number.
    pub fn div<A: Arithmetic>(self, fpu: &A, rhs: Meters) -> (r: Real)
        ensures
            evaluates(fpu, quotient(value(self.0), value(rhs.0)), r),
    {
        let t = Term::given(fpu, self.0).over(fpu, Term::given(fpu, rhs.0));
        proof {
            t.lemma_evaluates(fpu);
        }
        t.number
    }

    /// The area of the rectangle with these two sides.
    pub fn mul<A: Arithmetic>(self, fpu: &A, rhs: Meters) -> (r: MetersSquared)
        ensures
            evaluates(fpu, product(value(self.0), value(rhs.0)), r.0),
    {
        let t = Term::given(fpu, self.0).times(fpu, Term::given(fpu, rhs.0));
        proof {
            t.lemma_evaluates(fpu);
        }
        MetersSquared(t.number)
    }

    /// The length `rhs` times over.
    pub fn mul_scalar<A: Arithmetic>(self, fpu: &A, rhs: Real) -> (r: Meters)
        ensures
            evaluates(fpu, product(value(self.0), value(rhs)), r.0),
    {
        let t = Term::given(fpu, self.0).times(fpu, Term::given(fpu, rhs));
        proof {
            t.lemma_evaluates(fpu);
        }
        Meters(t.number)
    }

    /// `factor` times the length `rhs`: scaling with the number on the left.
    pub fn scalar_mul<A: Arithmetic>(fpu: &A, factor: Real, rhs: Meters) -> (r: Meters)
        ensures
            evaluates(fpu, product(value(factor), value(rhs.0)), r.0),
    {
        let t = Term::given(fpu, factor).times(fpu, Term::given(fpu, rhs.0));
        proof {
            t.lemma_evaluates(fpu);
        }
        Meters(t.number)
    }

    /// The length divided into `rhs` equal parts.
    pub fn div_scalar<A: Arithmetic>(self, fpu: &A, rhs: Real) -> (r: Meters)
        ensures
            evaluates(fpu, quotient(value(self.0), value(rhs)), r.0),
    {
        let t = Term::given(fpu, self.0).over(fpu, Term::given(fpu, rhs));
        proof {
            t.lemma_evaluates(fpu);
        }
        Meters(t.number)
    }

    /// The volume of the prism of this height over the base `rhs`.
    pub fn mul_area<A: Arithmetic>(self, fpu: &A, rhs: MetersSquared) -> (r: MetersCubed)
        ensures
            evaluates(fpu, product(value(self.0), value(rhs.0)), r.0),
    {
        let t = Term::given(fpu, self.0).times(fpu, Term::given(fpu, rhs.0));
        proof {
            t.lemma_evaluates(fpu);
        }
        MetersCubed(t.number)
    }
}

impl CentimetersSquared {
    /// The number of units, without its dimension.
    pub fn value(&self) -> (r: Real)
        ensures
            r == self.0,
    {
        self.0
    }

    /// The same area in square centimeters: the number of square meters
    /// times 10 000.
    pub fn from_meters_squared<A: Arithmetic>(fpu: &A, m2: MetersSquared) -> (r:
        CentimetersSquared)
        ensures
            evaluates(fpu, product(value(m2.0), value(ten_thousand())), r.0),
    {
        let t = Term::given(fpu, m2.value()).times(
            fpu,
            Term::given(fpu, Real::from_bits(TEN_THOUSAND_BITS)),
        );
        proof {
            t.lemma_evaluates(fpu);
        }
        CentimetersSquared(t.number)
    }
}

impl MetersSquared {
    /// The number of units, without its dimension.
    pub fn value(self) -> (r: Real)
        ensures
            r == self.0,
    {
        self.0
    }

    /// The same area in square meters: the number of square centimeters
    /// times 0.0001.
    pub fn from_centimeters_squared<A: Arithmetic>(fpu: &A, cm2: CentimetersSquared) -> (r:
        MetersSquared)
        ensures
            evaluates(fpu, product(value(cm2.0), value(ten_thousandth())), r.0),
    {
        let t = Term::given(fpu, cm2.value()).times(
            fpu,
            Term::given(fpu, Real::from_bits(TEN_THOUSANDTH_BITS)),
        );
        proof {
            t.lemma_evaluates(fpu);
        }
        MetersSquared(t.number)
    }

    /// The two areas together.
    pub fn add<A: Arithmetic>(self, fpu: &A, rhs: MetersSquared) -> (r: MetersSquared)
        ensures
            evaluates(fpu, sum(value(self.0), value(rhs.0)), r.0),
    {
        let t = Term::given(fpu, self.0).plus(fpu, Term::given(fpu, rhs.0));
        proof {
            t.lemma_evaluates(fpu);
        }
        MetersSquared(t.number)
    }

    /// The area less `rhs`.
    pub fn sub<A: Arithmetic>(self, fpu: &A, rhs: MetersSquared) -> (r: MetersSquared)
        ensures
            evaluates(fpu, difference(value(self.0), value(rhs.0)), r.0),
    {
        let t = Term::given(fpu, self.0).minus(fpu, Term::given(fpu, rhs.0));
        proof {
            t.lemma_evaluates(fpu);
        }
        MetersSquared(t.number)
    }

    /// The area `rhs` times over.
    pub fn mul_scalar<A: Arithmetic>(self, fpu: &A, rhs: Real) -> (r: MetersSquared)
        ensures
            evaluates(fpu, product(value(self.0), value(rhs)), r.0),
    {
        let t = Term::given(fpu, self.0).times(fpu, Term::given(fpu, rhs));
        proof {
            t.lemma_evaluates(fpu);
        }
        MetersSquared(t.number)
    }

    /// The area divided into `rhs` equal parts.
    pub fn div_scalar<A: Arithmetic>(self, fpu: &A, rhs: Real) -> (r: MetersSquared)
        ensures
            evaluates(fpu, quotient(value(self.0), value(rhs)), r.0),
    {
        let t = Term::given(fpu, self.0).over(fpu, Term::given(fpu, rhs));
        proof {
            t.lemma_evaluates(fpu);
        }
        MetersSquared(t.number)
    }

    /// The other side of the rectangle of this area with one side `rhs`.
    pub fn div<A: Arithmetic>(self, fpu: &A, rhs: Meters) -> (r: Meters)
        ensures
            evaluates(fpu, quotient(value(self.0), value(rhs.0)), r.0),
    {
        let t = Term::given(fpu, self.0).over(fpu, Term::given(fpu, rhs.0));
        proof {
            t.lemma_evaluates(fpu);
        }
        Meters(t.number)
    }
}

impl MetersCubed {
    /// The number of units, without its dimension.
    pub fn value(self) -> (r: Real)
        ensures
            r == self.0,
    {
        self.0
    }
}

/// Shape parameter of a conic section: 0 for a circle, between 0 and 1 for
/// an ellipse, 1 for a parabola.
///
/// Every value of this type is a number that is at least zero: a NaN is
/// none. Nothing bounds it from above.
#[derive(Copy, Clone, Debug, PartialEq)]
pub struct Eccentricity(Real);

impl View for Eccentricity {
    type V = Real;

    closed spec fn view(&self) -> Real {
        self.0
    }
}

impl Eccentricity {
    #[verifier::type_invariant]
    closed spec fn not_negative(self) -> bool {
        self.0.at_least(Real::zero())
    }

    /// Accepts every `value` that is at least zero, either zero and
    /// positive infinity among them, and refuses every other: the numbers
    /// below zero, and a NaN.
    pub fn new(value: Real) -> (r: Result<Eccentricity, InvalidInput>)
        ensures
            value.at_least(Real::zero()) <==> r is Ok,
            r is Err ==> r == Err::<Eccentricity, InvalidInput>(InvalidInput::EccentricityNegative),
            r matches Ok(e) ==> e@ == value,
    {
        if value.is_at_least(Real::from_bits(ZERO_BITS)) {
            Ok(Eccentricity(value))
        } else {
            Err(InvalidInput::EccentricityNegative)
        }
    }

    /// The number, which is at least zero.
    pub fn value(&self) -> (r: Real)
        ensures
            r == self@,
            r.at_least(Real::zero()),
    {
        proof {
            use_type_invariant(self);
        }
        self.0
    }
}

} // verus!
