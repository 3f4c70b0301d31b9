//! Characteristic velocity of a tether material and the kinematics of a
//! momentum-exchange tether on a circular orbit.
//!
//! Every function here examines its inputs first and refuses the ones
//! outside its domain, naming the first fault it meets. Only then does it
//! evaluate its closed-form expression, in the arithmetic handed to it,
//! and cap the result where the model caps it. An input that is a NaN is
//! below nothing and above nothing, so it passes every test.

use vstd::arithmetic::power2::{lemma2_to64, lemma2_to64_rest, lemma_pow2_pos, pow2};
use vstd::prelude::*;

use crate::arithmetic::{
    evaluates, power, product, quotient, square_root, sum, value, Arithmetic, Formula, Term,
};
use crate::error::InvalidInput;
use crate::ieee::{
    scale_exponent, Real, FIVE_BITS, ONE_BITS, TEN_BITS, THREE_BITS, TWO_BITS, ZERO_BITS,
};
use crate::ieee_lemmas::{lemma_denotes_integer, lemma_minimum_caps, lemma_small_constants};
use crate::materials::Material;
use crate::utils::{
    tau, KilogramsPerMetersCubed, Meters, MetersCubedByKilogramSecondsSquared, MetersPerSecond,
    Pascals, RadiansPerSecond, Seconds, TAU_BITS,
};

verus! {

/// Pattern of 200e9: the tensile strength, in pascals, above which no
/// material is accepted.
pub const MAX_TENSILE_STRENGTH_BITS: u64 = 0x4247_4876_e800_0000;

/// Pattern of 50 000: the density, in kg/m^3, above which no material is
/// accepted.
pub const MAX_DENSITY_BITS: u64 = 0x40e8_6a00_0000_0000;

/// 200 GPa.
pub open spec fn max_tensile_strength() -> Real {
    Real { bits: MAX_TENSILE_STRENGTH_BITS }
}

/// 50 000 kg/m^3.
pub open spec fn max_density() -> Real {
    Real { bits: MAX_DENSITY_BITS }
}

/// The first fault of a pair of material properties, if there is one:
/// strength not positive, density not positive, strength above 200 GPa,
/// density above 50 000 kg/m^3, in this order.
pub open spec fn material_fault(
    tensile_strength: Pascals,
    density: KilogramsPerMetersCubed,
) -> Option<InvalidInput> {
    if tensile_strength.0.at_most(Real::zero()) {
        Some(InvalidInput::TensileStrengthNotPositive)
    } else if density.0.at_most(Real::zero()) {
        Some(InvalidInput::DensityNotPositive)
    } else if tensile_strength.0.above(max_tensile_strength()) {
        Some(InvalidInput::TensileStrengthTooHigh)
    } else if density.0.above(max_density()) {
        Some(InvalidInput::DensityTooHigh)
    } else {
        None
    }
}

/// The first fault of an orbit, if there is one: radius not positive, then
/// gravitational parameter not positive.
pub open spec fn orbit_fault(
    radius: Meters,
    gravitational_parameter: MetersCubedByKilogramSecondsSquared,
) -> Option<InvalidInput> {
    if radius.0.at_most(Real::zero()) {
        Some(InvalidInput::RadiusNotPositive)
    } else if gravitational_parameter.0.at_most(Real::zero()) {
        Some(InvalidInput::GravitationalParameterNotPositive)
    } else {
        None
    }
}

/// The first fault of a tether about a body, if there is one: tether length
/// not positive, then body radius not positive.
pub open spec fn spin_fault(tether_length: Meters, central_body_radius: Meters) -> Option<
    InvalidInput,
> {
    if tether_length.0.at_most(Real::zero()) {
        Some(InvalidInput::TetherLengthNotPositive)
    } else if central_body_radius.0.at_most(Real::zero()) {
        Some(InvalidInput::BodyRadiusNotPositive)
    } else {
        None
    }
}

/// The first fault of a tether system: that of its material, and only if
/// the material has none, that of its orbit.
pub open spec fn system_fault(
    material: Material,
    radius: Meters,
    gravitational_parameter: MetersCubedByKilogramSecondsSquared,
) -> Option<InvalidInput> {
    match material_fault(material.tensile_strength, material.density) {
        Some(fault) => Some(fault),
        None => orbit_fault(radius, gravitational_parameter),
    }
}

/// What a function returns for inputs with the given fault: the fault, or
/// `value` where there is none.
pub open spec fn outcome<T>(fault: Option<InvalidInput>, value: T) -> Result<T, InvalidInput> {
    match fault {
        Some(reason) => Err(reason),
        None => Ok(value),
    }
}

/// Examines a tensile strength and a density.
pub fn check_material(tensile_strength: Pascals, density: KilogramsPerMetersCubed) -> (r: Result<
    (),
    InvalidInput,
>)
    ensures
        r == outcome(material_fault(tensile_strength, density), ()),
{
    let zero = Real::from_bits(ZERO_BITS);
    if tensile_strength.value().is_at_most(zero) {
        return Err(InvalidInput::TensileStrengthNotPositive);
    }
    if density.0.is_at_most(zero) {
        return Err(InvalidInput::DensityNotPositive);
    }
    if tensile_strength.value().is_above(Real::from_bits(MAX_TENSILE_STRENGTH_BITS)) {
        return Err(InvalidInput::TensileStrengthTooHigh);
    }
    if density.0.is_above(Real::from_bits(MAX_DENSITY_BITS)) {
        return Err(InvalidInput::DensityTooHigh);
    }
    Ok(())
}

/// Examines an orbital radius and a gravitational parameter.
pub fn check_orbit(
    radius: Meters,
    gravitational_parameter: MetersCubedByKilogramSecondsSquared,
) -> (r: Result<(), InvalidInput>)
    ensures
        r == outcome(orbit_fault(radius, gravitational_parameter), ()),
{
    let zero = Real::from_bits(ZERO_BITS);
    if radius.0.is_at_most(zero) {
        return Err(InvalidInput::RadiusNotPositive);
    }
    if gravitational_parameter.0.is_at_most(zero) {
        return Err(InvalidInput::GravitationalParameterNotPositive);
    }
    Ok(())
}

/// `sqrt(2 * strength / density)`.
pub open spec fn characteristic_velocity_formula(
    tensile_strength: Pascals,
    density: KilogramsPerMetersCubed,
) -> Formula {
    square_root(quotient(product(value(tensile_strength.0), value(Real::two())), value(density.0)))
}

/// `sqrt(mu / radius)`.
pub open spec fn orbital_velocity_formula(
    radius: Meters,
    gravitational_parameter: MetersCubedByKilogramSecondsSquared,
) -> Formula {
    square_root(quotient(value(gravitational_parameter.0), value(radius.0)))
}

/// `tau * sqrt(radius^3 / mu)`.
pub open spec fn orbital_period_formula(
    radius: Meters,
    gravitational_parameter: MetersCubedByKilogramSecondsSquared,
) -> Formula {
    product(
        value(tau()),
        square_root(
            quotient(power(value(radius.0), value(Real::three())), value(gravitational_parameter.0)),
        ),
    )
}

/// `sqrt(mu / radius^3)`.
pub open spec fn angular_velocity_formula(
    radius: Meters,
    gravitational_parameter: MetersCubedByKilogramSecondsSquared,
) -> Formula {
    square_root(
        quotient(value(gravitational_parameter.0), power(value(radius.0), value(Real::three()))),
    )
}

/// Characteristic velocity of the material over the orbital velocity.
pub open spec fn velocity_ratio_formula(
    material: Material,
    radius: Meters,
    gravitational_parameter: MetersCubedByKilogramSecondsSquared,
) -> Formula {
    quotient(
        characteristic_velocity_formula(material.tensile_strength, material.density),
        orbital_velocity_formula(radius, gravitational_parameter),
    )
}

/// `1 + (d / (1 / 3)) * 5`, where `d = (2 * length) / (2 * radius)` is the
/// diameter of the tether as a fraction of the diameter of the body.
pub open spec fn spin_multiplier_formula(tether_length: Meters, central_body_radius: Meters) -> Formula {
    sum(
        value(Real::one()),
        product(
            quotient(
                quotient(
                    product(value(tether_length.0), value(Real::two())),
                    product(value(central_body_radius.0), value(Real::two())),
                ),
                quotient(value(Real::one()), value(Real::three())),
            ),
            value(Real::five()),
        ),
    )
}

fn characteristic_velocity_term<A: Arithmetic>(
    fpu: &A,
    tensile_strength: Pascals,
    density: KilogramsPerMetersCubed,
) -> (t: Term)
    ensures
        t.sound(fpu),
        t.formula() == characteristic_velocity_formula(tensile_strength, density),
{
    let two = Term::given(fpu, Real::from_bits(TWO_BITS));
    Term::given(fpu, tensile_strength.value()).times(fpu, two).over(
        fpu,
        Term::given(fpu, density.0),
    ).root(fpu)
}

fn orbital_velocity_term<A: Arithmetic>(
    fpu: &A,
    radius: Meters,
    gravitational_parameter: MetersCubedByKilogramSecondsSquared,
) -> (t: Term)
    ensures
        t.sound(fpu),
        t.formula() == orbital_velocity_formula(radius, gravitational_parameter),
{
    Term::given(fpu, gravitational_parameter.0).over(fpu, Term::given(fpu, radius.0)).root(fpu)
}

/// Characteristic velocity of a tether material, `sqrt(2 * strength /
/// density)`: the speed that bounds what a tether of the material can do.
///
/// The properties are in the domain where both are positive, the strength
/// is at most 200 GPa and the density at most 50 000 kg/m^3.
pub fn characteristic_velocity<A: Arithmetic>(
    fpu: &A,
    tensile_strength: Pascals,
    density: KilogramsPerMetersCubed,
) -> (r: Result<MetersPerSecond, InvalidInput>)
    ensures
        match r {
            Ok(v) => material_fault(tensile_strength, density) is None && evaluates(
                fpu,
                characteristic_velocity_formula(tensile_strength, density),
                v.0,
            ),
            Err(fault) => material_fault(tensile_strength, density) == Some(fault),
        },
{
    match check_material(tensile_strength, density) {
        Ok(_) => {},
        Err(fault) => {
            return Err(fault);
        },
    }
    let t = characteristic_velocity_term(fpu, tensile_strength, density);
    proof {
        t.lemma_evaluates(fpu);
    }
    Ok(MetersPerSecond(t.number))
}

/// Characteristic velocity of a material of the catalogue or of the
/// caller's own making.
pub fn characteristic_velocity_for_material<A: Arithmetic>(fpu: &A, material: &Material) -> (r:
    Result<MetersPerSecond, InvalidInput>)
    ensures
        match r {
            Ok(v) => material_fault(material.tensile_strength, material.density) is None
                && evaluates(
                fpu,
                characteristic_velocity_formula(material.tensile_strength, material.density),
                v.0,
            ),
            Err(fault) => material_fault(material.tensile_strength, material.density) == Some(
                fault,
            ),
        },
{
    characteristic_velocity(fpu, material.tensile_strength, material.density)
}

/// Velocity on a circular orbit, `sqrt(mu / radius)`, where radius and
/// gravitational parameter are both positive.
pub fn momentum_exchange_orbital_velocity<A: Arithmetic>(
    fpu: &A,
    radius: Meters,
    gravitational_parameter: MetersCubedByKilogramSecondsSquared,
) -> (r: Result<MetersPerSecond, InvalidInput>)
    ensures
        match r {
            Ok(v) => orbit_fault(radius, gravitational_parameter) is None && evaluates(
                fpu,
                orbital_velocity_formula(radius, gravitational_parameter),
                v.0,
            ),
            Err(fault) => orbit_fault(radius, gravitational_parameter) == Some(fault),
        },
{
    match check_orbit(radius, gravitational_parameter) {
        Ok(_) => {},
        Err(fault) => {
            return Err(fault);
        },
    }
    let t = orbital_velocity_term(fpu, radius, gravitational_parameter);
    proof {
        t.lemma_evaluates(fpu);
    }
    Ok(MetersPerSecond(t.number))
}

/// Period of a circular orbit by Kepler's third law, `2 pi sqrt(radius^3 /
/// mu)`, where radius and gravitational parameter are both positive.
pub fn momentum_exchange_orbital_period<A: Arithmetic>(
    fpu: &A,
    radius: Meters,
    gravitational_parameter: MetersCubedByKilogramSecondsSquared,
) -> (r: Result<Seconds, InvalidInput>)
    ensures
        match r {
            Ok(period) => orbit_fault(radius, gravitational_parameter) is None && evaluates(
                fpu,
                orbital_period_formula(radius, gravitational_parameter),
                period.0,
            ),
            Err(fault) => orbit_fault(radius, gravitational_parameter) == Some(fault),
        },
{
    match check_orbit(radius, gravitational_parameter) {
        Ok(_) => {},
        Err(fault) => {
            return Err(fault);
        },
    }
    let three = Term::given(fpu, Real::from_bits(THREE_BITS));
    let r_cubed = Term::given(fpu, radius.0).raised(fpu, three);
    let root = r_cubed.over(fpu, Term::given(fpu, gravitational_parameter.0)).root(fpu);
    let t = Term::given(fpu, Real::from_bits(TAU_BITS)).times(fpu, root);
    proof {
        t.lemma_evaluates(fpu);
    }
    Ok(Seconds(t.number))
}

/// Angular velocity on a circular orbit, `sqrt(mu / radius^3)`, where
/// radius and gravitational parameter are both positive.
pub fn momentum_exchange_angular_velocity<A: Arithmetic>(
    fpu: &A,
    radius: Meters,
    gravitational_parameter: MetersCubedByKilogramSecondsSquared,
) -> (r: Result<RadiansPerSecond, InvalidInput>)
    ensures
        match r {
            Ok(omega) => orbit_fault(radius, gravitational_parameter) is None && evaluates(
                fpu,
                angular_velocity_formula(radius, gravitational_parameter),
                omega.0,
            ),
            Err(fault) => orbit_fault(radius, gravitational_parameter) == Some(fault),
        },
{
    match check_orbit(radius, gravitational_parameter) {
        Ok(_) => {},
        Err(fault) => {
            return Err(fault);
        },
    }
    let three = Term::given(fpu, Real::from_bits(THREE_BITS));
    let r_cubed = Term::given(fpu, radius.0).raised(fpu, three);
    let t = Term::given(fpu, gravitational_parameter.0).over(fpu, r_cubed).root(fpu);
    proof {
        t.lemma_evaluates(fpu);
    }
    Ok(RadiansPerSecond(t.number))
}

/// Efficiency of momentum exchange: the characteristic velocity of the
/// material over the orbital velocity, and never more than 1.
///
/// A fault of the material is reported before a fault of the orbit. Where
/// there is none, the efficiency is the smaller of 1 and a value of the
/// quotient; a quotient that is a NaN gives 1.
pub fn momentum_exchange_efficiency<A: Arithmetic>(
    fpu: &A,
    material: &Material,
    radius: Meters,
    gravitational_parameter: MetersCubedByKilogramSecondsSquared,
) -> (r: Result<Real, InvalidInput>)
    ensures
        match r {
            Ok(efficiency) => system_fault(*material, radius, gravitational_parameter) is None
                && efficiency.at_most_integer(1) && exists|ratio: Real| #[trigger]
                evaluates(
                    fpu,
                    velocity_ratio_formula(*material, radius, gravitational_parameter),
                    ratio,
                ) && efficiency == ratio.minimum(Real::one()),
            Err(fault) => system_fault(*material, radius, gravitational_parameter) == Some(fault),
        },
{
    match check_material(material.tensile_strength, material.density) {
        Ok(_) => {},
        Err(fault) => {
            return Err(fault);
        },
    }
    match check_orbit(radius, gravitational_parameter) {
        Ok(_) => {},
        Err(fault) => {
            return Err(fault);
        },
    }
    let char_velocity = characteristic_velocity_term(
        fpu,
        material.tensile_strength,
        material.density,
    );
    let orbital_velocity = orbital_velocity_term(fpu, radius, gravitational_parameter);
    let ratio = char_velocity.over(fpu, orbital_velocity);
    proof {
        ratio.lemma_evaluates(fpu);
        lemma_small_constants();
        lemma_minimum_caps(ratio.number, Real::one());
    }
    Ok(ratio.number.min(Real::from_bits(ONE_BITS)))
}

/// Spin rate of a momentum-exchange tether as a multiple of its orbital
/// angular velocity, after Moravec: a tether whose diameter is a third of
/// the body's touches down six times in an orbit, and the rate falls off
/// in proportion for smaller ones. Never more than 10.
///
/// Where tether length and body radius are both positive, the rate is the
/// smaller of 10 and a value of `1 + (d / (1 / 3)) * 5`; a value that is a
/// NaN gives 10.
pub fn momentum_exchange_spin_rate<A: Arithmetic>(
    fpu: &A,
    tether_length: Meters,
    central_body_radius: Meters,
) -> (r: Result<Real, InvalidInput>)
    ensures
        match r {
            Ok(rate) => spin_fault(tether_length, central_body_radius) is None
                && rate.at_most_integer(10) && exists|multiplier: Real| #[trigger]
                evaluates(
                    fpu,
                    spin_multiplier_formula(tether_length, central_body_radius),
                    multiplier,
                ) && rate == multiplier.minimum(Real::ten()),
            Err(fault) => spin_fault(tether_length, central_body_radius) == Some(fault),
        },
{
    let zero = Real::from_bits(ZERO_BITS);
    if tether_length.0.is_at_most(zero) {
        return Err(InvalidInput::TetherLengthNotPositive);
    }
    if central_body_radius.0.is_at_most(zero) {
        return Err(InvalidInput::BodyRadiusNotPositive);
    }
    let one = Term::given(fpu, Real::from_bits(ONE_BITS));
    let two = Term::given(fpu, Real::from_bits(TWO_BITS));
    let three = Term::given(fpu, Real::from_bits(THREE_BITS));
    let five = Term::given(fpu, Real::from_bits(FIVE_BITS));
    let tether_diameter = Term::given(fpu, tether_length.0).times(fpu, two);
    let central_body_diameter = Term::given(fpu, central_body_radius.0).times(fpu, two);
    let diameter_ratio = tether_diameter.over(fpu, central_body_diameter);
    let moravec_reference_ratio = one.over(fpu, three);
    let spin_multiplier = one.plus(
        fpu,
        diameter_ratio.over(fpu, moravec_reference_ratio).times(fpu, five),
    );
    proof {
        spin_multiplier.lemma_evaluates(fpu);
        lemma_small_constants();
        lemma_minimum_caps(spin_multiplier.number, Real::ten());
    }
    Ok(spin_multiplier.number.min(Real::from_bits(TEN_BITS)))
}

/// The two limits are the numbers 200e9 and 50 000.
pub proof fn lemma_limits()
    ensures
        max_tensile_strength().denotes(200_000_000_000),
        max_density().denotes(50_000),
{
    lemma2_to64();
    lemma2_to64_rest();
    lemma_denotes_integer(max_tensile_strength(), 200_000_000_000, 15);
    lemma_denotes_integer(max_density(), 50_000, 37);
}

/// The domain of characteristic velocity, in numbers: a pair of material
/// properties is refused if and only if the tensile strength is at most 0,
/// the density is at most 0, the tensile strength is above 200e9, or the
/// density is above 50 000; the fault named is the first of these, in this
/// order, that holds.
pub proof fn lemma_material_domain(tensile_strength: Pascals, density: KilogramsPerMetersCubed)
    ensures
        material_fault(tensile_strength, density) is Some <==> tensile_strength.0.at_most_integer(0)
            || density.0.at_most_integer(0) || tensile_strength.0.above_integer(200_000_000_000)
            || density.0.above_integer(50_000),
        material_fault(tensile_strength, density) == if tensile_strength.0.at_most_integer(0) {
            Some(InvalidInput::TensileStrengthNotPositive)
        } else if density.0.at_most_integer(0) {
            Some(InvalidInput::DensityNotPositive)
        } else if tensile_strength.0.above_integer(200_000_000_000) {
            Some(InvalidInput::TensileStrengthTooHigh)
        } else if density.0.above_integer(50_000) {
            Some(InvalidInput::DensityTooHigh)
        } else {
            None
        },
{
    lemma_limits();
    lemma_small_constants();
}

/// A material whose strength is the whole number `strength` of pascals and
/// whose density is the whole number `mass_per_volume` of kg/m^3, both
/// positive and within the limits, is in the domain.
pub proof fn lemma_whole_numbers_in_domain(
    tensile_strength: Pascals,
    density: KilogramsPerMetersCubed,
    strength: int,
    mass_per_volume: int,
)
    requires
        tensile_strength.0.denotes(strength),
        density.0.denotes(mass_per_volume),
        0 < strength <= 200_000_000_000,
        0 < mass_per_volume <= 50_000,
    ensures
        material_fault(tensile_strength, density) is None,
{
    lemma_material_domain(tensile_strength, density);
    let step = pow2(scale_exponent());
    lemma_pow2_pos(scale_exponent());
    assert(0 < strength * step <= 200_000_000_000 * step) by (nonlinear_arith)
        requires
            0 < strength <= 200_000_000_000,
            step > 0,
    ;
    assert(0 < mass_per_volume * step <= 50_000 * step) by (nonlinear_arith)
        requires
            0 < mass_per_volume <= 50_000,
            step > 0,
    ;
}

/// The domain of the three orbital formulas, in numbers: an orbit is
/// refused if and only if its radius or its gravitational parameter is at
/// most 0, the radius being named first.
pub proof fn lemma_orbit_domain(
    radius: Meters,
    gravitational_parameter: MetersCubedByKilogramSecondsSquared,
)
    ensures
        orbit_fault(radius, gravitational_parameter) is Some <==> radius.0.at_most_integer(0)
            || gravitational_parameter.0.at_most_integer(0),
        radius.0.at_most_integer(0) ==> orbit_fault(radius, gravitational_parameter) == Some(
            InvalidInput::RadiusNotPositive,
        ),
{
    lemma_small_constants();
}

/// The domain of the spin rate, in numbers: a tether about a body is
/// refused if and only if its length or the body's radius is at most 0,
/// the length being named first.
pub proof fn lemma_spin_domain(tether_length: Meters, central_body_radius: Meters)
    ensures
        spin_fault(tether_length, central_body_radius) is Some <==> tether_length.0.at_most_integer(
            0,
        ) || central_body_radius.0.at_most_integer(0),
        tether_length.0.at_most_integer(0) ==> spin_fault(tether_length, central_body_radius)
            == Some(InvalidInput::TetherLengthNotPositive),
{
    lemma_small_constants();
}

/// Efficiency lies in the unit interval: where the quotient of the two
/// velocities is not below zero, a NaN among such quotients, the
/// efficiency made of it is a number from 0 to 1.
pub proof fn lemma_efficiency_in_unit_interval(ratio: Real)
    requires
        !ratio.below(Real::zero()),
    ensures
        ratio.minimum(Real::one()).at_least_integer(0),
        ratio.minimum(Real::one()).at_most_integer(1),
{
    lemma_small_constants();
    lemma_minimum_caps(ratio, Real::one());
}

/// A capped multiplier is a number no larger than 10, and is the
/// multiplier itself wherever that is at most 10.
pub proof fn lemma_spin_rate_capped(multiplier: Real)
    ensures
        multiplier.minimum(Real::ten()).at_most_integer(10),
        multiplier.at_most_integer(10) ==> multiplier.minimum(Real::ten()) == multiplier,
{
    lemma_small_constants();
    lemma_minimum_caps(multiplier, Real::ten());
}

} // verus!
