//! The one failure kind of the library: an input that a formula rejects.

use vstd::prelude::*;

verus! {

/// An input outside the domain of the function it was handed to. Each
/// variant is one reason; nothing else ever fails in this library.
#[derive(Copy, Clone, Debug, PartialEq, Eq, Structural)]
pub enum InvalidInput {
    /// Tensile strength zero or below.
    TensileStrengthNotPositive,
    /// Density zero or below.
    DensityNotPositive,
    /// Tensile strength above 200 GPa.
    TensileStrengthTooHigh,
    /// Density above 50 000 kg/m^3.
    DensityTooHigh,
    /// Orbital radius zero or below.
    RadiusNotPositive,
    /// Gravitational parameter zero or below.
    GravitationalParameterNotPositive,
    /// Tether length zero or below.
    TetherLengthNotPositive,
    /// Radius of the central body zero or below.
    BodyRadiusNotPositive,
    /// Eccentricity not a number that is at least zero.
    EccentricityNegative,
}

impl InvalidInput {
    /// The text of [`InvalidInput::reason`].
    pub open spec fn reason_text(self) -> Seq<char> {
        match self {
            InvalidInput::TensileStrengthNotPositive => "Tensile strength must be positive"@,
            InvalidInput::DensityNotPositive => "Density must be positive"@,
            InvalidInput::TensileStrengthTooHigh => "Tensile strength exceeds known material limits"@,
            InvalidInput::DensityTooHigh => "Density exceeds reasonable material limits"@,
            InvalidInput::RadiusNotPositive => "Orbital radius must be positive"@,
            InvalidInput::GravitationalParameterNotPositive => "Gravitational parameter must be positive"@,
            InvalidInput::TetherLengthNotPositive => "Tether length must be positive"@,
            InvalidInput::BodyRadiusNotPositive => "Central body radius must be positive"@,
            InvalidInput::EccentricityNegative => "value must be non-negative"@,
        }
    }

    /// The reason in words: plain text, fit to show to any caller.
    pub fn reason(&self) -> (text: &'static str)
        ensures
            text@ == self.reason_text(),
    {
        match self {
            InvalidInput::TensileStrengthNotPositive => "Tensile strength must be positive",
            InvalidInput::DensityNotPositive => "Density must be positive",
            InvalidInput::TensileStrengthTooHigh => "Tensile strength exceeds known material limits",
            InvalidInput::DensityTooHigh => "Density exceeds reasonable material limits",
            InvalidInput::RadiusNotPositive => "Orbital radius must be positive",
            InvalidInput::GravitationalParameterNotPositive => "Gravitational parameter must be positive",
            InvalidInput::TetherLengthNotPositive => "Tether length must be positive",
            InvalidInput::BodyRadiusNotPositive => "Central body radius must be positive",
            InvalidInput::EccentricityNegative => "value must be non-negative",
        }
    }
}

} // verus!
