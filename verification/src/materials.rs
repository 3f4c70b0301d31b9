//! Materials for tethers and structures, as the characteristic-velocity
//! formulas read them.

use vstd::prelude::*;

use crate::arithmetic::{evaluates, quotient, value, Arithmetic, Formula, Term};
use crate::ieee::Real;
use crate::utils::{KilogramsPerMetersCubed, Pascals};

pub mod composites;
pub mod fibers;
pub mod metals;

verus! {

/// What the formulas need to know of a material. A record is never changed
/// after it is made.
#[derive(Debug, Clone, Copy, PartialEq)]
pub struct Material {
    /// Name of the material.
    pub name: &'static str,
    /// Ultimate tensile strength.
    pub tensile_strength: Pascals,
    /// Density.
    pub density: KilogramsPerMetersCubed,
    /// Young's modulus, where it is known.
    pub youngs_modulus: Option<Pascals>,
    /// Notes on the material.
    pub description: &'static str,
}

/// Tensile strength over density.
pub open spec fn specific_strength_formula(material: Material) -> Formula {
    quotient(value(material.tensile_strength.0), value(material.density.0))
}

impl Material {
    /// A material with the given properties, none of them examined.
    pub fn new(
        name: &'static str,
        tensile_strength: Pascals,
        density: KilogramsPerMetersCubed,
        youngs_modulus: Option<Pascals>,
        description: &'static str,
    ) -> (m: Material)
        ensures
            m.name == name,
            m.tensile_strength == tensile_strength,
            m.density == density,
            m.youngs_modulus == youngs_modulus,
            m.description == description,
    {
        Material { name, tensile_strength, density, youngs_modulus, description }
    }

    /// Strength for weight: tensile strength over density, in N m/kg.
    pub fn specific_strength<A: Arithmetic>(&self, fpu: &A) -> (r: Real)
        ensures
            evaluates(fpu, specific_strength_formula(*self), r),
    {
        let t = Term::given(fpu, self.tensile_strength.value()).over(
            fpu,
            Term::given(fpu, self.density.0),
        );
        proof {
            t.lemma_evaluates(fpu);
        }
        t.number
    }
}

} // verus!
