//! Planets and moons, by the properties that orbital mechanics asks for.

use vstd::prelude::*;

use crate::utils::{Kilograms, Kilometers};

pub mod celestial_bodies;

verus! {

/// A celestial body: its name, its mass and its mean radius.
#[derive(Debug)]
pub struct CelestialBody<'a> {
    pub name: &'a str,
    pub mass: Kilograms,
    /// Mean radius.
    pub radius: Kilometers,
}

} // verus!
