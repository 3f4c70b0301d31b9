//! Physics of space tethers and Keplerian orbits over quantities that carry
//! their dimension in their type.
//!
//! Numbers are IEEE-754 doubles, held by their bit patterns ([`ieee`]).
//! What the library decides, it decides on those patterns: whether an
//! input is in the domain of a formula, which of two numbers is the
//! smaller, where a result is capped. What it computes, it computes by the
//! operations of an [`arithmetic::Arithmetic`] that the caller supplies,
//! and each contract names the formula that the result is a value of.
//! What the formulas mean over the real numbers, and the laws they obey
//! there, is the matter of [`exact`] and of the modules of laws.

pub mod arithmetic;
pub mod celestials;
pub mod error;
pub mod exact;
pub mod ieee;
pub mod ieee_lemmas;
pub mod ieee_order;
pub mod kepler;
pub mod kepler_accuracy;
pub mod kepler_laws;
pub mod materials;
pub mod modeling;
pub mod planets;
pub mod rounding;
pub mod squares;
pub mod tether_accuracy;
pub mod tether_laws;
pub mod tethers;
pub mod unit_laws;
pub mod utils;
