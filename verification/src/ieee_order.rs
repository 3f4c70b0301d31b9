//! The comparison operators of [`Real`], with the meaning IEEE-754 gives
//! them: a NaN is unordered and unequal to everything, itself included.

use core::cmp::Ordering;
use vstd::prelude::*;
use vstd::std_specs::cmp::{PartialEqSpecImpl, PartialOrdSpecImpl};

use crate::ieee::Real;

verus! {

impl PartialEq for Real {
    fn eq(&self, other: &Real) -> (r: bool) {
        self.is_equal(*other)
    }
}

impl PartialEqSpecImpl for Real {
    open spec fn obeys_eq_spec() -> bool {
        true
    }

    open spec fn eq_spec(&self, other: &Real) -> bool {
        self.equal(*other)
    }
}

impl PartialOrd for Real {
    fn partial_cmp(&self, other: &Real) -> (r: Option<Ordering>) {
        if self.is_below(*other) {
            Some(Ordering::Less)
        } else if other.is_below(*self) {
            Some(Ordering::Greater)
        } else if self.is_equal(*other) {
            Some(Ordering::Equal)
        } else {
            None
        }
    }
}

impl PartialOrdSpecImpl for Real {
    open spec fn obeys_partial_cmp_spec() -> bool {
        true
    }

    open spec fn partial_cmp_spec(&self, other: &Real) -> Option<Ordering> {
        if self.below(*other) {
            Some(Ordering::Less)
        } else if other.below(*self) {
            Some(Ordering::Greater)
        } else if self.equal(*other) {
            Some(Ordering::Equal)
        } else {
            None
        }
    }
}

} // verus!
