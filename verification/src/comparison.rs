//! Durations compared by their length, whatever their units: a thousand
//! milliseconds equal one second.

use vstd::prelude::*;
use vstd::std_specs::cmp::{PartialEqSpecImpl, PartialOrdSpecImpl};
use core::cmp::Ordering;
use crate::duration::Duration;

verus! {

impl PartialEq for Duration {
    /// The two durations are equally long.
    fn eq(&self, other: &Duration) -> (r: bool) {
        self.cross_weight(other) == other.cross_weight(self)
    }
}

impl PartialEqSpecImpl for Duration {
    open spec fn obeys_eq_spec() -> bool {
        true
    }

    open spec fn eq_spec(&self, other: &Duration) -> bool {
        self.same_length(*other)
    }
}

impl PartialOrd for Duration {
    /// Orders two durations by their length; every two durations compare.
    fn partial_cmp(&self, other: &Duration) -> (r: Option<Ordering>) {
        let mine: u128 = self.cross_weight(other);
        let theirs: u128 = other.cross_weight(self);
        if mine < theirs {
            Some(Ordering::Less)
        } else if mine == theirs {
            Some(Ordering::Equal)
        } else {
            Some(Ordering::Greater)
        }
    }
}

impl PartialOrdSpecImpl for Duration {
    open spec fn obeys_partial_cmp_spec() -> bool {
        true
    }

    open spec fn partial_cmp_spec(&self, other: &Duration) -> Option<Ordering> {
        if self.shorter_than(*other) {
            Some(Ordering::Less)
        } else if self.same_length(*other) {
            Some(Ordering::Equal)
        } else {
            Some(Ordering::Greater)
        }
    }
}

} // verus!
