//! A wrapper for `Option<T>` ordered with `None` above every `Some`; the
//! order among present values is the one of the capability contract.

use vstd::prelude::*;

verus! {

use core::cmp::Ordering;
use crate::ord_subset_trait::OrdSubset;

/// `Option<T>` with the opposite placement of `None`: absent values rank
/// above every present one, where plain `Option` ranks them below.
#[derive(Debug)]
pub struct RevOption<T>(pub Option<T>);

impl<T: OrdSubset> PartialEq for RevOption<T> {
    fn eq(&self, other: &Self) -> (r: bool) {
        match (&self.0, &other.0) {
            (None, None) => true,
            (Some(a), Some(b)) => match a.partial_compare(b) {
                Some(Ordering::Equal) => true,
                _ => false,
            },
            _ => false,
        }
    }
}

impl<T: OrdSubset> vstd::std_specs::cmp::PartialEqSpecImpl for RevOption<T> {
    open spec fn obeys_eq_spec() -> bool {
        true
    }

    open spec fn eq_spec(&self, other: &Self) -> bool {
        match (self.0, other.0) {
            (None, None) => true,
            (Some(a), Some(b)) => a.cmp_spec(b) == Some(Ordering::Equal),
            _ => false,
        }
    }
}

impl<T: OrdSubset> PartialOrd for RevOption<T> {
    fn partial_cmp(&self, other: &Self) -> (r: Option<Ordering>) {
        match (&self.0, &other.0) {
            (None, None) => Some(Ordering::Equal),
            (None, Some(_)) => Some(Ordering::Greater),
            (Some(_), None) => Some(Ordering::Less),
            (Some(a), Some(b)) => a.partial_compare(b),
        }
    }
}

impl<T: OrdSubset> vstd::std_specs::cmp::PartialOrdSpecImpl for RevOption<T> {
    open spec fn obeys_partial_cmp_spec() -> bool {
        true
    }

    open spec fn partial_cmp_spec(&self, other: &Self) -> Option<Ordering> {
        match (self.0, other.0) {
            (None, None) => Some(Ordering::Equal),
            (None, Some(_)) => Some(Ordering::Greater),
            (Some(_), None) => Some(Ordering::Less),
            (Some(a), Some(b)) => a.cmp_spec(b),
        }
    }
}

impl<T: OrdSubset> RevOption<T> {
    /// Total-order comparison: `None` above everything, present in-order
    /// values by the contract's comparison.
    pub fn cmp(&self, other: &RevOption<T>) -> (r: Ordering)
        requires
            self.0 matches Some(x) ==> !x.outside_order_spec(),
            other.0 matches Some(x) ==> !x.outside_order_spec(),
        ensures
            match (self.0, other.0) {
                (None, None) => r == Ordering::Equal,
                (None, Some(_)) => r == Ordering::Greater,
                (Some(_), None) => r == Ordering::Less,
                (Some(a), Some(b)) => Some(r) == a.cmp_spec(b),
            },
    {
        match (&self.0, &other.0) {
            (None, None) => Ordering::Equal,
            (None, Some(_)) => Ordering::Greater,
            (Some(_), None) => Ordering::Less,
            (Some(a), Some(b)) => {
                proof {
                    T::lemma_cmp_properties(*a, *b, *a);
                }
                a.partial_compare(b).unwrap()
            },
        }
    }
}

} // verus!
