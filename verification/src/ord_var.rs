//! The ordered wrapper: a transparent wrapper whose contents are known to
//! be in-order, giving them a total-order comparison.

use vstd::prelude::*;

verus! {

use core::cmp::Ordering;
use crate::ord_subset_trait::OrdSubset;

/// Wrapper that marks the contained value as lying inside the total order
/// of its type.  Every constructor establishes that, so two `OrdVar`s can
/// always be compared with [`OrdVar::cmp`], a total-order comparison.
#[derive(Clone, Copy, Debug, PartialEq, PartialOrd, Hash)]
pub struct OrdVar<T: OrdSubset>(T);

impl<T: OrdSubset> View for OrdVar<T> {
    type V = T;

    closed spec fn view(&self) -> T {
        self.0
    }
}

impl<T: OrdSubset> OrdVar<T> {
    /// What checked construction yields: the wrapped value for an in-order
    /// argument, nothing for an outside-order one.
    pub closed spec fn new_checked_spec(data: T) -> Option<OrdVar<T>> {
        if data.outside_order_spec() {
            None
        } else {
            Some(OrdVar(data))
        }
    }

    /// Construct an `OrdVar` out of the argument.  The argument must be
    /// in-order; a call site that cannot show that uses `new_checked`.
    pub fn new(data: T) -> (r: OrdVar<T>)
        requires
            !data.outside_order_spec(),
        ensures
            r@ == data,
    {
        OrdVar(data)
    }

    /// Construct an `Option<OrdVar>` out of the argument: the wrapped value
    /// if the argument is in-order, `None` if it is outside the order.
    pub fn new_checked(data: T) -> (r: Option<OrdVar<T>>)
        ensures
            r == Self::new_checked_spec(data),
            match r {
                Some(w) => !data.outside_order_spec() && w@ == data,
                None => data.outside_order_spec(),
            },
    {
        if data.is_outside_order() {
            None
        } else {
            Some(OrdVar(data))
        }
    }

    /// Construct an `OrdVar` without running the classification check,
    /// for a caller that has validated the argument already, typically by
    /// having just tested `is_outside_order` on it.  Wrapping an
    /// outside-order value this way is a latent defect: it surfaces at the
    /// total-order comparison, which demands in-order contents.
    pub fn new_unchecked(data: T) -> (r: OrdVar<T>)
        ensures
            r@ == data,
    {
        OrdVar(data)
    }

    /// Borrow the contained value.
    pub fn as_ref(&self) -> (r: &T)
        ensures
            *r == self@,
    {
        &self.0
    }

    /// Extract the contained value, consuming the wrapper.
    pub fn into_inner(self) -> (r: T)
        ensures
            r == self@,
    {
        self.0
    }

    /// Total-order comparison of the contents, derived from the type's
    /// partial comparison, which is present on every pair of in-order
    /// values.  The contents are in-order for every checked construction;
    /// only misuse of `new_unchecked` could violate that, and this is where
    /// such misuse would surface.
    pub fn cmp(&self, other: &OrdVar<T>) -> (r: Ordering)
        requires
            !self@.outside_order_spec(),
            !other@.outside_order_spec(),
        ensures
            Some(r) == self@.cmp_spec(other@),
    {
        proof {
            T::lemma_cmp_properties(self@, other@, self@);
        }
        let o = self.0.partial_compare(&other.0);
        o.unwrap()
    }
}

/// Round trip: checked construction of an in-order value succeeds and wraps
/// exactly that value, so extraction hands it back unchanged.
pub proof fn lemma_new_checked_round_trip<T: OrdSubset>(x: T)
    requires
        !x.outside_order_spec(),
    ensures
        OrdVar::new_checked_spec(x) matches Some(w) && w@ == x,
{
}

/// Checked construction of an outside-order value yields nothing.
pub proof fn lemma_new_checked_rejects<T: OrdSubset>(x: T)
    requires
        x.outside_order_spec(),
    ensures
        OrdVar::new_checked_spec(x) is None,
{
}

} // verus!
