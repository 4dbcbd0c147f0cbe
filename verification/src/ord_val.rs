//! The earlier form of the ordered wrapper, with its contents exposed as a
//! public field; validity is demanded where a comparison needs it rather
//! than carried by the type.

use vstd::prelude::*;

verus! {

use core::cmp::Ordering;
use crate::almost_ord_trait::AlmostOrd;
use crate::ord_subset_trait::OrdSubset;

/// Wrapper for [`AlmostOrd`] values meant to hold only in-order values; the
/// field is public, so the comparison states that demand itself.
#[derive(Clone, Copy, Debug, PartialEq, PartialOrd)]
pub struct OrderedVal<T: AlmostOrd>(pub T);

impl<T: AlmostOrd> OrderedVal<T> {
    /// Wrap the argument, which the caller must have shown to be in-order.
    pub fn new(data: T) -> (r: OrderedVal<T>)
        requires
            !data.outside_order_spec(),
        ensures
            r.0 == data,
    {
        OrderedVal(data)
    }

    /// Wrap the argument if it is in-order; `None` if it is outside the
    /// order.
    pub fn new_checked(data: T) -> (r: Option<OrderedVal<T>>)
        ensures
            match r {
                Some(w) => !data.outside_order_spec() && w.0 == data,
                None => data.outside_order_spec(),
            },
    {
        if data.is_outside_order() {
            None
        } else {
            Some(OrderedVal(data))
        }
    }

    /// Wrap the argument without any check; a later comparison demands that
    /// the contents were in-order after all.
    pub fn new_unchecked(data: T) -> (r: OrderedVal<T>)
        ensures
            r.0 == data,
    {
        OrderedVal(data)
    }

    /// Total-order comparison of two wrappers holding in-order values.
    pub fn cmp(&self, other: &OrderedVal<T>) -> (r: Ordering)
        requires
            !self.0.outside_order_spec(),
            !other.0.outside_order_spec(),
        ensures
            Some(r) == self.0.cmp_spec(other.0),
    {
        proof {
            T::lemma_cmp_properties(self.0, other.0, self.0);
        }
        let o = self.0.partial_compare(&other.0);
        o.unwrap()
    }
}

} // verus!
