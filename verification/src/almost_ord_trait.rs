//! The historical name of the capability contract, kept so that older
//! callers compile: every [`OrdSubset`] type is [`AlmostOrd`].

use vstd::prelude::*;

verus! {

use crate::ord_subset_trait::OrdSubset;

/// Trait for types that form a total order when a few values are
/// disallowed; the earlier name of [`OrdSubset`], which every type of that
/// trait carries automatically.
pub trait AlmostOrd: OrdSubset {
}

impl<T: OrdSubset> AlmostOrd for T {
}

} // verus!
