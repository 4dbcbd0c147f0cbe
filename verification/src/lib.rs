//! Total-order operations for types that are almost totally ordered.
//!
//! Types like IEEE floating-point numbers are ordered everywhere except on a
//! well-defined set of outlier values (NaN).  The [`OrdSubset`] trait marks
//! such types: it classifies each value as in-order or outside-order and
//! carries the partial comparison the order rides on, together with the laws
//! that make the in-order values a total preorder.  On top of it the crate
//! offers a wrapper asserting a value is in-order ([`OrdVar`]), max/min
//! reductions that ignore outside-order values, in-place sorts that move
//! outside-order values to the end, and binary searches over sequences
//! sorted that way.

mod almost_ord_trait;
mod float_bits;
mod iter_ext;
mod lex_impls;
mod ord_subset_trait;
mod ord_val;
mod ord_var;
mod rev_option;
mod slice_ext;
mod tuple_impls;

pub use almost_ord_trait::AlmostOrd;
pub use float_bits::f32_canon;
pub use float_bits::f32_is_nan;
pub use float_bits::f32_key;
pub use float_bits::f64_canon;
pub use float_bits::f64_is_nan;
pub use float_bits::f64_key;
pub use float_bits::F32Bits;
pub use float_bits::F64Bits;
pub use iter_ext::OrdSubsetIterExt;
pub use ord_subset_trait::flip_order;
pub use ord_subset_trait::in_le;
pub use ord_subset_trait::in_lt;
pub use ord_subset_trait::key_fn_callable;
pub use ord_subset_trait::key_fn_deterministic;
pub use ord_subset_trait::lemma_key_call_determined;
pub use ord_subset_trait::spec_key_of;
pub use ord_subset_trait::OrdSubset;
pub use ord_val::OrderedVal;
pub use ord_var::lemma_new_checked_rejects;
pub use ord_var::lemma_new_checked_round_trip;
pub use ord_var::OrdVar;
pub use rev_option::RevOption;
pub use slice_ext::cmp_fn_callable;
pub use slice_ext::cmp_fn_consistent;
pub use slice_ext::cmp_fn_deterministic;
pub use slice_ext::cmp_unordered_greater_all;
pub use slice_ext::le_cmp_policy;
pub use slice_ext::le_policy;
pub use slice_ext::le_policy_rev;
pub use slice_ext::lemma_cmp_call_determined;
pub use slice_ext::lemma_insert_preserves_sorted;
pub use slice_ext::lemma_le_policy_preorder;
pub use slice_ext::lemma_le_policy_rev_preorder;
pub use slice_ext::lemma_sorted_policy_shape;
pub use slice_ext::outside_trailing;
pub use slice_ext::rank;
pub use slice_ext::search_fn_callable;
pub use slice_ext::search_ord;
pub use slice_ext::search_ord_rev;
pub use slice_ext::sorted_by_cmp_policy;
pub use slice_ext::sorted_by_key_policy;
pub use slice_ext::sorted_by_rel;
pub use slice_ext::sorted_policy;
pub use slice_ext::sorted_policy_rev;
pub use slice_ext::spec_cmp_of;
pub use slice_ext::OrdSubsetSliceExt;
pub use lex_impls::seq_all_in_order;
pub use lex_impls::seq_lex_cmp;
