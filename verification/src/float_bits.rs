//! Bit-level models of IEEE binary floating-point values.
//!
//! Floating-point arithmetic is outside what this crate states anything
//! about, but the *order* of floating-point values is plain integer logic on
//! their bit patterns: a value is NaN exactly when its exponent field is all
//! ones and its mantissa is nonzero, the two zeroes are equal, and every
//! other comparison follows the sign-magnitude encoding.  [`F64Bits`] and
//! [`F32Bits`] carry a float as its raw bits and implement the capability
//! contract with exactly that order, so sequences of floats can go through
//! the verified reductions, sorts and searches of this crate.

use vstd::prelude::*;

verus! {

use core::cmp::Ordering;
use crate::ord_subset_trait::OrdSubset;

/// An IEEE binary64 value, represented by its raw bits.
#[derive(Clone, Copy, Debug, PartialEq, Eq, Structural)]
pub struct F64Bits {
    pub bits: u64,
}

/// An IEEE binary32 value, represented by its raw bits.
#[derive(Clone, Copy, Debug, PartialEq, Eq, Structural)]
pub struct F32Bits {
    pub bits: u32,
}

/// The bit pattern is a binary64 NaN: exponent all ones, mantissa nonzero.
pub open spec fn f64_is_nan(b: u64) -> bool {
    (b >> 52) & 0x7ff == 0x7ff && b & 0xf_ffff_ffff_ffff != 0
}

/// The bit pattern with the two binary64 zeroes identified: the negative
/// zero is replaced by the positive one.
pub open spec fn f64_canon(b: u64) -> u64 {
    if b == 0x8000_0000_0000_0000 {
        0
    } else {
        b
    }
}

/// The position of a non-NaN binary64 bit pattern in the numeric order of
/// the values the patterns encode: negative values in reversed bit order
/// below zero, positive values in bit order above.
pub open spec fn f64_key(b: u64) -> int {
    let c = f64_canon(b);
    if c >= 0x8000_0000_0000_0000 {
        0x8000_0000_0000_0000 - c
    } else {
        c as int
    }
}

/// The bit pattern is a binary32 NaN.
pub open spec fn f32_is_nan(b: u32) -> bool {
    (b >> 23) & 0xff == 0xff && b & 0x7f_ffff != 0
}

/// The bit pattern with the two binary32 zeroes identified.
pub open spec fn f32_canon(b: u32) -> u32 {
    if b == 0x8000_0000 {
        0
    } else {
        b
    }
}

/// The position of a non-NaN binary32 bit pattern in the numeric order.
pub open spec fn f32_key(b: u32) -> int {
    let c = f32_canon(b);
    if c >= 0x8000_0000 {
        0x8000_0000 - c
    } else {
        c as int
    }
}

impl F64Bits {
    /// Wrap the raw bits of a binary64 value.
    pub fn from_bits(bits: u64) -> (r: F64Bits)
        ensures
            r.bits == bits,
    {
        F64Bits { bits }
    }

    /// The raw bits back.
    pub fn to_bits(self) -> (r: u64)
        ensures
            r == self.bits,
    {
        self.bits
    }
}

impl F32Bits {
    /// Wrap the raw bits of a binary32 value.
    pub fn from_bits(bits: u32) -> (r: F32Bits)
        ensures
            r.bits == bits,
    {
        F32Bits { bits }
    }

    /// The raw bits back.
    pub fn to_bits(self) -> (r: u32)
        ensures
            r == self.bits,
    {
        self.bits
    }
}

impl OrdSubset for F64Bits {
    open spec fn outside_order_spec(self) -> bool {
        f64_is_nan(self.bits)
    }

    open spec fn cmp_spec(self, other: Self) -> Option<Ordering> {
        if f64_is_nan(self.bits) || f64_is_nan(other.bits) {
            None
        } else if f64_key(self.bits) < f64_key(other.bits) {
            Some(Ordering::Less)
        } else if f64_key(self.bits) == f64_key(other.bits) {
            Some(Ordering::Equal)
        } else {
            Some(Ordering::Greater)
        }
    }

    proof fn lemma_cmp_properties(a: Self, b: Self, c: Self) {
    }

    fn is_outside_order(&self) -> (r: bool) {
        (self.bits >> 52) & 0x7ff == 0x7ff && self.bits & 0xf_ffff_ffff_ffff != 0
    }

    fn partial_compare(&self, other: &Self) -> (r: Option<Ordering>) {
        if self.is_outside_order() || other.is_outside_order() {
            None
        } else {
            let a = if self.bits == 0x8000_0000_0000_0000 {
                0
            } else {
                self.bits
            };
            let b = if other.bits == 0x8000_0000_0000_0000 {
                0
            } else {
                other.bits
            };
            let a_neg = a >= 0x8000_0000_0000_0000;
            let b_neg = b >= 0x8000_0000_0000_0000;
            if a_neg && b_neg {
                if a > b {
                    Some(Ordering::Less)
                } else if a == b {
                    Some(Ordering::Equal)
                } else {
                    Some(Ordering::Greater)
                }
            } else if a_neg {
                Some(Ordering::Less)
            } else if b_neg {
                Some(Ordering::Greater)
            } else {
                if a < b {
                    Some(Ordering::Less)
                } else if a == b {
                    Some(Ordering::Equal)
                } else {
                    Some(Ordering::Greater)
                }
            }
        }
    }
}

impl OrdSubset for F32Bits {
    open spec fn outside_order_spec(self) -> bool {
        f32_is_nan(self.bits)
    }

    open spec fn cmp_spec(self, other: Self) -> Option<Ordering> {
        if f32_is_nan(self.bits) || f32_is_nan(other.bits) {
            None
        } else if f32_key(self.bits) < f32_key(other.bits) {
            Some(Ordering::Less)
        } else if f32_key(self.bits) == f32_key(other.bits) {
            Some(Ordering::Equal)
        } else {
            Some(Ordering::Greater)
        }
    }

    proof fn lemma_cmp_properties(a: Self, b: Self, c: Self) {
    }

    fn is_outside_order(&self) -> (r: bool) {
        (self.bits >> 23) & 0xff == 0xff && self.bits & 0x7f_ffff != 0
    }

    fn partial_compare(&self, other: &Self) -> (r: Option<Ordering>) {
        if self.is_outside_order() || other.is_outside_order() {
            None
        } else {
            let a = if self.bits == 0x8000_0000 {
                0
            } else {
                self.bits
            };
            let b = if other.bits == 0x8000_0000 {
                0
            } else {
                other.bits
            };
            let a_neg = a >= 0x8000_0000;
            let b_neg = b >= 0x8000_0000;
            if a_neg && b_neg {
                if a > b {
                    Some(Ordering::Less)
                } else if a == b {
                    Some(Ordering::Equal)
                } else {
                    Some(Ordering::Greater)
                }
            } else if a_neg {
                Some(Ordering::Less)
            } else if b_neg {
                Some(Ordering::Greater)
            } else {
                if a < b {
                    Some(Ordering::Less)
                } else if a == b {
                    Some(Ordering::Equal)
                } else {
                    Some(Ordering::Greater)
                }
            }
        }
    }
}

} // verus!
