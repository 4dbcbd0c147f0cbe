//! The capability contract: a type opts into every reduction, sort and
//! search operation of this crate by implementing [`OrdSubset`].

use vstd::prelude::*;

verus! {

use core::cmp::Ordering;

/// The opposite comparison outcome: what `b.cmp_spec(a)` must say when
/// `a.cmp_spec(b)` says `o`.
pub open spec fn flip_order(o: Ordering) -> Ordering {
    match o {
        Ordering::Less => Ordering::Greater,
        Ordering::Equal => Ordering::Equal,
        Ordering::Greater => Ordering::Less,
    }
}

/// `a` compares less than or equal to `b`; meaningful only when both are
/// in-order, and false whenever the comparison is absent.
pub open spec fn in_le<T: OrdSubset>(a: T, b: T) -> bool {
    a.cmp_spec(b) == Some(Ordering::Less) || a.cmp_spec(b) == Some(Ordering::Equal)
}

/// `a` compares strictly less than `b`.
pub open spec fn in_lt<T: OrdSubset>(a: T, b: T) -> bool {
    a.cmp_spec(b) == Some(Ordering::Less)
}

/// Trait for types that form a total order when a few values are disallowed.
///
/// `is_outside_order` must return `true` for those outliers and `false` for
/// anything else.  The comparison must return `Some(_)` whenever both
/// operands are in-order and `None` whenever either operand is outside the
/// order; on the in-order values it must behave as a total preorder.  Those
/// obligations are `lemma_cmp_properties`: every implementation proves them,
/// and the generic reductions, sorts and searches of this crate rest on them.
pub trait OrdSubset: Sized {
    /// Whether this value lies outside the type's total order.
    spec fn outside_order_spec(self) -> bool;

    /// The partial comparison of two values: `Some` exactly on in-order
    /// pairs, `None` whenever either operand is outside the order.
    spec fn cmp_spec(self, other: Self) -> Option<Ordering>;

    /// The laws of the contract: the comparison is present exactly on
    /// in-order pairs, reflexive and antisymmetric on them, and
    /// less-or-equal is transitive.
    proof fn lemma_cmp_properties(a: Self, b: Self, c: Self)
        ensures
            !a.outside_order_spec() && !b.outside_order_spec() ==> a.cmp_spec(b) is Some,
            a.outside_order_spec() || b.outside_order_spec() ==> a.cmp_spec(b) is None,
            !a.outside_order_spec() ==> a.cmp_spec(a) == Some(Ordering::Equal),
            a.cmp_spec(b) matches Some(o) ==> b.cmp_spec(a) == Some(flip_order(o)),
            (a.cmp_spec(b) == Some(Ordering::Less) || a.cmp_spec(b) == Some(Ordering::Equal))
                && (b.cmp_spec(c) == Some(Ordering::Less) || b.cmp_spec(c) == Some(
                Ordering::Equal,
            )) ==> (a.cmp_spec(c) == Some(Ordering::Less) || a.cmp_spec(c) == Some(
                Ordering::Equal,
            )),
    ;

    /// Classify this value; pure, with no side effects.
    fn is_outside_order(&self) -> (r: bool)
        ensures
            r == self.outside_order_spec(),
    ;

    /// Compare two values under the type's partial order.
    fn partial_compare(&self, other: &Self) -> (r: Option<Ordering>)
        ensures
            r == self.cmp_spec(*other),
    ;
}

/// A key-extraction closure may be called on any argument.
pub open spec fn key_fn_callable<T, B, F: Fn(&T) -> B>(f: F) -> bool {
    forall|args: (&T,)| #[trigger] call_requires(f, args)
}

/// A key-extraction closure computes one function of its argument's value:
/// any two outcomes on the same argument agree.
pub open spec fn key_fn_deterministic<T, B, F: Fn(&T) -> B>(f: F) -> bool {
    forall|args: (&T,), o1: B, o2: B|
        #[trigger] call_ensures(f, args, o1) && #[trigger] call_ensures(f, args, o2) ==> o1 == o2
}

/// The mathematical key function a deterministic key-extraction closure
/// computes.
pub open spec fn spec_key_of<T, B, F: Fn(&T) -> B>(f: F) -> spec_fn(T) -> B {
    |x: T| choose|o: B| call_ensures(f, (&x,), o)
}

/// What a call of a deterministic key-extraction closure returned is the
/// closure's key function applied to the argument.
pub proof fn lemma_key_call_determined<T, B, F: Fn(&T) -> B>(f: &F, x: T, o: B)
    requires
        key_fn_deterministic(*f),
        call_ensures(*f, (&x,), o),
    ensures
        spec_key_of(*f)(x) == o,
{
    let k = choose|oo: B| call_ensures(*f, (&x,), oo);
    assert(call_ensures(*f, (&x,), k));
}

impl OrdSubset for i32 {
    open spec fn outside_order_spec(self) -> bool {
        false
    }

    open spec fn cmp_spec(self, other: Self) -> Option<Ordering> {
        if self < other {
            Some(Ordering::Less)
        } else if self == other {
            Some(Ordering::Equal)
        } else {
            Some(Ordering::Greater)
        }
    }

    proof fn lemma_cmp_properties(a: Self, b: Self, c: Self) {
    }

    fn is_outside_order(&self) -> (r: bool) {
        false
    }

    fn partial_compare(&self, other: &Self) -> (r: Option<Ordering>) {
        if *self < *other {
            Some(Ordering::Less)
        } else if *self == *other {
            Some(Ordering::Equal)
        } else {
            Some(Ordering::Greater)
        }
    }
}

impl OrdSubset for u64 {
    open spec fn outside_order_spec(self) -> bool {
        false
    }

    open spec fn cmp_spec(self, other: Self) -> Option<Ordering> {
        if self < other {
            Some(Ordering::Less)
        } else if self == other {
            Some(Ordering::Equal)
        } else {
            Some(Ordering::Greater)
        }
    }

    proof fn lemma_cmp_properties(a: Self, b: Self, c: Self) {
    }

    fn is_outside_order(&self) -> (r: bool) {
        false
    }

    fn partial_compare(&self, other: &Self) -> (r: Option<Ordering>) {
        if *self < *other {
            Some(Ordering::Less)
        } else if *self == *other {
            Some(Ordering::Equal)
        } else {
            Some(Ordering::Greater)
        }
    }
}

impl OrdSubset for i8 {
    open spec fn outside_order_spec(self) -> bool {
        false
    }

    open spec fn cmp_spec(self, other: Self) -> Option<Ordering> {
        if self < other {
            Some(Ordering::Less)
        } else if self == other {
            Some(Ordering::Equal)
        } else {
            Some(Ordering::Greater)
        }
    }

    proof fn lemma_cmp_properties(a: Self, b: Self, c: Self) {
    }

    fn is_outside_order(&self) -> (r: bool) {
        false
    }

    fn partial_compare(&self, other: &Self) -> (r: Option<Ordering>) {
        if *self < *other {
            Some(Ordering::Less)
        } else if *self == *other {
            Some(Ordering::Equal)
        } else {
            Some(Ordering::Greater)
        }
    }
}

impl OrdSubset for i16 {
    open spec fn outside_order_spec(self) -> bool {
        false
    }

    open spec fn cmp_spec(self, other: Self) -> Option<Ordering> {
        if self < other {
            Some(Ordering::Less)
        } else if self == other {
            Some(Ordering::Equal)
        } else {
            Some(Ordering::Greater)
        }
    }

    proof fn lemma_cmp_properties(a: Self, b: Self, c: Self) {
    }

    fn is_outside_order(&self) -> (r: bool) {
        false
    }

    fn partial_compare(&self, other: &Self) -> (r: Option<Ordering>) {
        if *self < *other {
            Some(Ordering::Less)
        } else if *self == *other {
            Some(Ordering::Equal)
        } else {
            Some(Ordering::Greater)
        }
    }
}

impl OrdSubset for i64 {
    open spec fn outside_order_spec(self) -> bool {
        false
    }

    open spec fn cmp_spec(self, other: Self) -> Option<Ordering> {
        if self < other {
            Some(Ordering::Less)
        } else if self == other {
            Some(Ordering::Equal)
        } else {
            Some(Ordering::Greater)
        }
    }

    proof fn lemma_cmp_properties(a: Self, b: Self, c: Self) {
    }

    fn is_outside_order(&self) -> (r: bool) {
        false
    }

    fn partial_compare(&self, other: &Self) -> (r: Option<Ordering>) {
        if *self < *other {
            Some(Ordering::Less)
        } else if *self == *other {
            Some(Ordering::Equal)
        } else {
            Some(Ordering::Greater)
        }
    }
}

impl OrdSubset for isize {
    open spec fn outside_order_spec(self) -> bool {
        false
    }

    open spec fn cmp_spec(self, other: Self) -> Option<Ordering> {
        if self < other {
            Some(Ordering::Less)
        } else if self == other {
            Some(Ordering::Equal)
        } else {
            Some(Ordering::Greater)
        }
    }

    proof fn lemma_cmp_properties(a: Self, b: Self, c: Self) {
    }

    fn is_outside_order(&self) -> (r: bool) {
        false
    }

    fn partial_compare(&self, other: &Self) -> (r: Option<Ordering>) {
        if *self < *other {
            Some(Ordering::Less)
        } else if *self == *other {
            Some(Ordering::Equal)
        } else {
            Some(Ordering::Greater)
        }
    }
}

impl OrdSubset for u8 {
    open spec fn outside_order_spec(self) -> bool {
        false
    }

    open spec fn cmp_spec(self, other: Self) -> Option<Ordering> {
        if self < other {
            Some(Ordering::Less)
        } else if self == other {
            Some(Ordering::Equal)
        } else {
            Some(Ordering::Greater)
        }
    }

    proof fn lemma_cmp_properties(a: Self, b: Self, c: Self) {
    }

    fn is_outside_order(&self) -> (r: bool) {
        false
    }

    fn partial_compare(&self, other: &Self) -> (r: Option<Ordering>) {
        if *self < *other {
            Some(Ordering::Less)
        } else if *self == *other {
            Some(Ordering::Equal)
        } else {
            Some(Ordering::Greater)
        }
    }
}

impl OrdSubset for u16 {
    open spec fn outside_order_spec(self) -> bool {
        false
    }

    open spec fn cmp_spec(self, other: Self) -> Option<Ordering> {
        if self < other {
            Some(Ordering::Less)
        } else if self == other {
            Some(Ordering::Equal)
        } else {
            Some(Ordering::Greater)
        }
    }

    proof fn lemma_cmp_properties(a: Self, b: Self, c: Self) {
    }

    fn is_outside_order(&self) -> (r: bool) {
        false
    }

    fn partial_compare(&self, other: &Self) -> (r: Option<Ordering>) {
        if *self < *other {
            Some(Ordering::Less)
        } else if *self == *other {
            Some(Ordering::Equal)
        } else {
            Some(Ordering::Greater)
        }
    }
}

impl OrdSubset for u32 {
    open spec fn outside_order_spec(self) -> bool {
        false
    }

    open spec fn cmp_spec(self, other: Self) -> Option<Ordering> {
        if self < other {
            Some(Ordering::Less)
        } else if self == other {
            Some(Ordering::Equal)
        } else {
            Some(Ordering::Greater)
        }
    }

    proof fn lemma_cmp_properties(a: Self, b: Self, c: Self) {
    }

    fn is_outside_order(&self) -> (r: bool) {
        false
    }

    fn partial_compare(&self, other: &Self) -> (r: Option<Ordering>) {
        if *self < *other {
            Some(Ordering::Less)
        } else if *self == *other {
            Some(Ordering::Equal)
        } else {
            Some(Ordering::Greater)
        }
    }
}

impl OrdSubset for usize {
    open spec fn outside_order_spec(self) -> bool {
        false
    }

    open spec fn cmp_spec(self, other: Self) -> Option<Ordering> {
        if self < other {
            Some(Ordering::Less)
        } else if self == other {
            Some(Ordering::Equal)
        } else {
            Some(Ordering::Greater)
        }
    }

    proof fn lemma_cmp_properties(a: Self, b: Self, c: Self) {
    }

    fn is_outside_order(&self) -> (r: bool) {
        false
    }

    fn partial_compare(&self, other: &Self) -> (r: Option<Ordering>) {
        if *self < *other {
            Some(Ordering::Less)
        } else if *self == *other {
            Some(Ordering::Equal)
        } else {
            Some(Ordering::Greater)
        }
    }
}

impl OrdSubset for () {
    open spec fn outside_order_spec(self) -> bool {
        false
    }

    open spec fn cmp_spec(self, other: Self) -> Option<Ordering> {
        Some(Ordering::Equal)
    }

    proof fn lemma_cmp_properties(a: Self, b: Self, c: Self) {
    }

    fn is_outside_order(&self) -> (r: bool) {
        false
    }

    fn partial_compare(&self, other: &Self) -> (r: Option<Ordering>) {
        Some(Ordering::Equal)
    }
}

impl<T: OrdSubset> OrdSubset for Option<T> {
    open spec fn outside_order_spec(self) -> bool {
        match self {
            Some(x) => x.outside_order_spec(),
            None => false,
        }
    }

    open spec fn cmp_spec(self, other: Self) -> Option<Ordering> {
        match (self, other) {
            (None, None) => Some(Ordering::Equal),
            (None, Some(b)) => if b.outside_order_spec() {
                None
            } else {
                Some(Ordering::Less)
            },
            (Some(a), None) => if a.outside_order_spec() {
                None
            } else {
                Some(Ordering::Greater)
            },
            (Some(a), Some(b)) => a.cmp_spec(b),
        }
    }

    proof fn lemma_cmp_properties(a: Self, b: Self, c: Self) {
        match (a, b, c) {
            (Some(x), Some(y), Some(z)) => {
                T::lemma_cmp_properties(x, y, z);
                T::lemma_cmp_properties(x, y, x);
            },
            (Some(x), Some(y), None) => {
                T::lemma_cmp_properties(x, y, x);
            },
            (Some(x), None, Some(z)) => {
                T::lemma_cmp_properties(x, z, x);
                T::lemma_cmp_properties(x, x, x);
            },
            (None, Some(y), Some(z)) => {
                T::lemma_cmp_properties(y, z, y);
            },
            (Some(x), None, None) => {
                T::lemma_cmp_properties(x, x, x);
            },
            (None, Some(y), None) => {
                T::lemma_cmp_properties(y, y, y);
            },
            (None, None, Some(z)) => {
                T::lemma_cmp_properties(z, z, z);
            },
            (None, None, None) => {
            },
        }
    }

    fn is_outside_order(&self) -> (r: bool) {
        match self {
            Some(x) => x.is_outside_order(),
            None => false,
        }
    }

    fn partial_compare(&self, other: &Self) -> (r: Option<Ordering>) {
        match (self, other) {
            (None, None) => Some(Ordering::Equal),
            (None, Some(b)) => if b.is_outside_order() {
                None
            } else {
                Some(Ordering::Less)
            },
            (Some(a), None) => if a.is_outside_order() {
                None
            } else {
                Some(Ordering::Greater)
            },
            (Some(a), Some(b)) => a.partial_compare(b),
        }
    }
}

impl OrdSubset for bool {
    open spec fn outside_order_spec(self) -> bool {
        false
    }

    open spec fn cmp_spec(self, other: Self) -> Option<Ordering> {
        match (self, other) {
            (false, true) => Some(Ordering::Less),
            (true, false) => Some(Ordering::Greater),
            _ => Some(Ordering::Equal),
        }
    }

    proof fn lemma_cmp_properties(a: Self, b: Self, c: Self) {
    }

    fn is_outside_order(&self) -> (r: bool) {
        false
    }

    fn partial_compare(&self, other: &Self) -> (r: Option<Ordering>) {
        match (*self, *other) {
            (false, true) => Some(Ordering::Less),
            (true, false) => Some(Ordering::Greater),
            _ => Some(Ordering::Equal),
        }
    }
}

impl OrdSubset for char {
    open spec fn outside_order_spec(self) -> bool {
        false
    }

    open spec fn cmp_spec(self, other: Self) -> Option<Ordering> {
        if (self as u32) < (other as u32) {
            Some(Ordering::Less)
        } else if (self as u32) == (other as u32) {
            Some(Ordering::Equal)
        } else {
            Some(Ordering::Greater)
        }
    }

    proof fn lemma_cmp_properties(a: Self, b: Self, c: Self) {
    }

    fn is_outside_order(&self) -> (r: bool) {
        false
    }

    fn partial_compare(&self, other: &Self) -> (r: Option<Ordering>) {
        let a = *self as u32;
        let b = *other as u32;
        if a < b {
            Some(Ordering::Less)
        } else if a == b {
            Some(Ordering::Equal)
        } else {
            Some(Ordering::Greater)
        }
    }
}

} // verus!
