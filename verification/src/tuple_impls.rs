//! The capability contract for tuples: a tuple is outside order exactly
//! when one of its components is, and in-order tuples compare
//! lexicographically.

use vstd::prelude::*;

verus! {

use core::cmp::Ordering;
use crate::ord_subset_trait::{flip_order, OrdSubset};

/// The contract's laws for one pair of in-order values, spelled out for
/// both directions.
proof fn lemma_pair_facts<T: OrdSubset>(a: T, b: T)
    requires
        !a.outside_order_spec(),
        !b.outside_order_spec(),
    ensures
        a.cmp_spec(b) is Some,
        b.cmp_spec(a) is Some,
        b.cmp_spec(a) == Some(flip_order(a.cmp_spec(b)->Some_0)),
        a.cmp_spec(a) == Some(Ordering::Equal),
        b.cmp_spec(b) == Some(Ordering::Equal),
{
    T::lemma_cmp_properties(a, b, a);
    T::lemma_cmp_properties(b, a, b);
}

/// The contract's laws for a triple of in-order values: every directed
/// comparison present, flips, and the chaining facts lexicographic
/// comparison rests on.
proof fn lemma_triple_facts<T: OrdSubset>(a: T, b: T, c: T)
    requires
        !a.outside_order_spec(),
        !b.outside_order_spec(),
        !c.outside_order_spec(),
    ensures
        a.cmp_spec(b) is Some,
        b.cmp_spec(a) is Some,
        b.cmp_spec(c) is Some,
        c.cmp_spec(b) is Some,
        a.cmp_spec(c) is Some,
        c.cmp_spec(a) is Some,
        b.cmp_spec(a) == Some(flip_order(a.cmp_spec(b)->Some_0)),
        c.cmp_spec(b) == Some(flip_order(b.cmp_spec(c)->Some_0)),
        c.cmp_spec(a) == Some(flip_order(a.cmp_spec(c)->Some_0)),
        a.cmp_spec(a) == Some(Ordering::Equal),
        b.cmp_spec(b) == Some(Ordering::Equal),
        c.cmp_spec(c) == Some(Ordering::Equal),
        a.cmp_spec(b)->Some_0 != Ordering::Greater && b.cmp_spec(c)->Some_0 != Ordering::Greater
            ==> a.cmp_spec(c)->Some_0 != Ordering::Greater,
        a.cmp_spec(b)->Some_0 == Ordering::Equal && b.cmp_spec(c)->Some_0 == Ordering::Equal
            ==> a.cmp_spec(c)->Some_0 == Ordering::Equal,
        a.cmp_spec(b)->Some_0 == Ordering::Less && b.cmp_spec(c)->Some_0 != Ordering::Greater
            ==> a.cmp_spec(c)->Some_0 == Ordering::Less,
        a.cmp_spec(b)->Some_0 != Ordering::Greater && b.cmp_spec(c)->Some_0 == Ordering::Less
            ==> a.cmp_spec(c)->Some_0 == Ordering::Less,
{
    T::lemma_cmp_properties(a, b, c);
    T::lemma_cmp_properties(b, c, a);
    T::lemma_cmp_properties(a, c, b);
    T::lemma_cmp_properties(b, a, c);
    T::lemma_cmp_properties(c, a, b);
    T::lemma_cmp_properties(c, b, a);
}

impl<A: OrdSubset> OrdSubset for (A,) {
    open spec fn outside_order_spec(self) -> bool {
        self.0.outside_order_spec()
    }

    open spec fn cmp_spec(self, other: Self) -> Option<Ordering> {
        if self.outside_order_spec() || other.outside_order_spec() {
            None
        } else {
            self.0.cmp_spec(other.0)
        }
    }

    proof fn lemma_cmp_properties(a: Self, b: Self, c: Self) {
        if !a.outside_order_spec() {
            lemma_pair_facts(a.0, a.0);
        }
        if !a.outside_order_spec() && !b.outside_order_spec() {
            lemma_pair_facts(a.0, b.0);
        }
        if !b.outside_order_spec() && !c.outside_order_spec() {
            lemma_pair_facts(b.0, c.0);
        }
        if !a.outside_order_spec() && !c.outside_order_spec() {
            lemma_pair_facts(a.0, c.0);
        }
        if !a.outside_order_spec() && !b.outside_order_spec() && !c.outside_order_spec() {
            lemma_triple_facts(a.0, b.0, c.0);
        }
    }

    fn is_outside_order(&self) -> (r: bool) {
        self.0.is_outside_order()
    }

    fn partial_compare(&self, other: &Self) -> (r: Option<Ordering>) {
        if self.is_outside_order() || other.is_outside_order() {
            None
        } else {
            self.0.partial_compare(&other.0)
        }
    }
}

impl<A: OrdSubset, B: OrdSubset> OrdSubset for (A, B) {
    open spec fn outside_order_spec(self) -> bool {
        self.0.outside_order_spec() || self.1.outside_order_spec()
    }

    open spec fn cmp_spec(self, other: Self) -> Option<Ordering> {
        if self.outside_order_spec() || other.outside_order_spec() {
            None
        } else {
            match self.0.cmp_spec(other.0) {
                Some(Ordering::Equal) => self.1.cmp_spec(other.1),
                o => o,
            }
        }
    }

    proof fn lemma_cmp_properties(a: Self, b: Self, c: Self) {
        if !a.outside_order_spec() {
            lemma_pair_facts(a.0, a.0);
            lemma_pair_facts(a.1, a.1);
        }
        if !a.outside_order_spec() && !b.outside_order_spec() {
            lemma_pair_facts(a.0, b.0);
            lemma_pair_facts(a.1, b.1);
        }
        if !b.outside_order_spec() && !c.outside_order_spec() {
            lemma_pair_facts(b.0, c.0);
            lemma_pair_facts(b.1, c.1);
        }
        if !a.outside_order_spec() && !c.outside_order_spec() {
            lemma_pair_facts(a.0, c.0);
            lemma_pair_facts(a.1, c.1);
        }
        if !a.outside_order_spec() && !b.outside_order_spec() && !c.outside_order_spec() {
            lemma_triple_facts(a.0, b.0, c.0);
            lemma_triple_facts(a.1, b.1, c.1);
        }
    }

    fn is_outside_order(&self) -> (r: bool) {
        self.0.is_outside_order() || self.1.is_outside_order()
    }

    fn partial_compare(&self, other: &Self) -> (r: Option<Ordering>) {
        if self.is_outside_order() || other.is_outside_order() {
            None
        } else {
            match self.0.partial_compare(&other.0) {
                Some(Ordering::Equal) => self.1.partial_compare(&other.1),
                o => o,
            }
        }
    }
}

impl<A: OrdSubset, B: OrdSubset, C: OrdSubset> OrdSubset for (A, B, C) {
    open spec fn outside_order_spec(self) -> bool {
        self.0.outside_order_spec() || self.1.outside_order_spec() || self.2.outside_order_spec()
    }

    open spec fn cmp_spec(self, other: Self) -> Option<Ordering> {
        if self.outside_order_spec() || other.outside_order_spec() {
            None
        } else {
            match self.0.cmp_spec(other.0) {
                Some(Ordering::Equal) => match self.1.cmp_spec(other.1) {
                Some(Ordering::Equal) => self.2.cmp_spec(other.2),
                o => o,
            },
                o => o,
            }
        }
    }

    proof fn lemma_cmp_properties(a: Self, b: Self, c: Self) {
        if !a.outside_order_spec() {
            lemma_pair_facts(a.0, a.0);
            lemma_pair_facts(a.1, a.1);
            lemma_pair_facts(a.2, a.2);
        }
        if !a.outside_order_spec() && !b.outside_order_spec() {
            lemma_pair_facts(a.0, b.0);
            lemma_pair_facts(a.1, b.1);
            lemma_pair_facts(a.2, b.2);
        }
        if !b.outside_order_spec() && !c.outside_order_spec() {
            lemma_pair_facts(b.0, c.0);
            lemma_pair_facts(b.1, c.1);
            lemma_pair_facts(b.2, c.2);
        }
        if !a.outside_order_spec() && !c.outside_order_spec() {
            lemma_pair_facts(a.0, c.0);
            lemma_pair_facts(a.1, c.1);
            lemma_pair_facts(a.2, c.2);
        }
        if !a.outside_order_spec() && !b.outside_order_spec() && !c.outside_order_spec() {
            lemma_triple_facts(a.0, b.0, c.0);
            lemma_triple_facts(a.1, b.1, c.1);
            lemma_triple_facts(a.2, b.2, c.2);
        }
    }

    fn is_outside_order(&self) -> (r: bool) {
        self.0.is_outside_order() || self.1.is_outside_order() || self.2.is_outside_order()
    }

    fn partial_compare(&self, other: &Self) -> (r: Option<Ordering>) {
        if self.is_outside_order() || other.is_outside_order() {
            None
        } else {
            match self.0.partial_compare(&other.0) {
                Some(Ordering::Equal) => match self.1.partial_compare(&other.1) {
                Some(Ordering::Equal) => self.2.partial_compare(&other.2),
                o => o,
            },
                o => o,
            }
        }
    }
}

impl<A: OrdSubset, B: OrdSubset, C: OrdSubset, D: OrdSubset> OrdSubset for (A, B, C, D) {
    open spec fn outside_order_spec(self) -> bool {
        self.0.outside_order_spec() || self.1.outside_order_spec() || self.2.outside_order_spec() || self.3.outside_order_spec()
    }

    open spec fn cmp_spec(self, other: Self) -> Option<Ordering> {
        if self.outside_order_spec() || other.outside_order_spec() {
            None
        } else {
            match self.0.cmp_spec(other.0) {
                Some(Ordering::Equal) => match self.1.cmp_spec(other.1) {
                Some(Ordering::Equal) => match self.2.cmp_spec(other.2) {
                Some(Ordering::Equal) => self.3.cmp_spec(other.3),
                o => o,
            },
                o => o,
            },
                o => o,
            }
        }
    }

    proof fn lemma_cmp_properties(a: Self, b: Self, c: Self) {
        if !a.outside_order_spec() {
            lemma_pair_facts(a.0, a.0);
            lemma_pair_facts(a.1, a.1);
            lemma_pair_facts(a.2, a.2);
            lemma_pair_facts(a.3, a.3);
        }
        if !a.outside_order_spec() && !b.outside_order_spec() {
            lemma_pair_facts(a.0, b.0);
            lemma_pair_facts(a.1, b.1);
            lemma_pair_facts(a.2, b.2);
            lemma_pair_facts(a.3, b.3);
        }
        if !b.outside_order_spec() && !c.outside_order_spec() {
            lemma_pair_facts(b.0, c.0);
            lemma_pair_facts(b.1, c.1);
            lemma_pair_facts(b.2, c.2);
            lemma_pair_facts(b.3, c.3);
        }
        if !a.outside_order_spec() && !c.outside_order_spec() {
            lemma_pair_facts(a.0, c.0);
            lemma_pair_facts(a.1, c.1);
            lemma_pair_facts(a.2, c.2);
            lemma_pair_facts(a.3, c.3);
        }
        if !a.outside_order_spec() && !b.outside_order_spec() && !c.outside_order_spec() {
            lemma_triple_facts(a.0, b.0, c.0);
            lemma_triple_facts(a.1, b.1, c.1);
            lemma_triple_facts(a.2, b.2, c.2);
            lemma_triple_facts(a.3, b.3, c.3);
        }
    }

    fn is_outside_order(&self) -> (r: bool) {
        self.0.is_outside_order() || self.1.is_outside_order() || self.2.is_outside_order() || self.3.is_outside_order()
    }

    fn partial_compare(&self, other: &Self) -> (r: Option<Ordering>) {
        if self.is_outside_order() || other.is_outside_order() {
            None
        } else {
            match self.0.partial_compare(&other.0) {
                Some(Ordering::Equal) => match self.1.partial_compare(&other.1) {
                Some(Ordering::Equal) => match self.2.partial_compare(&other.2) {
                Some(Ordering::Equal) => self.3.partial_compare(&other.3),
                o => o,
            },
                o => o,
            },
                o => o,
            }
        }
    }
}

impl<A: OrdSubset, B: OrdSubset, C: OrdSubset, D: OrdSubset, E: OrdSubset> OrdSubset for (A, B, C, D, E) {
    open spec fn outside_order_spec(self) -> bool {
        self.0.outside_order_spec() || self.1.outside_order_spec() || self.2.outside_order_spec() || self.3.outside_order_spec() || self.4.outside_order_spec()
    }

    open spec fn cmp_spec(self, other: Self) -> Option<Ordering> {
        if self.outside_order_spec() || other.outside_order_spec() {
            None
        } else {
            match self.0.cmp_spec(other.0) {
                Some(Ordering::Equal) => match self.1.cmp_spec(other.1) {
                Some(Ordering::Equal) => match self.2.cmp_spec(other.2) {
                Some(Ordering::Equal) => match self.3.cmp_spec(other.3) {
                Some(Ordering::Equal) => self.4.cmp_spec(other.4),
                o => o,
            },
                o => o,
            },
                o => o,
            },
                o => o,
            }
        }
    }

    proof fn lemma_cmp_properties(a: Self, b: Self, c: Self) {
        if !a.outside_order_spec() {
            lemma_pair_facts(a.0, a.0);
            lemma_pair_facts(a.1, a.1);
            lemma_pair_facts(a.2, a.2);
            lemma_pair_facts(a.3, a.3);
            lemma_pair_facts(a.4, a.4);
        }
        if !a.outside_order_spec() && !b.outside_order_spec() {
            lemma_pair_facts(a.0, b.0);
            lemma_pair_facts(a.1, b.1);
            lemma_pair_facts(a.2, b.2);
            lemma_pair_facts(a.3, b.3);
            lemma_pair_facts(a.4, b.4);
        }
        if !b.outside_order_spec() && !c.outside_order_spec() {
            lemma_pair_facts(b.0, c.0);
            lemma_pair_facts(b.1, c.1);
            lemma_pair_facts(b.2, c.2);
            lemma_pair_facts(b.3, c.3);
            lemma_pair_facts(b.4, c.4);
        }
        if !a.outside_order_spec() && !c.outside_order_spec() {
            lemma_pair_facts(a.0, c.0);
            lemma_pair_facts(a.1, c.1);
            lemma_pair_facts(a.2, c.2);
            lemma_pair_facts(a.3, c.3);
            lemma_pair_facts(a.4, c.4);
        }
        if !a.outside_order_spec() && !b.outside_order_spec() && !c.outside_order_spec() {
            lemma_triple_facts(a.0, b.0, c.0);
            lemma_triple_facts(a.1, b.1, c.1);
            lemma_triple_facts(a.2, b.2, c.2);
            lemma_triple_facts(a.3, b.3, c.3);
            lemma_triple_facts(a.4, b.4, c.4);
        }
    }

    fn is_outside_order(&self) -> (r: bool) {
        self.0.is_outside_order() || self.1.is_outside_order() || self.2.is_outside_order() || self.3.is_outside_order() || self.4.is_outside_order()
    }

    fn partial_compare(&self, other: &Self) -> (r: Option<Ordering>) {
        if self.is_outside_order() || other.is_outside_order() {
            None
        } else {
            match self.0.partial_compare(&other.0) {
                Some(Ordering::Equal) => match self.1.partial_compare(&other.1) {
                Some(Ordering::Equal) => match self.2.partial_compare(&other.2) {
                Some(Ordering::Equal) => match self.3.partial_compare(&other.3) {
                Some(Ordering::Equal) => self.4.partial_compare(&other.4),
                o => o,
            },
                o => o,
            },
                o => o,
            },
                o => o,
            }
        }
    }
}

impl<A: OrdSubset, B: OrdSubset, C: OrdSubset, D: OrdSubset, E: OrdSubset, F: OrdSubset> OrdSubset for (A, B, C, D, E, F) {
    open spec fn outside_order_spec(self) -> bool {
        self.0.outside_order_spec() || self.1.outside_order_spec() || self.2.outside_order_spec() || self.3.outside_order_spec() || self.4.outside_order_spec() || self.5.outside_order_spec()
    }

    open spec fn cmp_spec(self, other: Self) -> Option<Ordering> {
        if self.outside_order_spec() || other.outside_order_spec() {
            None
        } else {
            match self.0.cmp_spec(other.0) {
                Some(Ordering::Equal) => match self.1.cmp_spec(other.1) {
                Some(Ordering::Equal) => match self.2.cmp_spec(other.2) {
                Some(Ordering::Equal) => match self.3.cmp_spec(other.3) {
                Some(Ordering::Equal) => match self.4.cmp_spec(other.4) {
                Some(Ordering::Equal) => self.5.cmp_spec(other.5),
                o => o,
            },
                o => o,
            },
                o => o,
            },
                o => o,
            },
                o => o,
            }
        }
    }

    proof fn lemma_cmp_properties(a: Self, b: Self, c: Self) {
        if !a.outside_order_spec() {
            lemma_pair_facts(a.0, a.0);
            lemma_pair_facts(a.1, a.1);
            lemma_pair_facts(a.2, a.2);
            lemma_pair_facts(a.3, a.3);
            lemma_pair_facts(a.4, a.4);
            lemma_pair_facts(a.5, a.5);
        }
        if !a.outside_order_spec() && !b.outside_order_spec() {
            lemma_pair_facts(a.0, b.0);
            lemma_pair_facts(a.1, b.1);
            lemma_pair_facts(a.2, b.2);
            lemma_pair_facts(a.3, b.3);
            lemma_pair_facts(a.4, b.4);
            lemma_pair_facts(a.5, b.5);
        }
        if !b.outside_order_spec() && !c.outside_order_spec() {
            lemma_pair_facts(b.0, c.0);
            lemma_pair_facts(b.1, c.1);
            lemma_pair_facts(b.2, c.2);
            lemma_pair_facts(b.3, c.3);
            lemma_pair_facts(b.4, c.4);
            lemma_pair_facts(b.5, c.5);
        }
        if !a.outside_order_spec() && !c.outside_order_spec() {
            lemma_pair_facts(a.0, c.0);
            lemma_pair_facts(a.1, c.1);
            lemma_pair_facts(a.2, c.2);
            lemma_pair_facts(a.3, c.3);
            lemma_pair_facts(a.4, c.4);
            lemma_pair_facts(a.5, c.5);
        }
        if !a.outside_order_spec() && !b.outside_order_spec() && !c.outside_order_spec() {
            lemma_triple_facts(a.0, b.0, c.0);
            lemma_triple_facts(a.1, b.1, c.1);
            lemma_triple_facts(a.2, b.2, c.2);
            lemma_triple_facts(a.3, b.3, c.3);
            lemma_triple_facts(a.4, b.4, c.4);
            lemma_triple_facts(a.5, b.5, c.5);
        }
    }

    fn is_outside_order(&self) -> (r: bool) {
        self.0.is_outside_order() || self.1.is_outside_order() || self.2.is_outside_order() || self.3.is_outside_order() || self.4.is_outside_order() || self.5.is_outside_order()
    }

    fn partial_compare(&self, other: &Self) -> (r: Option<Ordering>) {
        if self.is_outside_order() || other.is_outside_order() {
            None
        } else {
            match self.0.partial_compare(&other.0) {
                Some(Ordering::Equal) => match self.1.partial_compare(&other.1) {
                Some(Ordering::Equal) => match self.2.partial_compare(&other.2) {
                Some(Ordering::Equal) => match self.3.partial_compare(&other.3) {
                Some(Ordering::Equal) => match self.4.partial_compare(&other.4) {
                Some(Ordering::Equal) => self.5.partial_compare(&other.5),
                o => o,
            },
                o => o,
            },
                o => o,
            },
                o => o,
            },
                o => o,
            }
        }
    }
}

impl<A: OrdSubset, B: OrdSubset, C: OrdSubset, D: OrdSubset, E: OrdSubset, F: OrdSubset, G: OrdSubset> OrdSubset for (A, B, C, D, E, F, G) {
    open spec fn outside_order_spec(self) -> bool {
        self.0.outside_order_spec() || self.1.outside_order_spec() || self.2.outside_order_spec() || self.3.outside_order_spec() || self.4.outside_order_spec() || self.5.outside_order_spec() || self.6.outside_order_spec()
    }

    open spec fn cmp_spec(self, other: Self) -> Option<Ordering> {
        if self.outside_order_spec() || other.outside_order_spec() {
            None
        } else {
            match self.0.cmp_spec(other.0) {
                Some(Ordering::Equal) => match self.1.cmp_spec(other.1) {
                Some(Ordering::Equal) => match self.2.cmp_spec(other.2) {
                Some(Ordering::Equal) => match self.3.cmp_spec(other.3) {
                Some(Ordering::Equal) => match self.4.cmp_spec(other.4) {
                Some(Ordering::Equal) => match self.5.cmp_spec(other.5) {
                Some(Ordering::Equal) => self.6.cmp_spec(other.6),
                o => o,
            },
                o => o,
            },
                o => o,
            },
                o => o,
            },
                o => o,
            },
                o => o,
            }
        }
    }

    proof fn lemma_cmp_properties(a: Self, b: Self, c: Self) {
        if !a.outside_order_spec() {
            lemma_pair_facts(a.0, a.0);
            lemma_pair_facts(a.1, a.1);
            lemma_pair_facts(a.2, a.2);
            lemma_pair_facts(a.3, a.3);
            lemma_pair_facts(a.4, a.4);
            lemma_pair_facts(a.5, a.5);
            lemma_pair_facts(a.6, a.6);
        }
        if !a.outside_order_spec() && !b.outside_order_spec() {
            lemma_pair_facts(a.0, b.0);
            lemma_pair_facts(a.1, b.1);
            lemma_pair_facts(a.2, b.2);
            lemma_pair_facts(a.3, b.3);
            lemma_pair_facts(a.4, b.4);
            lemma_pair_facts(a.5, b.5);
            lemma_pair_facts(a.6, b.6);
        }
        if !b.outside_order_spec() && !c.outside_order_spec() {
            lemma_pair_facts(b.0, c.0);
            lemma_pair_facts(b.1, c.1);
            lemma_pair_facts(b.2, c.2);
            lemma_pair_facts(b.3, c.3);
            lemma_pair_facts(b.4, c.4);
            lemma_pair_facts(b.5, c.5);
            lemma_pair_facts(b.6, c.6);
        }
        if !a.outside_order_spec() && !c.outside_order_spec() {
            lemma_pair_facts(a.0, c.0);
            lemma_pair_facts(a.1, c.1);
            lemma_pair_facts(a.2, c.2);
            lemma_pair_facts(a.3, c.3);
            lemma_pair_facts(a.4, c.4);
            lemma_pair_facts(a.5, c.5);
            lemma_pair_facts(a.6, c.6);
        }
        if !a.outside_order_spec() && !b.outside_order_spec() && !c.outside_order_spec() {
            lemma_triple_facts(a.0, b.0, c.0);
            lemma_triple_facts(a.1, b.1, c.1);
            lemma_triple_facts(a.2, b.2, c.2);
            lemma_triple_facts(a.3, b.3, c.3);
            lemma_triple_facts(a.4, b.4, c.4);
            lemma_triple_facts(a.5, b.5, c.5);
            lemma_triple_facts(a.6, b.6, c.6);
        }
    }

    fn is_outside_order(&self) -> (r: bool) {
        self.0.is_outside_order() || self.1.is_outside_order() || self.2.is_outside_order() || self.3.is_outside_order() || self.4.is_outside_order() || self.5.is_outside_order() || self.6.is_outside_order()
    }

    fn partial_compare(&self, other: &Self) -> (r: Option<Ordering>) {
        if self.is_outside_order() || other.is_outside_order() {
            None
        } else {
            match self.0.partial_compare(&other.0) {
                Some(Ordering::Equal) => match self.1.partial_compare(&other.1) {
                Some(Ordering::Equal) => match self.2.partial_compare(&other.2) {
                Some(Ordering::Equal) => match self.3.partial_compare(&other.3) {
                Some(Ordering::Equal) => match self.4.partial_compare(&other.4) {
                Some(Ordering::Equal) => match self.5.partial_compare(&other.5) {
                Some(Ordering::Equal) => self.6.partial_compare(&other.6),
                o => o,
            },
                o => o,
            },
                o => o,
            },
                o => o,
            },
                o => o,
            },
                o => o,
            }
        }
    }
}

impl<A: OrdSubset, B: OrdSubset, C: OrdSubset, D: OrdSubset, E: OrdSubset, F: OrdSubset, G: OrdSubset, H: OrdSubset> OrdSubset for (A, B, C, D, E, F, G, H) {
    open spec fn outside_order_spec(self) -> bool {
        self.0.outside_order_spec() || self.1.outside_order_spec() || self.2.outside_order_spec() || self.3.outside_order_spec() || self.4.outside_order_spec() || self.5.outside_order_spec() || self.6.outside_order_spec() || self.7.outside_order_spec()
    }

    open spec fn cmp_spec(self, other: Self) -> Option<Ordering> {
        if self.outside_order_spec() || other.outside_order_spec() {
            None
        } else {
            match self.0.cmp_spec(other.0) {
                Some(Ordering::Equal) => match self.1.cmp_spec(other.1) {
                Some(Ordering::Equal) => match self.2.cmp_spec(other.2) {
                Some(Ordering::Equal) => match self.3.cmp_spec(other.3) {
                Some(Ordering::Equal) => match self.4.cmp_spec(other.4) {
                Some(Ordering::Equal) => match self.5.cmp_spec(other.5) {
                Some(Ordering::Equal) => match self.6.cmp_spec(other.6) {
                Some(Ordering::Equal) => self.7.cmp_spec(other.7),
                o => o,
            },
                o => o,
            },
                o => o,
            },
                o => o,
            },
                o => o,
            },
                o => o,
            },
                o => o,
            }
        }
    }

    #[verifier::rlimit(60)]
    proof fn lemma_cmp_properties(a: Self, b: Self, c: Self) {
        if !a.outside_order_spec() {
            lemma_pair_facts(a.0, a.0);
            lemma_pair_facts(a.1, a.1);
            lemma_pair_facts(a.2, a.2);
            lemma_pair_facts(a.3, a.3);
            lemma_pair_facts(a.4, a.4);
            lemma_pair_facts(a.5, a.5);
            lemma_pair_facts(a.6, a.6);
            lemma_pair_facts(a.7, a.7);
        }
        if !a.outside_order_spec() && !b.outside_order_spec() {
            lemma_pair_facts(a.0, b.0);
            lemma_pair_facts(a.1, b.1);
            lemma_pair_facts(a.2, b.2);
            lemma_pair_facts(a.3, b.3);
            lemma_pair_facts(a.4, b.4);
            lemma_pair_facts(a.5, b.5);
            lemma_pair_facts(a.6, b.6);
            lemma_pair_facts(a.7, b.7);
        }
        if !b.outside_order_spec() && !c.outside_order_spec() {
            lemma_pair_facts(b.0, c.0);
            lemma_pair_facts(b.1, c.1);
            lemma_pair_facts(b.2, c.2);
            lemma_pair_facts(b.3, c.3);
            lemma_pair_facts(b.4, c.4);
            lemma_pair_facts(b.5, c.5);
            lemma_pair_facts(b.6, c.6);
            lemma_pair_facts(b.7, c.7);
        }
        if !a.outside_order_spec() && !c.outside_order_spec() {
            lemma_pair_facts(a.0, c.0);
            lemma_pair_facts(a.1, c.1);
            lemma_pair_facts(a.2, c.2);
            lemma_pair_facts(a.3, c.3);
            lemma_pair_facts(a.4, c.4);
            lemma_pair_facts(a.5, c.5);
            lemma_pair_facts(a.6, c.6);
            lemma_pair_facts(a.7, c.7);
        }
        if !a.outside_order_spec() && !b.outside_order_spec() && !c.outside_order_spec() {
            lemma_triple_facts(a.0, b.0, c.0);
            lemma_triple_facts(a.1, b.1, c.1);
            lemma_triple_facts(a.2, b.2, c.2);
            lemma_triple_facts(a.3, b.3, c.3);
            lemma_triple_facts(a.4, b.4, c.4);
            lemma_triple_facts(a.5, b.5, c.5);
            lemma_triple_facts(a.6, b.6, c.6);
            lemma_triple_facts(a.7, b.7, c.7);
        }
    }

    fn is_outside_order(&self) -> (r: bool) {
        self.0.is_outside_order() || self.1.is_outside_order() || self.2.is_outside_order() || self.3.is_outside_order() || self.4.is_outside_order() || self.5.is_outside_order() || self.6.is_outside_order() || self.7.is_outside_order()
    }

    fn partial_compare(&self, other: &Self) -> (r: Option<Ordering>) {
        if self.is_outside_order() || other.is_outside_order() {
            None
        } else {
            match self.0.partial_compare(&other.0) {
                Some(Ordering::Equal) => match self.1.partial_compare(&other.1) {
                Some(Ordering::Equal) => match self.2.partial_compare(&other.2) {
                Some(Ordering::Equal) => match self.3.partial_compare(&other.3) {
                Some(Ordering::Equal) => match self.4.partial_compare(&other.4) {
                Some(Ordering::Equal) => match self.5.partial_compare(&other.5) {
                Some(Ordering::Equal) => match self.6.partial_compare(&other.6) {
                Some(Ordering::Equal) => self.7.partial_compare(&other.7),
                o => o,
            },
                o => o,
            },
                o => o,
            },
                o => o,
            },
                o => o,
            },
                o => o,
            },
                o => o,
            }
        }
    }
}

impl<A: OrdSubset, B: OrdSubset, C: OrdSubset, D: OrdSubset, E: OrdSubset, F: OrdSubset, G: OrdSubset, H: OrdSubset, I: OrdSubset> OrdSubset for (A, B, C, D, E, F, G, H, I) {
    open spec fn outside_order_spec(self) -> bool {
        self.0.outside_order_spec() || self.1.outside_order_spec() || self.2.outside_order_spec() || self.3.outside_order_spec() || self.4.outside_order_spec() || self.5.outside_order_spec() || self.6.outside_order_spec() || self.7.outside_order_spec() || self.8.outside_order_spec()
    }

    open spec fn cmp_spec(self, other: Self) -> Option<Ordering> {
        if self.outside_order_spec() || other.outside_order_spec() {
            None
        } else {
            match self.0.cmp_spec(other.0) {
                Some(Ordering::Equal) => match self.1.cmp_spec(other.1) {
                Some(Ordering::Equal) => match self.2.cmp_spec(other.2) {
                Some(Ordering::Equal) => match self.3.cmp_spec(other.3) {
                Some(Ordering::Equal) => match self.4.cmp_spec(other.4) {
                Some(Ordering::Equal) => match self.5.cmp_spec(other.5) {
                Some(Ordering::Equal) => match self.6.cmp_spec(other.6) {
                Some(Ordering::Equal) => match self.7.cmp_spec(other.7) {
                Some(Ordering::Equal) => self.8.cmp_spec(other.8),
                o => o,
            },
                o => o,
            },
                o => o,
            },
                o => o,
            },
                o => o,
            },
                o => o,
            },
                o => o,
            },
                o => o,
            }
        }
    }

    #[verifier::rlimit(60)]
    proof fn lemma_cmp_properties(a: Self, b: Self, c: Self) {
        if !a.outside_order_spec() {
            lemma_pair_facts(a.0, a.0);
            lemma_pair_facts(a.1, a.1);
            lemma_pair_facts(a.2, a.2);
            lemma_pair_facts(a.3, a.3);
            lemma_pair_facts(a.4, a.4);
            lemma_pair_facts(a.5, a.5);
            lemma_pair_facts(a.6, a.6);
            lemma_pair_facts(a.7, a.7);
            lemma_pair_facts(a.8, a.8);
        }
        if !a.outside_order_spec() && !b.outside_order_spec() {
            lemma_pair_facts(a.0, b.0);
            lemma_pair_facts(a.1, b.1);
            lemma_pair_facts(a.2, b.2);
            lemma_pair_facts(a.3, b.3);
            lemma_pair_facts(a.4, b.4);
            lemma_pair_facts(a.5, b.5);
            lemma_pair_facts(a.6, b.6);
            lemma_pair_facts(a.7, b.7);
            lemma_pair_facts(a.8, b.8);
        }
        if !b.outside_order_spec() && !c.outside_order_spec() {
            lemma_pair_facts(b.0, c.0);
            lemma_pair_facts(b.1, c.1);
            lemma_pair_facts(b.2, c.2);
            lemma_pair_facts(b.3, c.3);
            lemma_pair_facts(b.4, c.4);
            lemma_pair_facts(b.5, c.5);
            lemma_pair_facts(b.6, c.6);
            lemma_pair_facts(b.7, c.7);
            lemma_pair_facts(b.8, c.8);
        }
        if !a.outside_order_spec() && !c.outside_order_spec() {
            lemma_pair_facts(a.0, c.0);
            lemma_pair_facts(a.1, c.1);
            lemma_pair_facts(a.2, c.2);
            lemma_pair_facts(a.3, c.3);
            lemma_pair_facts(a.4, c.4);
            lemma_pair_facts(a.5, c.5);
            lemma_pair_facts(a.6, c.6);
            lemma_pair_facts(a.7, c.7);
            lemma_pair_facts(a.8, c.8);
        }
        if !a.outside_order_spec() && !b.outside_order_spec() && !c.outside_order_spec() {
            lemma_triple_facts(a.0, b.0, c.0);
            lemma_triple_facts(a.1, b.1, c.1);
            lemma_triple_facts(a.2, b.2, c.2);
            lemma_triple_facts(a.3, b.3, c.3);
            lemma_triple_facts(a.4, b.4, c.4);
            lemma_triple_facts(a.5, b.5, c.5);
            lemma_triple_facts(a.6, b.6, c.6);
            lemma_triple_facts(a.7, b.7, c.7);
            lemma_triple_facts(a.8, b.8, c.8);
        }
    }

    fn is_outside_order(&self) -> (r: bool) {
        self.0.is_outside_order() || self.1.is_outside_order() || self.2.is_outside_order() || self.3.is_outside_order() || self.4.is_outside_order() || self.5.is_outside_order() || self.6.is_outside_order() || self.7.is_outside_order() || self.8.is_outside_order()
    }

    fn partial_compare(&self, other: &Self) -> (r: Option<Ordering>) {
        if self.is_outside_order() || other.is_outside_order() {
            None
        } else {
            match self.0.partial_compare(&other.0) {
                Some(Ordering::Equal) => match self.1.partial_compare(&other.1) {
                Some(Ordering::Equal) => match self.2.partial_compare(&other.2) {
                Some(Ordering::Equal) => match self.3.partial_compare(&other.3) {
                Some(Ordering::Equal) => match self.4.partial_compare(&other.4) {
                Some(Ordering::Equal) => match self.5.partial_compare(&other.5) {
                Some(Ordering::Equal) => match self.6.partial_compare(&other.6) {
                Some(Ordering::Equal) => match self.7.partial_compare(&other.7) {
                Some(Ordering::Equal) => self.8.partial_compare(&other.8),
                o => o,
            },
                o => o,
            },
                o => o,
            },
                o => o,
            },
                o => o,
            },
                o => o,
            },
                o => o,
            },
                o => o,
            }
        }
    }
}

impl<A: OrdSubset, B: OrdSubset, C: OrdSubset, D: OrdSubset, E: OrdSubset, F: OrdSubset, G: OrdSubset, H: OrdSubset, I: OrdSubset, J: OrdSubset> OrdSubset for (A, B, C, D, E, F, G, H, I, J) {
    open spec fn outside_order_spec(self) -> bool {
        self.0.outside_order_spec() || self.1.outside_order_spec() || self.2.outside_order_spec() || self.3.outside_order_spec() || self.4.outside_order_spec() || self.5.outside_order_spec() || self.6.outside_order_spec() || self.7.outside_order_spec() || self.8.outside_order_spec() || self.9.outside_order_spec()
    }

    open spec fn cmp_spec(self, other: Self) -> Option<Ordering> {
        if self.outside_order_spec() || other.outside_order_spec() {
            None
        } else {
            match self.0.cmp_spec(other.0) {
                Some(Ordering::Equal) => match self.1.cmp_spec(other.1) {
                Some(Ordering::Equal) => match self.2.cmp_spec(other.2) {
                Some(Ordering::Equal) => match self.3.cmp_spec(other.3) {
                Some(Ordering::Equal) => match self.4.cmp_spec(other.4) {
                Some(Ordering::Equal) => match self.5.cmp_spec(other.5) {
                Some(Ordering::Equal) => match self.6.cmp_spec(other.6) {
                Some(Ordering::Equal) => match self.7.cmp_spec(other.7) {
                Some(Ordering::Equal) => match self.8.cmp_spec(other.8) {
                Some(Ordering::Equal) => self.9.cmp_spec(other.9),
                o => o,
            },
                o => o,
            },
                o => o,
            },
                o => o,
            },
                o => o,
            },
                o => o,
            },
                o => o,
            },
                o => o,
            },
                o => o,
            }
        }
    }

    #[verifier::rlimit(60)]
    proof fn lemma_cmp_properties(a: Self, b: Self, c: Self) {
        if !a.outside_order_spec() {
            lemma_pair_facts(a.0, a.0);
            lemma_pair_facts(a.1, a.1);
            lemma_pair_facts(a.2, a.2);
            lemma_pair_facts(a.3, a.3);
            lemma_pair_facts(a.4, a.4);
            lemma_pair_facts(a.5, a.5);
            lemma_pair_facts(a.6, a.6);
            lemma_pair_facts(a.7, a.7);
            lemma_pair_facts(a.8, a.8);
            lemma_pair_facts(a.9, a.9);
        }
        if !a.outside_order_spec() && !b.outside_order_spec() {
            lemma_pair_facts(a.0, b.0);
            lemma_pair_facts(a.1, b.1);
            lemma_pair_facts(a.2, b.2);
            lemma_pair_facts(a.3, b.3);
            lemma_pair_facts(a.4, b.4);
            lemma_pair_facts(a.5, b.5);
            lemma_pair_facts(a.6, b.6);
            lemma_pair_facts(a.7, b.7);
            lemma_pair_facts(a.8, b.8);
            lemma_pair_facts(a.9, b.9);
        }
        if !b.outside_order_spec() && !c.outside_order_spec() {
            lemma_pair_facts(b.0, c.0);
            lemma_pair_facts(b.1, c.1);
            lemma_pair_facts(b.2, c.2);
            lemma_pair_facts(b.3, c.3);
            lemma_pair_facts(b.4, c.4);
            lemma_pair_facts(b.5, c.5);
            lemma_pair_facts(b.6, c.6);
            lemma_pair_facts(b.7, c.7);
            lemma_pair_facts(b.8, c.8);
            lemma_pair_facts(b.9, c.9);
        }
        if !a.outside_order_spec() && !c.outside_order_spec() {
            lemma_pair_facts(a.0, c.0);
            lemma_pair_facts(a.1, c.1);
            lemma_pair_facts(a.2, c.2);
            lemma_pair_facts(a.3, c.3);
            lemma_pair_facts(a.4, c.4);
            lemma_pair_facts(a.5, c.5);
            lemma_pair_facts(a.6, c.6);
            lemma_pair_facts(a.7, c.7);
            lemma_pair_facts(a.8, c.8);
            lemma_pair_facts(a.9, c.9);
        }
        if !a.outside_order_spec() && !b.outside_order_spec() && !c.outside_order_spec() {
            lemma_triple_facts(a.0, b.0, c.0);
            lemma_triple_facts(a.1, b.1, c.1);
            lemma_triple_facts(a.2, b.2, c.2);
            lemma_triple_facts(a.3, b.3, c.3);
            lemma_triple_facts(a.4, b.4, c.4);
            lemma_triple_facts(a.5, b.5, c.5);
            lemma_triple_facts(a.6, b.6, c.6);
            lemma_triple_facts(a.7, b.7, c.7);
            lemma_triple_facts(a.8, b.8, c.8);
            lemma_triple_facts(a.9, b.9, c.9);
        }
    }

    fn is_outside_order(&self) -> (r: bool) {
        self.0.is_outside_order() || self.1.is_outside_order() || self.2.is_outside_order() || self.3.is_outside_order() || self.4.is_outside_order() || self.5.is_outside_order() || self.6.is_outside_order() || self.7.is_outside_order() || self.8.is_outside_order() || self.9.is_outside_order()
    }

    fn partial_compare(&self, other: &Self) -> (r: Option<Ordering>) {
        if self.is_outside_order() || other.is_outside_order() {
            None
        } else {
            match self.0.partial_compare(&other.0) {
                Some(Ordering::Equal) => match self.1.partial_compare(&other.1) {
                Some(Ordering::Equal) => match self.2.partial_compare(&other.2) {
                Some(Ordering::Equal) => match self.3.partial_compare(&other.3) {
                Some(Ordering::Equal) => match self.4.partial_compare(&other.4) {
                Some(Ordering::Equal) => match self.5.partial_compare(&other.5) {
                Some(Ordering::Equal) => match self.6.partial_compare(&other.6) {
                Some(Ordering::Equal) => match self.7.partial_compare(&other.7) {
                Some(Ordering::Equal) => match self.8.partial_compare(&other.8) {
                Some(Ordering::Equal) => self.9.partial_compare(&other.9),
                o => o,
            },
                o => o,
            },
                o => o,
            },
                o => o,
            },
                o => o,
            },
                o => o,
            },
                o => o,
            },
                o => o,
            },
                o => o,
            }
        }
    }
}

impl<A: OrdSubset, B: OrdSubset, C: OrdSubset, D: OrdSubset, E: OrdSubset, F: OrdSubset, G: OrdSubset, H: OrdSubset, I: OrdSubset, J: OrdSubset, K: OrdSubset> OrdSubset for (A, B, C, D, E, F, G, H, I, J, K) {
    open spec fn outside_order_spec(self) -> bool {
        self.0.outside_order_spec() || self.1.outside_order_spec() || self.2.outside_order_spec() || self.3.outside_order_spec() || self.4.outside_order_spec() || self.5.outside_order_spec() || self.6.outside_order_spec() || self.7.outside_order_spec() || self.8.outside_order_spec() || self.9.outside_order_spec() || self.10.outside_order_spec()
    }

    open spec fn cmp_spec(self, other: Self) -> Option<Ordering> {
        if self.outside_order_spec() || other.outside_order_spec() {
            None
        } else {
            match self.0.cmp_spec(other.0) {
                Some(Ordering::Equal) => match self.1.cmp_spec(other.1) {
                Some(Ordering::Equal) => match self.2.cmp_spec(other.2) {
                Some(Ordering::Equal) => match self.3.cmp_spec(other.3) {
                Some(Ordering::Equal) => match self.4.cmp_spec(other.4) {
                Some(Ordering::Equal) => match self.5.cmp_spec(other.5) {
                Some(Ordering::Equal) => match self.6.cmp_spec(other.6) {
                Some(Ordering::Equal) => match self.7.cmp_spec(other.7) {
                Some(Ordering::Equal) => match self.8.cmp_spec(other.8) {
                Some(Ordering::Equal) => match self.9.cmp_spec(other.9) {
                Some(Ordering::Equal) => self.10.cmp_spec(other.10),
                o => o,
            },
                o => o,
            },
                o => o,
            },
                o => o,
            },
                o => o,
            },
                o => o,
            },
                o => o,
            },
                o => o,
            },
                o => o,
            },
                o => o,
            }
        }
    }

    #[verifier::rlimit(60)]
    proof fn lemma_cmp_properties(a: Self, b: Self, c: Self) {
        if !a.outside_order_spec() {
            lemma_pair_facts(a.0, a.0);
            lemma_pair_facts(a.1, a.1);
            lemma_pair_facts(a.2, a.2);
            lemma_pair_facts(a.3, a.3);
            lemma_pair_facts(a.4, a.4);
            lemma_pair_facts(a.5, a.5);
            lemma_pair_facts(a.6, a.6);
            lemma_pair_facts(a.7, a.7);
            lemma_pair_facts(a.8, a.8);
            lemma_pair_facts(a.9, a.9);
            lemma_pair_facts(a.10, a.10);
        }
        if !a.outside_order_spec() && !b.outside_order_spec() {
            lemma_pair_facts(a.0, b.0);
            lemma_pair_facts(a.1, b.1);
            lemma_pair_facts(a.2, b.2);
            lemma_pair_facts(a.3, b.3);
            lemma_pair_facts(a.4, b.4);
            lemma_pair_facts(a.5, b.5);
            lemma_pair_facts(a.6, b.6);
            lemma_pair_facts(a.7, b.7);
            lemma_pair_facts(a.8, b.8);
            lemma_pair_facts(a.9, b.9);
            lemma_pair_facts(a.10, b.10);
        }
        if !b.outside_order_spec() && !c.outside_order_spec() {
            lemma_pair_facts(b.0, c.0);
            lemma_pair_facts(b.1, c.1);
            lemma_pair_facts(b.2, c.2);
            lemma_pair_facts(b.3, c.3);
            lemma_pair_facts(b.4, c.4);
            lemma_pair_facts(b.5, c.5);
            lemma_pair_facts(b.6, c.6);
            lemma_pair_facts(b.7, c.7);
            lemma_pair_facts(b.8, c.8);
            lemma_pair_facts(b.9, c.9);
            lemma_pair_facts(b.10, c.10);
        }
        if !a.outside_order_spec() && !c.outside_order_spec() {
            lemma_pair_facts(a.0, c.0);
            lemma_pair_facts(a.1, c.1);
            lemma_pair_facts(a.2, c.2);
            lemma_pair_facts(a.3, c.3);
            lemma_pair_facts(a.4, c.4);
            lemma_pair_facts(a.5, c.5);
            lemma_pair_facts(a.6, c.6);
            lemma_pair_facts(a.7, c.7);
            lemma_pair_facts(a.8, c.8);
            lemma_pair_facts(a.9, c.9);
            lemma_pair_facts(a.10, c.10);
        }
        if !a.outside_order_spec() && !b.outside_order_spec() && !c.outside_order_spec() {
            lemma_triple_facts(a.0, b.0, c.0);
            lemma_triple_facts(a.1, b.1, c.1);
            lemma_triple_facts(a.2, b.2, c.2);
            lemma_triple_facts(a.3, b.3, c.3);
            lemma_triple_facts(a.4, b.4, c.4);
            lemma_triple_facts(a.5, b.5, c.5);
            lemma_triple_facts(a.6, b.6, c.6);
            lemma_triple_facts(a.7, b.7, c.7);
            lemma_triple_facts(a.8, b.8, c.8);
            lemma_triple_facts(a.9, b.9, c.9);
            lemma_triple_facts(a.10, b.10, c.10);
        }
    }

    fn is_outside_order(&self) -> (r: bool) {
        self.0.is_outside_order() || self.1.is_outside_order() || self.2.is_outside_order() || self.3.is_outside_order() || self.4.is_outside_order() || self.5.is_outside_order() || self.6.is_outside_order() || self.7.is_outside_order() || self.8.is_outside_order() || self.9.is_outside_order() || self.10.is_outside_order()
    }

    fn partial_compare(&self, other: &Self) -> (r: Option<Ordering>) {
        if self.is_outside_order() || other.is_outside_order() {
            None
        } else {
            match self.0.partial_compare(&other.0) {
                Some(Ordering::Equal) => match self.1.partial_compare(&other.1) {
                Some(Ordering::Equal) => match self.2.partial_compare(&other.2) {
                Some(Ordering::Equal) => match self.3.partial_compare(&other.3) {
                Some(Ordering::Equal) => match self.4.partial_compare(&other.4) {
                Some(Ordering::Equal) => match self.5.partial_compare(&other.5) {
                Some(Ordering::Equal) => match self.6.partial_compare(&other.6) {
                Some(Ordering::Equal) => match self.7.partial_compare(&other.7) {
                Some(Ordering::Equal) => match self.8.partial_compare(&other.8) {
                Some(Ordering::Equal) => match self.9.partial_compare(&other.9) {
                Some(Ordering::Equal) => self.10.partial_compare(&other.10),
                o => o,
            },
                o => o,
            },
                o => o,
            },
                o => o,
            },
                o => o,
            },
                o => o,
            },
                o => o,
            },
                o => o,
            },
                o => o,
            },
                o => o,
            }
        }
    }
}

impl<A: OrdSubset, B: OrdSubset, C: OrdSubset, D: OrdSubset, E: OrdSubset, F: OrdSubset, G: OrdSubset, H: OrdSubset, I: OrdSubset, J: OrdSubset, K: OrdSubset, L: OrdSubset> OrdSubset for (A, B, C, D, E, F, G, H, I, J, K, L) {
    open spec fn outside_order_spec(self) -> bool {
        self.0.outside_order_spec() || self.1.outside_order_spec() || self.2.outside_order_spec() || self.3.outside_order_spec() || self.4.outside_order_spec() || self.5.outside_order_spec() || self.6.outside_order_spec() || self.7.outside_order_spec() || self.8.outside_order_spec() || self.9.outside_order_spec() || self.10.outside_order_spec() || self.11.outside_order_spec()
    }

    open spec fn cmp_spec(self, other: Self) -> Option<Ordering> {
        if self.outside_order_spec() || other.outside_order_spec() {
            None
        } else {
            match self.0.cmp_spec(other.0) {
                Some(Ordering::Equal) => match self.1.cmp_spec(other.1) {
                Some(Ordering::Equal) => match self.2.cmp_spec(other.2) {
                Some(Ordering::Equal) => match self.3.cmp_spec(other.3) {
                Some(Ordering::Equal) => match self.4.cmp_spec(other.4) {
                Some(Ordering::Equal) => match self.5.cmp_spec(other.5) {
                Some(Ordering::Equal) => match self.6.cmp_spec(other.6) {
                Some(Ordering::Equal) => match self.7.cmp_spec(other.7) {
                Some(Ordering::Equal) => match self.8.cmp_spec(other.8) {
                Some(Ordering::Equal) => match self.9.cmp_spec(other.9) {
                Some(Ordering::Equal) => match self.10.cmp_spec(other.10) {
                Some(Ordering::Equal) => self.11.cmp_spec(other.11),
                o => o,
            },
                o => o,
            },
                o => o,
            },
                o => o,
            },
                o => o,
            },
                o => o,
            },
                o => o,
            },
                o => o,
            },
                o => o,
            },
                o => o,
            },
                o => o,
            }
        }
    }

    #[verifier::rlimit(60)]
    proof fn lemma_cmp_properties(a: Self, b: Self, c: Self) {
        if !a.outside_order_spec() {
            lemma_pair_facts(a.0, a.0);
            lemma_pair_facts(a.1, a.1);
            lemma_pair_facts(a.2, a.2);
            lemma_pair_facts(a.3, a.3);
            lemma_pair_facts(a.4, a.4);
            lemma_pair_facts(a.5, a.5);
            lemma_pair_facts(a.6, a.6);
            lemma_pair_facts(a.7, a.7);
            lemma_pair_facts(a.8, a.8);
            lemma_pair_facts(a.9, a.9);
            lemma_pair_facts(a.10, a.10);
            lemma_pair_facts(a.11, a.11);
        }
        if !a.outside_order_spec() && !b.outside_order_spec() {
            lemma_pair_facts(a.0, b.0);
            lemma_pair_facts(a.1, b.1);
            lemma_pair_facts(a.2, b.2);
            lemma_pair_facts(a.3, b.3);
            lemma_pair_facts(a.4, b.4);
            lemma_pair_facts(a.5, b.5);
            lemma_pair_facts(a.6, b.6);
            lemma_pair_facts(a.7, b.7);
            lemma_pair_facts(a.8, b.8);
            lemma_pair_facts(a.9, b.9);
            lemma_pair_facts(a.10, b.10);
            lemma_pair_facts(a.11, b.11);
        }
        if !b.outside_order_spec() && !c.outside_order_spec() {
            lemma_pair_facts(b.0, c.0);
            lemma_pair_facts(b.1, c.1);
            lemma_pair_facts(b.2, c.2);
            lemma_pair_facts(b.3, c.3);
            lemma_pair_facts(b.4, c.4);
            lemma_pair_facts(b.5, c.5);
            lemma_pair_facts(b.6, c.6);
            lemma_pair_facts(b.7, c.7);
            lemma_pair_facts(b.8, c.8);
            lemma_pair_facts(b.9, c.9);
            lemma_pair_facts(b.10, c.10);
            lemma_pair_facts(b.11, c.11);
        }
        if !a.outside_order_spec() && !c.outside_order_spec() {
            lemma_pair_facts(a.0, c.0);
            lemma_pair_facts(a.1, c.1);
            lemma_pair_facts(a.2, c.2);
            lemma_pair_facts(a.3, c.3);
            lemma_pair_facts(a.4, c.4);
            lemma_pair_facts(a.5, c.5);
            lemma_pair_facts(a.6, c.6);
            lemma_pair_facts(a.7, c.7);
            lemma_pair_facts(a.8, c.8);
            lemma_pair_facts(a.9, c.9);
            lemma_pair_facts(a.10, c.10);
            lemma_pair_facts(a.11, c.11);
        }
        if !a.outside_order_spec() && !b.outside_order_spec() && !c.outside_order_spec() {
            lemma_triple_facts(a.0, b.0, c.0);
            lemma_triple_facts(a.1, b.1, c.1);
            lemma_triple_facts(a.2, b.2, c.2);
            lemma_triple_facts(a.3, b.3, c.3);
            lemma_triple_facts(a.4, b.4, c.4);
            lemma_triple_facts(a.5, b.5, c.5);
            lemma_triple_facts(a.6, b.6, c.6);
            lemma_triple_facts(a.7, b.7, c.7);
            lemma_triple_facts(a.8, b.8, c.8);
            lemma_triple_facts(a.9, b.9, c.9);
            lemma_triple_facts(a.10, b.10, c.10);
            lemma_triple_facts(a.11, b.11, c.11);
        }
    }

    fn is_outside_order(&self) -> (r: bool) {
        self.0.is_outside_order() || self.1.is_outside_order() || self.2.is_outside_order() || self.3.is_outside_order() || self.4.is_outside_order() || self.5.is_outside_order() || self.6.is_outside_order() || self.7.is_outside_order() || self.8.is_outside_order() || self.9.is_outside_order() || self.10.is_outside_order() || self.11.is_outside_order()
    }

    fn partial_compare(&self, other: &Self) -> (r: Option<Ordering>) {
        if self.is_outside_order() || other.is_outside_order() {
            None
        } else {
            match self.0.partial_compare(&other.0) {
                Some(Ordering::Equal) => match self.1.partial_compare(&other.1) {
                Some(Ordering::Equal) => match self.2.partial_compare(&other.2) {
                Some(Ordering::Equal) => match self.3.partial_compare(&other.3) {
                Some(Ordering::Equal) => match self.4.partial_compare(&other.4) {
                Some(Ordering::Equal) => match self.5.partial_compare(&other.5) {
                Some(Ordering::Equal) => match self.6.partial_compare(&other.6) {
                Some(Ordering::Equal) => match self.7.partial_compare(&other.7) {
                Some(Ordering::Equal) => match self.8.partial_compare(&other.8) {
                Some(Ordering::Equal) => match self.9.partial_compare(&other.9) {
                Some(Ordering::Equal) => match self.10.partial_compare(&other.10) {
                Some(Ordering::Equal) => self.11.partial_compare(&other.11),
                o => o,
            },
                o => o,
            },
                o => o,
            },
                o => o,
            },
                o => o,
            },
                o => o,
            },
                o => o,
            },
                o => o,
            },
                o => o,
            },
                o => o,
            },
                o => o,
            }
        }
    }
}

} // verus!
