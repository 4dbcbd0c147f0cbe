//! Max/min reductions that ignore outside-order values.

use vstd::prelude::*;

verus! {

use core::cmp::Ordering;
use crate::ord_subset_trait::{
    in_le, in_lt, key_fn_callable, key_fn_deterministic, lemma_key_call_determined, spec_key_of,
    OrdSubset,
};

/// Max/min reductions over a sequence of capability-contract values.
/// Outside-order values are ignored: they never win or lose a comparison.
/// The result is absent exactly when every element is outside the order,
/// the empty sequence included.
pub trait OrdSubsetIterExt<T>: View<V = Seq<T>> {
    /// The maximum in-order element, or `None` if there is none.  When
    /// several elements compare equally maximal, the latest one is
    /// returned.
    fn ord_subset_max(&self) -> (r: Option<T>) where T: OrdSubset + Copy
        ensures
            match r {
                None => forall|i: int|
                    0 <= i < self@.len() ==> (#[trigger] self@[i]).outside_order_spec(),
                Some(x) => {
                    &&& !x.outside_order_spec()
                    &&& forall|j: int|
                        0 <= j < self@.len() && !(#[trigger] self@[j]).outside_order_spec()
                            ==> in_le(self@[j], x)
                    &&& exists|i: int|
                        0 <= i < self@.len() && self@[i] == x && (forall|j: int|
                            i < j < self@.len() && !(#[trigger] self@[j]).outside_order_spec()
                                ==> in_lt(self@[j], x))
                },
            },
    ;

    /// The minimum in-order element, or `None` if there is none.  When
    /// several elements compare equally minimal, the earliest one is
    /// returned.
    fn ord_subset_min(&self) -> (r: Option<T>) where T: OrdSubset + Copy
        ensures
            match r {
                None => forall|i: int|
                    0 <= i < self@.len() ==> (#[trigger] self@[i]).outside_order_spec(),
                Some(x) => {
                    &&& !x.outside_order_spec()
                    &&& forall|j: int|
                        0 <= j < self@.len() && !(#[trigger] self@[j]).outside_order_spec()
                            ==> in_le(x, self@[j])
                    &&& exists|i: int|
                        0 <= i < self@.len() && self@[i] == x && (forall|j: int|
                            0 <= j < i && !(#[trigger] self@[j]).outside_order_spec() ==> in_lt(
                                x,
                                self@[j],
                            ))
                },
            },
    ;

    /// The element whose key, extracted by the closure, is minimal among
    /// the in-order keys; elements with outside-order keys are ignored.
    /// When several keys compare equally minimal, the earliest element is
    /// returned.
    fn ord_subset_min_by_key<B: OrdSubset, F: Fn(&T) -> B>(&self, f: F) -> (r: Option<T>) where
        T: Copy,
        requires
            key_fn_callable(f),
            key_fn_deterministic(f),
        ensures
            match r {
                None => forall|i: int|
                    0 <= i < self@.len() ==> (#[trigger] spec_key_of(f)(
                        self@[i],
                    )).outside_order_spec(),
                Some(x) => {
                    &&& !spec_key_of(f)(x).outside_order_spec()
                    &&& forall|j: int|
                        0 <= j < self@.len() && !(#[trigger] spec_key_of(f)(
                            self@[j],
                        )).outside_order_spec() ==> in_le(spec_key_of(f)(x), spec_key_of(f)(
                            self@[j],
                        ))
                    &&& exists|i: int|
                        0 <= i < self@.len() && self@[i] == x && (forall|j: int|
                            0 <= j < i && !(#[trigger] spec_key_of(f)(
                                self@[j],
                            )).outside_order_spec() ==> in_lt(spec_key_of(f)(x), spec_key_of(f)(
                                self@[j],
                            )))
                },
            },
    ;

    /// The element whose key, extracted by the closure, is maximal among
    /// the in-order keys; elements with outside-order keys are ignored.
    /// When several keys compare equally maximal, the latest element is
    /// returned.
    fn ord_subset_max_by_key<B: OrdSubset, F: Fn(&T) -> B>(&self, f: F) -> (r: Option<T>) where
        T: Copy,
        requires
            key_fn_callable(f),
            key_fn_deterministic(f),
        ensures
            match r {
                None => forall|i: int|
                    0 <= i < self@.len() ==> (#[trigger] spec_key_of(f)(
                        self@[i],
                    )).outside_order_spec(),
                Some(x) => {
                    &&& !spec_key_of(f)(x).outside_order_spec()
                    &&& forall|j: int|
                        0 <= j < self@.len() && !(#[trigger] spec_key_of(f)(
                            self@[j],
                        )).outside_order_spec() ==> in_le(spec_key_of(f)(self@[j]), spec_key_of(
                            f,
                        )(x))
                    &&& exists|i: int|
                        0 <= i < self@.len() && self@[i] == x && (forall|j: int|
                            i < j < self@.len() && !(#[trigger] spec_key_of(f)(
                                self@[j],
                            )).outside_order_spec() ==> in_lt(spec_key_of(f)(self@[j]), spec_key_of(
                                f,
                            )(x)))
                },
            },
    ;
}

impl<T> OrdSubsetIterExt<T> for Vec<T> {
    fn ord_subset_max(&self) -> (r: Option<T>) where T: OrdSubset + Copy {
        let mut best: Option<T> = None;
        let ghost mut bi: int = 0;
        let mut idx: usize = 0;
        while idx < self.len()
            invariant
                0 <= idx <= self@.len(),
                match best {
                    None => forall|j: int|
                        0 <= j < idx ==> (#[trigger] self@[j]).outside_order_spec(),
                    Some(b) => {
                        &&& !b.outside_order_spec()
                        &&& 0 <= bi < idx
                        &&& self@[bi] == b
                        &&& forall|j: int|
                            0 <= j < idx && !(#[trigger] self@[j]).outside_order_spec() ==> in_le(
                                self@[j],
                                b,
                            )
                        &&& forall|j: int|
                            bi < j < idx && !(#[trigger] self@[j]).outside_order_spec() ==> in_lt(
                                self@[j],
                                b,
                            )
                    },
                },
            decreases self@.len() - idx,
        {
            let cur = self[idx];
            if !cur.is_outside_order() {
                match best {
                    None => {
                        best = Some(cur);
                        proof {
                            bi = idx as int;
                            T::lemma_cmp_properties(cur, cur, cur);
                        }
                    },
                    Some(b) => {
                        proof {
                            T::lemma_cmp_properties(cur, b, cur);
                        }
                        match cur.partial_compare(&b) {
                            Some(Ordering::Less) => {
                            },
                            _ => {
                                proof {
                                    assert forall|j: int|
                                        0 <= j < idx + 1 && !(
                                        #[trigger] self@[j]).outside_order_spec() implies in_le(
                                        self@[j],
                                        cur,
                                    ) by {
                                        T::lemma_cmp_properties(cur, b, self@[j]);
                                        T::lemma_cmp_properties(self@[j], b, cur);
                                        T::lemma_cmp_properties(b, cur, self@[j]);
                                    }
                                    bi = idx as int;
                                }
                                best = Some(cur);
                            },
                        }
                    },
                }
            }
            idx = idx + 1;
        }
        best
    }

    fn ord_subset_min(&self) -> (r: Option<T>) where T: OrdSubset + Copy {
        let mut best: Option<T> = None;
        let ghost mut bi: int = 0;
        let mut idx: usize = 0;
        while idx < self.len()
            invariant
                0 <= idx <= self@.len(),
                match best {
                    None => forall|j: int|
                        0 <= j < idx ==> (#[trigger] self@[j]).outside_order_spec(),
                    Some(b) => {
                        &&& !b.outside_order_spec()
                        &&& 0 <= bi < idx
                        &&& self@[bi] == b
                        &&& forall|j: int|
                            0 <= j < idx && !(#[trigger] self@[j]).outside_order_spec() ==> in_le(
                                b,
                                self@[j],
                            )
                        &&& forall|j: int|
                            0 <= j < bi && !(#[trigger] self@[j]).outside_order_spec() ==> in_lt(
                                b,
                                self@[j],
                            )
                    },
                },
            decreases self@.len() - idx,
        {
            let cur = self[idx];
            if !cur.is_outside_order() {
                match best {
                    None => {
                        best = Some(cur);
                        proof {
                            bi = idx as int;
                            T::lemma_cmp_properties(cur, cur, cur);
                        }
                    },
                    Some(b) => {
                        proof {
                            T::lemma_cmp_properties(cur, b, cur);
                        }
                        match cur.partial_compare(&b) {
                            Some(Ordering::Less) => {
                                proof {
                                    assert forall|j: int|
                                        0 <= j < idx + 1 && !(
                                        #[trigger] self@[j]).outside_order_spec() implies in_le(
                                        cur,
                                        self@[j],
                                    ) by {
                                        T::lemma_cmp_properties(cur, b, self@[j]);
                                        T::lemma_cmp_properties(b, self@[j], cur);
                                        T::lemma_cmp_properties(self@[j], cur, b);
                                    }
                                    assert forall|j: int|
                                        0 <= j < idx && !(
                                        #[trigger] self@[j]).outside_order_spec() implies in_lt(
                                        cur,
                                        self@[j],
                                    ) by {
                                        T::lemma_cmp_properties(cur, b, self@[j]);
                                        T::lemma_cmp_properties(b, self@[j], cur);
                                        T::lemma_cmp_properties(self@[j], cur, b);
                                        T::lemma_cmp_properties(b, cur, self@[j]);
                                    }
                                    bi = idx as int;
                                }
                                best = Some(cur);
                            },
                            _ => {
                            },
                        }
                    },
                }
            }
            idx = idx + 1;
        }
        best
    }

    fn ord_subset_min_by_key<B: OrdSubset, F: Fn(&T) -> B>(&self, f: F) -> (r: Option<T>) where
        T: Copy,
    {
        let fr = &f;
        let ghost kf = spec_key_of(f);
        let mut best: Option<(T, B)> = None;
        let ghost mut bi: int = 0;
        let mut idx: usize = 0;
        while idx < self.len()
            invariant
                0 <= idx <= self@.len(),
                key_fn_callable(*fr),
                key_fn_deterministic(*fr),
                kf == spec_key_of(*fr),
                match best {
                    None => forall|j: int|
                        0 <= j < idx ==> (#[trigger] kf(self@[j])).outside_order_spec(),
                    Some(p) => {
                        &&& !kf(p.0).outside_order_spec()
                        &&& p.1 == kf(p.0)
                        &&& 0 <= bi < idx
                        &&& self@[bi] == p.0
                        &&& forall|j: int|
                            0 <= j < idx && !(#[trigger] kf(self@[j])).outside_order_spec()
                                ==> in_le(kf(p.0), kf(self@[j]))
                        &&& forall|j: int|
                            0 <= j < bi && !(#[trigger] kf(self@[j])).outside_order_spec()
                                ==> in_lt(kf(p.0), kf(self@[j]))
                    },
                },
            decreases self@.len() - idx,
        {
            let cur = self[idx];
            let kcur = (*fr)(&cur);
            proof {
                lemma_key_call_determined(fr, cur, kcur);
                assert(kcur == kf(self@[idx as int]));
            }
            if !kcur.is_outside_order() {
                match &best {
                    None => {
                        proof {
                            bi = idx as int;
                            B::lemma_cmp_properties(kcur, kcur, kcur);
                        }
                        best = Some((cur, kcur));
                    },
                    Some(p) => {
                        proof {
                            B::lemma_cmp_properties(kcur, kf(p.0), kcur);
                        }
                        match kcur.partial_compare(&p.1) {
                            Some(Ordering::Less) => {
                                proof {
                                    let kb = kf(p.0);
                                    assert forall|j: int|
                                        0 <= j < idx + 1 && !(
                                        #[trigger] kf(self@[j])).outside_order_spec() implies in_le(
                                        kcur,
                                        kf(self@[j]),
                                    ) by {
                                        B::lemma_cmp_properties(kcur, kb, kf(self@[j]));
                                        B::lemma_cmp_properties(kb, kf(self@[j]), kcur);
                                        B::lemma_cmp_properties(kf(self@[j]), kcur, kb);
                                    }
                                    assert forall|j: int|
                                        0 <= j < idx && !(
                                        #[trigger] kf(self@[j])).outside_order_spec() implies in_lt(
                                        kcur,
                                        kf(self@[j]),
                                    ) by {
                                        B::lemma_cmp_properties(kcur, kb, kf(self@[j]));
                                        B::lemma_cmp_properties(kb, kf(self@[j]), kcur);
                                        B::lemma_cmp_properties(kf(self@[j]), kcur, kb);
                                        B::lemma_cmp_properties(kb, kcur, kf(self@[j]));
                                    }
                                    bi = idx as int;
                                }
                                best = Some((cur, kcur));
                            },
                            _ => {
                            },
                        }
                    },
                }
            }
            idx = idx + 1;
        }
        match best {
            None => None,
            Some(p) => Some(p.0),
        }
    }

    fn ord_subset_max_by_key<B: OrdSubset, F: Fn(&T) -> B>(&self, f: F) -> (r: Option<T>) where
        T: Copy,
    {
        let fr = &f;
        let ghost kf = spec_key_of(f);
        let mut best: Option<(T, B)> = None;
        let ghost mut bi: int = 0;
        let mut idx: usize = 0;
        while idx < self.len()
            invariant
                0 <= idx <= self@.len(),
                key_fn_callable(*fr),
                key_fn_deterministic(*fr),
                kf == spec_key_of(*fr),
                match best {
                    None => forall|j: int|
                        0 <= j < idx ==> (#[trigger] kf(self@[j])).outside_order_spec(),
                    Some(p) => {
                        &&& !kf(p.0).outside_order_spec()
                        &&& p.1 == kf(p.0)
                        &&& 0 <= bi < idx
                        &&& self@[bi] == p.0
                        &&& forall|j: int|
                            0 <= j < idx && !(#[trigger] kf(self@[j])).outside_order_spec()
                                ==> in_le(kf(self@[j]), kf(p.0))
                        &&& forall|j: int|
                            bi < j < idx && !(#[trigger] kf(self@[j])).outside_order_spec()
                                ==> in_lt(kf(self@[j]), kf(p.0))
                    },
                },
            decreases self@.len() - idx,
        {
            let cur = self[idx];
            let kcur = (*fr)(&cur);
            proof {
                lemma_key_call_determined(fr, cur, kcur);
                assert(kcur == kf(self@[idx as int]));
            }
            if !kcur.is_outside_order() {
                match &best {
                    None => {
                        proof {
                            bi = idx as int;
                            B::lemma_cmp_properties(kcur, kcur, kcur);
                        }
                        best = Some((cur, kcur));
                    },
                    Some(p) => {
                        proof {
                            B::lemma_cmp_properties(kcur, kf(p.0), kcur);
                        }
                        match kcur.partial_compare(&p.1) {
                            Some(Ordering::Less) => {
                            },
                            _ => {
                                proof {
                                    let kb = kf(p.0);
                                    assert forall|j: int|
                                        0 <= j < idx + 1 && !(
                                        #[trigger] kf(self@[j])).outside_order_spec() implies in_le(
                                        kf(self@[j]),
                                        kcur,
                                    ) by {
                                        B::lemma_cmp_properties(kcur, kb, kf(self@[j]));
                                        B::lemma_cmp_properties(kf(self@[j]), kb, kcur);
                                        B::lemma_cmp_properties(kb, kcur, kf(self@[j]));
                                    }
                                    bi = idx as int;
                                }
                                best = Some((cur, kcur));
                            },
                        }
                    },
                }
            }
            idx = idx + 1;
        }
        match best {
            None => None,
            Some(p) => Some(p.0),
        }
    }
}

} // verus!
