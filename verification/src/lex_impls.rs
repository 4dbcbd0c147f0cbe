//! The capability contract for element containers: a vector or array is
//! outside order exactly when one of its elements is, and containers of
//! in-order elements compare lexicographically.

use vstd::prelude::*;

verus! {

use core::cmp::Ordering;
use crate::ord_subset_trait::{flip_order, OrdSubset};

/// Every element of the sequence is inside the order.
pub open spec fn seq_all_in_order<T: OrdSubset>(s: Seq<T>) -> bool {
    forall|i: int| 0 <= i < s.len() ==> !(#[trigger] s[i]).outside_order_spec()
}

/// Lexicographic comparison of two sequences of in-order values: the first
/// differing position decides, a missing position ranks a sequence first.
/// (The absent-comparison arm is never taken on in-order input.)
pub open spec fn seq_lex_cmp<T: OrdSubset>(a: Seq<T>, b: Seq<T>) -> Ordering
    decreases a.len(),
{
    if a.len() == 0 && b.len() == 0 {
        Ordering::Equal
    } else if a.len() == 0 {
        Ordering::Less
    } else if b.len() == 0 {
        Ordering::Greater
    } else {
        match a[0].cmp_spec(b[0]) {
            Some(Ordering::Equal) => seq_lex_cmp(a.drop_first(), b.drop_first()),
            Some(o) => o,
            None => Ordering::Equal,
        }
    }
}

proof fn lemma_seq_lex_refl<T: OrdSubset>(a: Seq<T>)
    requires
        seq_all_in_order(a),
    ensures
        seq_lex_cmp(a, a) == Ordering::Equal,
    decreases a.len(),
{
    if a.len() > 0 {
        T::lemma_cmp_properties(a[0], a[0], a[0]);
        assert(seq_all_in_order(a.drop_first())) by {
            assert(forall|i: int| 0 <= i < a.len() - 1 ==> a.drop_first()[i] == a[i + 1]);
        }
        lemma_seq_lex_refl(a.drop_first());
    }
}

proof fn lemma_seq_lex_flip<T: OrdSubset>(a: Seq<T>, b: Seq<T>)
    requires
        seq_all_in_order(a),
        seq_all_in_order(b),
    ensures
        seq_lex_cmp(b, a) == flip_order(seq_lex_cmp(a, b)),
    decreases a.len(),
{
    if a.len() > 0 && b.len() > 0 {
        T::lemma_cmp_properties(a[0], b[0], a[0]);
        assert(seq_all_in_order(a.drop_first())) by {
            assert(forall|i: int| 0 <= i < a.len() - 1 ==> a.drop_first()[i] == a[i + 1]);
        }
        assert(seq_all_in_order(b.drop_first())) by {
            assert(forall|i: int| 0 <= i < b.len() - 1 ==> b.drop_first()[i] == b[i + 1]);
        }
        lemma_seq_lex_flip(a.drop_first(), b.drop_first());
    }
}

proof fn lemma_seq_lex_trans<T: OrdSubset>(a: Seq<T>, b: Seq<T>, c: Seq<T>)
    requires
        seq_all_in_order(a),
        seq_all_in_order(b),
        seq_all_in_order(c),
        seq_lex_cmp(a, b) != Ordering::Greater,
        seq_lex_cmp(b, c) != Ordering::Greater,
    ensures
        seq_lex_cmp(a, c) != Ordering::Greater,
    decreases a.len(),
{
    if a.len() > 0 && b.len() > 0 && c.len() > 0 {
        T::lemma_cmp_properties(a[0], b[0], c[0]);
        T::lemma_cmp_properties(b[0], c[0], a[0]);
        T::lemma_cmp_properties(a[0], c[0], b[0]);
        T::lemma_cmp_properties(b[0], a[0], c[0]);
        T::lemma_cmp_properties(c[0], a[0], b[0]);
        T::lemma_cmp_properties(c[0], b[0], a[0]);
        if a[0].cmp_spec(b[0]) == Some(Ordering::Equal) && b[0].cmp_spec(c[0]) == Some(
            Ordering::Equal,
        ) {
            assert(seq_all_in_order(a.drop_first())) by {
                assert(forall|i: int| 0 <= i < a.len() - 1 ==> a.drop_first()[i] == a[i + 1]);
            }
            assert(seq_all_in_order(b.drop_first())) by {
                assert(forall|i: int| 0 <= i < b.len() - 1 ==> b.drop_first()[i] == b[i + 1]);
            }
            assert(seq_all_in_order(c.drop_first())) by {
                assert(forall|i: int| 0 <= i < c.len() - 1 ==> c.drop_first()[i] == c[i + 1]);
            }
            lemma_seq_lex_trans(a.drop_first(), b.drop_first(), c.drop_first());
        }
    }
}

/// After a prefix of positions comparing equal, the lexicographic outcome is
/// the outcome on the remainders.
proof fn lemma_seq_lex_skip<T: OrdSubset>(a: Seq<T>, b: Seq<T>, i: int)
    requires
        0 <= i <= a.len(),
        i <= b.len(),
        forall|j: int| 0 <= j < i ==> a[j].cmp_spec(b[j]) == Some(Ordering::Equal),
    ensures
        seq_lex_cmp(a, b) == seq_lex_cmp(a.skip(i), b.skip(i)),
    decreases i,
{
    if i > 0 {
        assert(a.len() > 0 && b.len() > 0);
        assert(a[0].cmp_spec(b[0]) == Some(Ordering::Equal));
        assert(seq_lex_cmp(a, b) == seq_lex_cmp(a.drop_first(), b.drop_first()));
        assert(forall|j: int|
            0 <= j < i - 1 ==> a.drop_first()[j] == a[j + 1] && b.drop_first()[j] == b[j + 1]);
        lemma_seq_lex_skip(a.drop_first(), b.drop_first(), i - 1);
        assert(a.drop_first().skip(i - 1) =~= a.skip(i));
        assert(b.drop_first().skip(i - 1) =~= b.skip(i));
    } else {
        assert(a.skip(0) =~= a);
        assert(b.skip(0) =~= b);
    }
}

impl<T: OrdSubset> OrdSubset for Vec<T> {
    open spec fn outside_order_spec(self) -> bool {
        !seq_all_in_order(self@)
    }

    open spec fn cmp_spec(self, other: Self) -> Option<Ordering> {
        if seq_all_in_order(self@) && seq_all_in_order(other@) {
            Some(seq_lex_cmp(self@, other@))
        } else {
            None
        }
    }

    proof fn lemma_cmp_properties(a: Self, b: Self, c: Self) {
        if seq_all_in_order(a@) {
            lemma_seq_lex_refl(a@);
        }
        if seq_all_in_order(a@) && seq_all_in_order(b@) {
            lemma_seq_lex_flip(a@, b@);
        }
        if seq_all_in_order(a@) && seq_all_in_order(b@) && seq_all_in_order(c@) {
            if seq_lex_cmp(a@, b@) != Ordering::Greater && seq_lex_cmp(b@, c@)
                != Ordering::Greater {
                lemma_seq_lex_trans(a@, b@, c@);
            }
            lemma_seq_lex_flip(b@, c@);
            lemma_seq_lex_flip(a@, c@);
        }
    }

    fn is_outside_order(&self) -> (r: bool) {
        let mut i: usize = 0;
        while i < self.len()
            invariant
                0 <= i <= self@.len(),
                forall|j: int| 0 <= j < i ==> !(#[trigger] self@[j]).outside_order_spec(),
            decreases self@.len() - i,
        {
            if self[i].is_outside_order() {
                return true;
            }
            i = i + 1;
        }
        false
    }

    fn partial_compare(&self, other: &Self) -> (r: Option<Ordering>) {
        if self.is_outside_order() || other.is_outside_order() {
            return None;
        }
        let mut i: usize = 0;
        while i < self.len() && i < other.len()
            invariant
                0 <= i <= self@.len(),
                0 <= i <= other@.len(),
                seq_all_in_order(self@),
                seq_all_in_order(other@),
                forall|j: int| 0 <= j < i ==> self@[j].cmp_spec(other@[j]) == Some(Ordering::Equal),
            decreases self@.len() - i,
        {
            let c = self[i].partial_compare(&other[i]);
            proof {
                T::lemma_cmp_properties(self@[i as int], other@[i as int], self@[i as int]);
            }
            match c {
                Some(Ordering::Equal) => {
                    i = i + 1;
                },
                Some(o) => {
                    proof {
                        lemma_seq_lex_skip(self@, other@, i as int);
                        assert(self@.skip(i as int)[0] == self@[i as int]);
                        assert(other@.skip(i as int)[0] == other@[i as int]);
                    }
                    return Some(o);
                },
                None => {
                    return None;
                },
            }
        }
        proof {
            lemma_seq_lex_skip(self@, other@, i as int);
        }
        if self.len() == other.len() {
            Some(Ordering::Equal)
        } else if self.len() < other.len() {
            Some(Ordering::Less)
        } else {
            Some(Ordering::Greater)
        }
    }
}

impl<T: OrdSubset, const N: usize> OrdSubset for [T; N] {
    open spec fn outside_order_spec(self) -> bool {
        !seq_all_in_order(self@)
    }

    open spec fn cmp_spec(self, other: Self) -> Option<Ordering> {
        if seq_all_in_order(self@) && seq_all_in_order(other@) {
            Some(seq_lex_cmp(self@, other@))
        } else {
            None
        }
    }

    proof fn lemma_cmp_properties(a: Self, b: Self, c: Self) {
        if seq_all_in_order(a@) {
            lemma_seq_lex_refl(a@);
        }
        if seq_all_in_order(a@) && seq_all_in_order(b@) {
            lemma_seq_lex_flip(a@, b@);
        }
        if seq_all_in_order(a@) && seq_all_in_order(b@) && seq_all_in_order(c@) {
            if seq_lex_cmp(a@, b@) != Ordering::Greater && seq_lex_cmp(b@, c@)
                != Ordering::Greater {
                lemma_seq_lex_trans(a@, b@, c@);
            }
            lemma_seq_lex_flip(b@, c@);
            lemma_seq_lex_flip(a@, c@);
        }
    }

    fn is_outside_order(&self) -> (r: bool) {
        let mut i: usize = 0;
        while i < N
            invariant
                0 <= i <= N,
                self@.len() == N,
                forall|j: int| 0 <= j < i ==> !(#[trigger] self@[j]).outside_order_spec(),
            decreases N - i,
        {
            if vstd::array::array_index_get(self, i).is_outside_order() {
                return true;
            }
            i = i + 1;
        }
        false
    }

    fn partial_compare(&self, other: &Self) -> (r: Option<Ordering>) {
        if self.is_outside_order() || other.is_outside_order() {
            return None;
        }
        let mut i: usize = 0;
        while i < N
            invariant
                0 <= i <= N,
                self@.len() == N,
                other@.len() == N,
                seq_all_in_order(self@),
                seq_all_in_order(other@),
                forall|j: int| 0 <= j < i ==> self@[j].cmp_spec(other@[j]) == Some(Ordering::Equal),
            decreases N - i,
        {
            let c = vstd::array::array_index_get(self, i).partial_compare(
                vstd::array::array_index_get(other, i),
            );
            proof {
                T::lemma_cmp_properties(self@[i as int], other@[i as int], self@[i as int]);
            }
            match c {
                Some(Ordering::Equal) => {
                    i = i + 1;
                },
                Some(o) => {
                    proof {
                        lemma_seq_lex_skip(self@, other@, i as int);
                        assert(self@.skip(i as int)[0] == self@[i as int]);
                        assert(other@.skip(i as int)[0] == other@[i as int]);
                    }
                    return Some(o);
                },
                None => {
                    return None;
                },
            }
        }
        proof {
            lemma_seq_lex_skip(self@, other@, i as int);
            assert(self@.skip(N as int) =~= Seq::<T>::empty());
            assert(other@.skip(N as int) =~= Seq::<T>::empty());
        }
        Some(Ordering::Equal)
    }
}

} // verus!
