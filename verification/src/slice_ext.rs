//! In-place sorting with outside-order values collected at the end, and
//! binary search over sequences sorted that way.

use vstd::prelude::*;

verus! {

use core::cmp::Ordering;
use crate::ord_subset_trait::{
    flip_order, in_le, in_lt, key_fn_callable, key_fn_deterministic, lemma_key_call_determined,
    spec_key_of, OrdSubset,
};

/// The placement policy of every sort in this crate, as a less-or-equal
/// relation: two in-order values compare by the type's order, an
/// outside-order value ranks above every in-order value, and two
/// outside-order values rank equal.
pub open spec fn le_policy<T: OrdSubset>(a: T, b: T) -> bool {
    if a.outside_order_spec() {
        b.outside_order_spec()
    } else {
        b.outside_order_spec() || in_le(a, b)
    }
}

/// The placement policy of the reverse sorts: in-order values compare by the
/// reversed order, while outside-order values still rank last.
pub open spec fn le_policy_rev<T: OrdSubset>(a: T, b: T) -> bool {
    if a.outside_order_spec() {
        b.outside_order_spec()
    } else {
        b.outside_order_spec() || in_le(b, a)
    }
}

/// A sequence is sorted under a less-or-equal relation.
pub open spec fn sorted_by_rel<T>(s: Seq<T>, r: spec_fn(T, T) -> bool) -> bool {
    forall|i: int, j: int| 0 <= i < j < s.len() ==> #[trigger] r(s[i], s[j])
}

/// The sort postcondition: in-order values ascending, outside-order values
/// at the end.
pub open spec fn sorted_policy<T: OrdSubset>(s: Seq<T>) -> bool {
    forall|i: int, j: int| 0 <= i < j < s.len() ==> #[trigger] le_policy(s[i], s[j])
}

/// The reverse-sort postcondition: in-order values descending, outside-order
/// values still at the end.
pub open spec fn sorted_policy_rev<T: OrdSubset>(s: Seq<T>) -> bool {
    forall|i: int, j: int| 0 <= i < j < s.len() ==> #[trigger] le_policy_rev(s[i], s[j])
}

/// The key-sort postcondition: elements ordered by the placement policy on
/// their keys.
pub open spec fn sorted_by_key_policy<T, B: OrdSubset>(s: Seq<T>, k: spec_fn(T) -> B) -> bool {
    forall|i: int, j: int| 0 <= i < j < s.len() ==> #[trigger] le_policy(k(s[i]), k(s[j]))
}

/// The placement policy under a caller-supplied three-way comparison `c` of
/// in-order values.
pub open spec fn le_cmp_policy<T: OrdSubset>(c: spec_fn(T, T) -> Ordering, a: T, b: T) -> bool {
    if a.outside_order_spec() {
        b.outside_order_spec()
    } else {
        b.outside_order_spec() || c(a, b) != Ordering::Greater
    }
}

/// The comparator-sort postcondition.
pub open spec fn sorted_by_cmp_policy<T: OrdSubset>(s: Seq<T>, c: spec_fn(T, T) -> Ordering) -> bool {
    forall|i: int, j: int| 0 <= i < j < s.len() ==> #[trigger] le_cmp_policy(c, s[i], s[j])
}

/// Outside-order values occupy a suffix of the sequence.
pub open spec fn outside_trailing<T: OrdSubset>(s: Seq<T>) -> bool {
    forall|i: int, j: int|
        0 <= i < j < s.len() && (#[trigger] s[i].outside_order_spec()) ==> (
        #[trigger] s[j].outside_order_spec())
}

/// What a binary search compares an element against a fixed in-order target:
/// outside-order elements rank greater than the target unconditionally.
pub open spec fn search_ord<T: OrdSubset>(e: T, x: T) -> Ordering {
    if e.outside_order_spec() {
        Ordering::Greater
    } else {
        match e.cmp_spec(x) {
            Some(o) => o,
            None => Ordering::Greater,
        }
    }
}

/// The comparison a reverse binary search uses: the direction among in-order
/// values is negated, outside-order elements still rank greater.
pub open spec fn search_ord_rev<T: OrdSubset>(e: T, x: T) -> Ordering {
    if e.outside_order_spec() {
        Ordering::Greater
    } else {
        match x.cmp_spec(e) {
            Some(o) => o,
            None => Ordering::Greater,
        }
    }
}

/// The position of a comparison outcome along a sorted sequence: `Less`
/// before `Equal` before `Greater`.
pub open spec fn rank(o: Ordering) -> int {
    match o {
        Ordering::Less => 0,
        Ordering::Equal => 1,
        Ordering::Greater => 2,
    }
}

/// The placement policy is a total preorder whenever the element type obeys
/// the capability contract.
pub proof fn lemma_le_policy_preorder<T: OrdSubset>()
    ensures
        forall|a: T, b: T| #[trigger] le_policy(a, b) || #[trigger] le_policy(b, a),
        forall|a: T, b: T, c: T|
            #[trigger] le_policy(a, b) && #[trigger] le_policy(b, c) ==> le_policy(a, c),
{
    assert forall|a: T, b: T| #[trigger] le_policy(a, b) || #[trigger] le_policy(b, a) by {
        T::lemma_cmp_properties(a, b, a);
        T::lemma_cmp_properties(b, a, b);
    }
    assert forall|a: T, b: T, c: T|
        #[trigger] le_policy(a, b) && #[trigger] le_policy(b, c) implies le_policy(a, c) by {
        T::lemma_cmp_properties(a, b, c);
        T::lemma_cmp_properties(b, c, a);
        T::lemma_cmp_properties(a, c, b);
    }
}

/// What the sort postcondition says pairwise: in the output, an in-order
/// element that precedes another in-order element compares less-or-equal to
/// it, and every outside-order element stands strictly after every in-order
/// element.
pub proof fn lemma_sorted_policy_shape<T: OrdSubset>(s: Seq<T>)
    requires
        sorted_policy(s),
    ensures
        forall|i: int, j: int|
            0 <= i < j < s.len() && !(#[trigger] s[i]).outside_order_spec() && !(
            #[trigger] s[j]).outside_order_spec() ==> in_le(s[i], s[j]),
        forall|i: int, j: int|
            0 <= i < s.len() && 0 <= j < s.len() && (#[trigger] s[i]).outside_order_spec() && !(
            #[trigger] s[j]).outside_order_spec() ==> j < i,
{
    assert forall|i: int, j: int|
        0 <= i < j < s.len() && !(#[trigger] s[i]).outside_order_spec() && !(
        #[trigger] s[j]).outside_order_spec() implies in_le(s[i], s[j]) by {
        assert(le_policy(s[i], s[j]));
    }
    assert forall|i: int, j: int|
        0 <= i < s.len() && 0 <= j < s.len() && (#[trigger] s[i]).outside_order_spec() && !(
        #[trigger] s[j]).outside_order_spec() implies j < i by {
        if i < j {
            assert(le_policy(s[i], s[j]));
        }
    }
}

/// Inserting an in-order value at the index a failed binary search returns
/// keeps the sequence sorted: everything before that index compares
/// strictly less than the value, everything from it on compares greater or
/// is outside the order.
pub proof fn lemma_insert_preserves_sorted<T: OrdSubset>(s: Seq<T>, x: T, k: int)
    requires
        sorted_policy(s),
        !x.outside_order_spec(),
        0 <= k <= s.len(),
        forall|i: int|
            0 <= i < k ==> !(#[trigger] s[i]).outside_order_spec() && in_lt(s[i], x),
        forall|i: int|
            k <= i < s.len() ==> (#[trigger] s[i]).outside_order_spec() || s[i].cmp_spec(x)
                == Some(Ordering::Greater),
    ensures
        sorted_policy(s.insert(k, x)),
{
    let t = s.insert(k, x);
    assert forall|q1: int, q2: int| 0 <= q1 < q2 < t.len() implies #[trigger] le_policy(
        t[q1],
        t[q2],
    ) by {
        assert(forall|q: int| 0 <= q < k ==> t[q] == s[q]);
        assert(t[k] == x);
        assert(forall|q: int| k < q < t.len() ==> t[q] == s[q - 1]);
        if q2 < k {
            assert(le_policy(s[q1], s[q2]));
        } else if q2 == k {
            assert(in_lt(s[q1], x));
        } else if q1 == k {
            // x against an element at or after the insertion point
            T::lemma_cmp_properties(s[q2 - 1], x, x);
        } else if q1 < k {
            assert(le_policy(s[q1], s[q2 - 1]));
        } else {
            assert(le_policy(s[q1 - 1], s[q2 - 1]));
        }
    }
}

/// The reverse placement policy is a total preorder as well.
pub proof fn lemma_le_policy_rev_preorder<T: OrdSubset>()
    ensures
        forall|a: T, b: T| #[trigger] le_policy_rev(a, b) || #[trigger] le_policy_rev(b, a),
        forall|a: T, b: T, c: T|
            #[trigger] le_policy_rev(a, b) && #[trigger] le_policy_rev(b, c) ==> le_policy_rev(
                a,
                c,
            ),
{
    assert forall|a: T, b: T| #[trigger] le_policy_rev(a, b) || #[trigger] le_policy_rev(b, a) by {
        T::lemma_cmp_properties(a, b, a);
        T::lemma_cmp_properties(b, a, b);
    }
    assert forall|a: T, b: T, c: T|
        #[trigger] le_policy_rev(a, b) && #[trigger] le_policy_rev(b, c) implies le_policy_rev(
        a,
        c,
    ) by {
        T::lemma_cmp_properties(c, b, a);
        T::lemma_cmp_properties(b, a, c);
        T::lemma_cmp_properties(c, a, b);
    }
}

/// The elements ranking equal to `v` under a less-or-equal relation.
pub open spec fn rel_equiv<T>(r: spec_fn(T, T) -> bool, v: T) -> spec_fn(T) -> bool {
    |e: T| r(e, v) && r(v, e)
}

/// The placement policy as a relation value, for contracts that speak of
/// the classes of equally-ranking elements.
pub open spec fn le_policy_rel<T: OrdSubset>() -> spec_fn(T, T) -> bool {
    |a: T, b: T| le_policy(a, b)
}

/// The reverse placement policy as a relation value.
pub open spec fn le_policy_rev_rel<T: OrdSubset>() -> spec_fn(T, T) -> bool {
    |a: T, b: T| le_policy_rev(a, b)
}

/// The key placement policy as a relation value.
pub open spec fn le_key_policy_rel<T, B: OrdSubset>(k: spec_fn(T) -> B) -> spec_fn(T, T) -> bool {
    |a: T, b: T| le_policy(k(a), k(b))
}

/// The comparator placement policy as a relation value.
pub open spec fn le_cmp_policy_rel<T: OrdSubset>(c: spec_fn(T, T) -> Ordering) -> spec_fn(
    T,
    T,
) -> bool {
    |a: T, b: T| le_cmp_policy(c, a, b)
}

proof fn lemma_filter_all_fail<T>(s: Seq<T>, pred: spec_fn(T) -> bool)
    requires
        forall|i: int| 0 <= i < s.len() ==> !pred(#[trigger] s[i]),
    ensures
        s.filter(pred) == Seq::<T>::empty(),
    decreases s.len(),
{
    reveal(Seq::filter);
    if s.len() > 0 {
        assert(forall|i: int| 0 <= i < s.len() - 1 ==> s.drop_last()[i] == s[i]);
        lemma_filter_all_fail(s.drop_last(), pred);
        assert(!pred(s.last()));
    } else {
        assert(s.filter(pred) =~= Seq::<T>::empty());
    }
}

proof fn lemma_filter_singleton<T>(x: T, pred: spec_fn(T) -> bool)
    ensures
        pred(x) ==> seq![x].filter(pred) == seq![x],
        !pred(x) ==> seq![x].filter(pred) == Seq::<T>::empty(),
{
    reveal(Seq::filter);
    assert(seq![x].drop_last() =~= Seq::<T>::empty());
    assert(Seq::<T>::empty().filter(pred) =~= Seq::<T>::empty());
    if pred(x) {
        assert(seq![x].filter(pred) =~= Seq::<T>::empty().push(x));
        assert(Seq::<T>::empty().push(x) =~= seq![x]);
    }
}

/// Stable insertion sort under a caller-supplied executable comparison that
/// implements the total preorder `r`: beyond reordering into sorted order,
/// each class of equally-ranking elements keeps its relative order.
fn sort_core<T, F: Fn(&T, &T) -> bool>(v: &mut Vec<T>, leq: F, Ghost(r): Ghost<spec_fn(T, T) -> bool>)
    requires
        forall|args: (&T, &T)| #[trigger] call_requires(leq, args),
        forall|args: (&T, &T), o: bool| #[trigger] call_ensures(leq, args, o) ==> o == r(
            *args.0,
            *args.1,
        ),
        forall|a: T, b: T| #[trigger] r(a, b) || #[trigger] r(b, a),
        forall|a: T, b: T, c: T| #[trigger] r(a, b) && #[trigger] r(b, c) ==> r(a, c),
    ensures
        final(v)@.len() == old(v)@.len(),
        final(v)@.to_multiset() == old(v)@.to_multiset(),
        sorted_by_rel(final(v)@, r),
        forall|w: T|
            #[trigger] final(v)@.filter(rel_equiv(r, w)) == old(v)@.filter(rel_equiv(r, w)),
{
    broadcast use vstd::seq_lib::to_multiset_remove;
    broadcast use vstd::seq_lib::to_multiset_insert;
    broadcast use vstd::seq_lib::to_multiset_len;
    broadcast use vstd::multiset::group_multiset_axioms;

    if v.len() < 2 {
        return ;
    }
    let mut i: usize = 1;
    while i < v.len()
        invariant
            1 <= i <= v@.len(),
            v@.len() == old(v)@.len(),
            v@.to_multiset() == old(v)@.to_multiset(),
            forall|w: T|
                #[trigger] v@.filter(rel_equiv(r, w)) == old(v)@.filter(rel_equiv(r, w)),
            forall|p: int, q: int| 0 <= p < q < i ==> #[trigger] r(v@[p], v@[q]),
            forall|args: (&T, &T)| #[trigger] call_requires(leq, args),
            forall|args: (&T, &T), o: bool| #[trigger] call_ensures(leq, args, o) ==> o == r(
                *args.0,
                *args.1,
            ),
            forall|a: T, b: T| #[trigger] r(a, b) || #[trigger] r(b, a),
            forall|a: T, b: T, c: T| #[trigger] r(a, b) && #[trigger] r(b, c) ==> r(a, c),
        decreases v@.len() - i,
    {
        let ghost s = v@;
        let ghost x = v@[i as int];
        let mut p: usize = 0;
        let mut scanning = true;
        while p < i && scanning
            invariant
                0 <= p <= i < v@.len(),
                v@ == s,
                x == s[i as int],
                forall|q: int| 0 <= q < p ==> #[trigger] r(s[q], x),
                !scanning ==> p < i && !r(s[p as int], x) && r(x, s[p as int]),
                forall|args: (&T, &T)| #[trigger] call_requires(leq, args),
                forall|args: (&T, &T), o: bool| #[trigger] call_ensures(leq, args, o) ==> o == r(
                    *args.0,
                    *args.1,
                ),
                forall|a: T, b: T| #[trigger] r(a, b) || #[trigger] r(b, a),
            decreases i - p + if scanning {
                1int
            } else {
                0int
            },
        {
            if leq(&v[p], &v[i]) {
                proof {
                    assert(r(s[p as int], x));
                }
                p = p + 1;
            } else {
                proof {
                    assert(!r(s[p as int], x));
                    assert(r(x, s[p as int]));
                }
                scanning = false;
            }
        }
        let x_now = v.remove(i);
        v.insert(p, x_now);
        proof {
            let s2 = v@;
            assert(s2 == s.remove(i as int).insert(p as int, x));
            assert(s2.to_multiset() == s.to_multiset()) by {
                let s1 = s.remove(i as int);
                vstd::seq_lib::to_multiset_remove::<T>(s, i as int);
                vstd::seq_lib::to_multiset_insert::<T>(s1, p as int, x);
                vstd::seq_lib::to_multiset_contains::<T>(s, x);
                assert(s.contains(x));
                assert(s.to_multiset().remove(x).insert(x) =~= s.to_multiset());
            }
            assert forall|q1: int, q2: int| 0 <= q1 < q2 < i + 1 implies #[trigger] r(
                s2[q1],
                s2[q2],
            ) by {
                assert(forall|q: int| 0 <= q < p ==> s2[q] == s[q]);
                assert(s2[p as int] == x);
                assert(forall|q: int| p < q <= i ==> s2[q] == s[q - 1]);
                if q2 < p {
                } else if q2 == p {
                    assert(r(s[q1], x));
                } else {
                    // q2 lands on an old element s[q2 - 1], with p <= q2 - 1 < i
                    if p < i {
                        assert(r(x, s[p as int]));
                        if p < q2 - 1 {
                            assert(r(s[p as int], s[q2 - 1]));
                        }
                        assert(r(x, s[q2 - 1]));
                    }
                    if q1 < p {
                        assert(r(s[q1], x));
                        assert(r(s[q1], s[q2 - 1]));
                    } else if q1 == p {
                        assert(r(x, s[q2 - 1]));
                    } else {
                        assert(r(s[q1 - 1], s[q2 - 1]));
                    }
                }
            }
            // stability: the move crosses only strictly greater elements,
            // so each class of equally-ranking elements keeps its order
            assert forall|w: T| #[trigger] s2.filter(rel_equiv(r, w)) == s.filter(
                rel_equiv(r, w),
            ) by {
                let pred = rel_equiv(r, w);
                let aa = s.subrange(0, p as int);
                let mm = s.subrange(p as int, i as int);
                let xx = s.subrange(i as int, i as int + 1);
                let bb = s.subrange(i as int + 1, s.len() as int);
                assert(mm + (xx + bb) =~= s.subrange(p as int, s.len() as int));
                assert(s =~= aa + (mm + (xx + bb)));
                assert(xx + (mm + bb) =~= s2.subrange(p as int, s2.len() as int));
                assert(s2 =~= aa + (xx + (mm + bb)));
                Seq::filter_distributes_over_add(aa, mm + (xx + bb), pred);
                Seq::filter_distributes_over_add(mm, xx + bb, pred);
                Seq::filter_distributes_over_add(xx, bb, pred);
                Seq::filter_distributes_over_add(aa, xx + (mm + bb), pred);
                Seq::filter_distributes_over_add(xx, mm + bb, pred);
                Seq::filter_distributes_over_add(mm, bb, pred);
                assert(xx =~= seq![x]);
                lemma_filter_singleton(x, pred);
                if pred(x) {
                    assert forall|q: int| 0 <= q < mm.len() implies !pred(#[trigger] mm[q]) by {
                        assert(mm[q] == s[p + q]);
                        if pred(s[p + q]) {
                            // the element would rank equal to x, yet the scan
                            // stopped strictly below it
                            assert(r(s[p + q], x));
                            assert(r(x, s[p + q]));
                            if p + q > p {
                                assert(r(s[p as int], s[p + q]));
                            }
                            assert(r(s[p as int], x));
                            assert(false);
                        }
                    }
                    lemma_filter_all_fail(mm, pred);
                    assert(s.filter(pred) =~= s2.filter(pred));
                } else {
                    assert(xx.filter(pred) =~= Seq::<T>::empty());
                    assert(s.filter(pred) =~= s2.filter(pred));
                }
            }
        }
        i = i + 1;
    }
}

/// A comparator closure may be called on any pair of in-order values; the
/// sorts and searches never hand it anything else.
pub open spec fn cmp_fn_callable<T: OrdSubset, F: Fn(&T, &T) -> Ordering>(f: F) -> bool {
    forall|args: (&T, &T)|
        !args.0.outside_order_spec() && !args.1.outside_order_spec()
            ==> #[trigger] call_requires(f, args)
}

/// A comparator closure computes one function of its arguments' values.
pub open spec fn cmp_fn_deterministic<T, F: Fn(&T, &T) -> Ordering>(f: F) -> bool {
    forall|args: (&T, &T), o1: Ordering, o2: Ordering|
        #[trigger] call_ensures(f, args, o1) && #[trigger] call_ensures(f, args, o2) ==> o1 == o2
}

/// The mathematical comparison a deterministic comparator closure computes.
pub open spec fn spec_cmp_of<T, F: Fn(&T, &T) -> Ordering>(f: F) -> spec_fn(T, T) -> Ordering {
    |a: T, b: T| choose|o: Ordering| call_ensures(f, (&a, &b), o)
}

/// The comparison a comparator closure computes orders the in-order values:
/// swapping the arguments flips the outcome, and less-or-equal outcomes
/// chain transitively.
pub open spec fn cmp_fn_consistent<T: OrdSubset, F: Fn(&T, &T) -> Ordering>(f: F) -> bool {
    &&& forall|a: T, b: T|
        !a.outside_order_spec() && !b.outside_order_spec() ==> #[trigger] spec_cmp_of(f)(b, a)
            == flip_order(spec_cmp_of(f)(a, b))
    &&& forall|a: T, b: T, c: T|
        (!a.outside_order_spec() && !b.outside_order_spec() && !c.outside_order_spec() && (
        #[trigger] spec_cmp_of(f)(a, b)) != Ordering::Greater && (#[trigger] spec_cmp_of(f)(b, c))
            != Ordering::Greater) ==> spec_cmp_of(f)(a, c) != Ordering::Greater
}

/// A search probe may be called on any in-order value; the search never
/// hands it an outside-order element.
pub open spec fn search_fn_callable<T: OrdSubset, F: Fn(&T) -> Ordering>(f: F) -> bool {
    forall|args: (&T,)| !args.0.outside_order_spec() ==> #[trigger] call_requires(f, args)
}

/// What a call of a deterministic comparator closure returned is the
/// closure's comparison applied to the arguments.
pub proof fn lemma_cmp_call_determined<T, F: Fn(&T, &T) -> Ordering>(f: &F, a: T, b: T, o: Ordering)
    requires
        cmp_fn_deterministic(*f),
        call_ensures(*f, (&a, &b), o),
    ensures
        spec_cmp_of(*f)(a, b) == o,
{
    let k = choose|oo: Ordering| call_ensures(*f, (&a, &b), oo);
    assert(call_ensures(*f, (&a, &b), k));
}

/// The comparison wrapper the comparator sorts ride on: outside-order
/// values rank greater than every in-order value and equal to each other,
/// and only an in-order pair is handed to the caller-supplied comparison.
pub fn cmp_unordered_greater_all<T: OrdSubset, F: Fn(&T, &T) -> Ordering>(
    a: &T,
    b: &T,
    compare: &F,
) -> (r: Ordering)
    requires
        !a.outside_order_spec() && !b.outside_order_spec() ==> call_requires(*compare, (a, b)),
        cmp_fn_deterministic(*compare),
    ensures
        a.outside_order_spec() && b.outside_order_spec() ==> r == Ordering::Equal,
        a.outside_order_spec() && !b.outside_order_spec() ==> r == Ordering::Greater,
        !a.outside_order_spec() && b.outside_order_spec() ==> r == Ordering::Less,
        !a.outside_order_spec() && !b.outside_order_spec() ==> r == spec_cmp_of(*compare)(*a, *b),
{
    match (a.is_outside_order(), b.is_outside_order()) {
        (true, true) => Ordering::Equal,
        (true, false) => Ordering::Greater,
        (false, true) => Ordering::Less,
        (false, false) => {
            let o = (*compare)(a, b);
            proof {
                lemma_cmp_call_determined(compare, *a, *b, o);
            }
            o
        },
    }
}

/// The placement policy under a consistent caller-supplied comparison is a
/// total preorder.
proof fn lemma_le_cmp_policy_preorder<T: OrdSubset, F: Fn(&T, &T) -> Ordering>(f: F)
    requires
        cmp_fn_consistent(f),
    ensures
        forall|a: T, b: T|
            #[trigger] le_cmp_policy(spec_cmp_of(f), a, b) || #[trigger] le_cmp_policy(
                spec_cmp_of(f),
                b,
                a,
            ),
        forall|a: T, b: T, c: T|
            #[trigger] le_cmp_policy(spec_cmp_of(f), a, b) && #[trigger] le_cmp_policy(
                spec_cmp_of(f),
                b,
                c,
            ) ==> le_cmp_policy(spec_cmp_of(f), a, c),
{
    let c = spec_cmp_of(f);
    assert forall|a: T, b: T|
        #[trigger] le_cmp_policy(c, a, b) || #[trigger] le_cmp_policy(c, b, a) by {
        if !a.outside_order_spec() && !b.outside_order_spec() {
            assert(c(b, a) == flip_order(c(a, b)));
        }
    }
    assert forall|a: T, b: T, cc: T|
        #[trigger] le_cmp_policy(c, a, b) && #[trigger] le_cmp_policy(c, b, cc) implies
        le_cmp_policy(c, a, cc) by {
        if !a.outside_order_spec() && !b.outside_order_spec() && !cc.outside_order_spec() {
            assert(c(a, b) != Ordering::Greater && c(b, cc) != Ordering::Greater ==> c(a, cc)
                != Ordering::Greater);
        }
    }
}

/// Binary search under a caller-supplied probe that implements the
/// comparison `g` of an element against the fixed target: returns the index
/// of an element comparing equal, or the unique partition index where the
/// outcomes switch from `Less` to `Greater`.
fn binary_search_core<T, F: Fn(&T) -> Ordering>(
    v: &Vec<T>,
    f: F,
    Ghost(g): Ghost<spec_fn(T) -> Ordering>,
) -> (r: Result<usize, usize>)
    requires
        forall|args: (&T,)| #[trigger] call_requires(f, args),
        forall|args: (&T,), o: Ordering| #[trigger] call_ensures(f, args, o) ==> o == g(*args.0),
        forall|i: int, j: int|
            0 <= i < j < v@.len() ==> rank(#[trigger] g(v@[i])) <= rank(#[trigger] g(v@[j])),
    ensures
        match r {
            Ok(i) => 0 <= i < v@.len() && g(v@[i as int]) == Ordering::Equal,
            Err(k) => {
                &&& 0 <= k <= v@.len()
                &&& forall|i: int| 0 <= i < k ==> #[trigger] g(v@[i]) == Ordering::Less
                &&& forall|i: int| k <= i < v@.len() ==> #[trigger] g(v@[i]) == Ordering::Greater
            },
        },
{
    let mut lo: usize = 0;
    let mut hi: usize = v.len();
    while lo < hi
        invariant
            0 <= lo <= hi <= v@.len(),
            forall|i: int| 0 <= i < lo ==> #[trigger] g(v@[i]) == Ordering::Less,
            forall|i: int| hi <= i < v@.len() ==> #[trigger] g(v@[i]) != Ordering::Less,
            forall|args: (&T,)| #[trigger] call_requires(f, args),
            forall|args: (&T,), o: Ordering|
                #[trigger] call_ensures(f, args, o) ==> o == g(*args.0),
            forall|i: int, j: int|
                0 <= i < j < v@.len() ==> rank(#[trigger] g(v@[i])) <= rank(#[trigger] g(v@[j])),
        decreases hi - lo,
    {
        let mid = lo + (hi - lo) / 2;
        let o = f(&v[mid]);
        match o {
            Ordering::Less => {
                proof {
                    assert forall|i: int| 0 <= i < mid + 1 implies #[trigger] g(v@[i])
                        == Ordering::Less by {
                        if i < mid {
                            assert(rank(g(v@[i])) <= rank(g(v@[mid as int])));
                        }
                    }
                }
                lo = mid + 1;
            },
            _ => {
                hi = mid;
            },
        }
    }
    if lo < v.len() {
        let o = f(&v[lo]);
        match o {
            Ordering::Equal => Ok(lo),
            _ => {
                proof {
                    assert(g(v@[lo as int]) == Ordering::Greater);
                    assert forall|i: int| lo <= i < v@.len() implies #[trigger] g(v@[i])
                        == Ordering::Greater by {
                        if lo < i {
                            assert(rank(g(v@[lo as int])) <= rank(g(v@[i])));
                        }
                    }
                }
                Err(lo)
            },
        }
    } else {
        Err(lo)
    }
}

/// Along a sequence sorted by the placement policy on keys, the comparison
/// of each key against a fixed in-order target is monotone.
proof fn lemma_sorted_key_monotone<T, B: OrdSubset>(s: Seq<T>, k: spec_fn(T) -> B, x: B)
    requires
        forall|i: int, j: int| 0 <= i < j < s.len() ==> #[trigger] le_policy(k(s[i]), k(s[j])),
        !x.outside_order_spec(),
    ensures
        forall|i: int, j: int|
            0 <= i < j < s.len() ==> rank(#[trigger] search_ord(k(s[i]), x)) <= rank(
                #[trigger] search_ord(k(s[j]), x),
            ),
{
    assert forall|i: int, j: int| 0 <= i < j < s.len() implies rank(
        #[trigger] search_ord(k(s[i]), x),
    ) <= rank(#[trigger] search_ord(k(s[j]), x)) by {
        let a = k(s[i]);
        let b = k(s[j]);
        assert(le_policy(a, b));
        B::lemma_cmp_properties(a, b, x);
        B::lemma_cmp_properties(b, x, a);
        B::lemma_cmp_properties(a, x, b);
        B::lemma_cmp_properties(x, a, b);
        B::lemma_cmp_properties(x, b, a);
        B::lemma_cmp_properties(b, a, x);
    }
}

/// The reverse counterpart: along a sequence sorted by the reverse policy,
/// the reverse comparison against a fixed in-order target is monotone.
proof fn lemma_sorted_rev_monotone<T: OrdSubset>(s: Seq<T>, x: T)
    requires
        sorted_policy_rev(s),
        !x.outside_order_spec(),
    ensures
        forall|i: int, j: int|
            0 <= i < j < s.len() ==> rank(#[trigger] search_ord_rev(s[i], x)) <= rank(
                #[trigger] search_ord_rev(s[j], x),
            ),
{
    assert forall|i: int, j: int| 0 <= i < j < s.len() implies rank(
        #[trigger] search_ord_rev(s[i], x),
    ) <= rank(#[trigger] search_ord_rev(s[j], x)) by {
        let a = s[i];
        let b = s[j];
        assert(le_policy_rev(a, b));
        T::lemma_cmp_properties(a, b, x);
        T::lemma_cmp_properties(b, x, a);
        T::lemma_cmp_properties(a, x, b);
        T::lemma_cmp_properties(x, a, b);
        T::lemma_cmp_properties(x, b, a);
        T::lemma_cmp_properties(b, a, x);
    }
}

/// Sort and search operations for in-memory sequences of capability-contract
/// values: sorts place outside-order values at the end, searches expect them
/// there and refuse outside-order targets.
pub trait OrdSubsetSliceExt<T>: View<V = Seq<T>> {
    /// Sort the sequence in place.  In-order values come first, ascending;
    /// outside-order values are collected at the end.  The sort is stable:
    /// each class of equally-ranking elements keeps its relative order.
    fn ord_subset_sort(&mut self) where T: OrdSubset
        ensures
            final(self)@.len() == old(self)@.len(),
            final(self)@.to_multiset() == old(self)@.to_multiset(),
            sorted_policy(final(self)@),
            forall|w: T|
                #[trigger] final(self)@.filter(rel_equiv(le_policy_rel::<T>(), w)) == old(
                    self,
                )@.filter(rel_equiv(le_policy_rel::<T>(), w)),
    ;

    /// Sort the sequence in place in reverse order.  Only the order among
    /// in-order values is reversed: outside-order values still go to the
    /// end, and the sort is stable.
    fn ord_subset_sort_rev(&mut self) where T: OrdSubset
        ensures
            final(self)@.len() == old(self)@.len(),
            final(self)@.to_multiset() == old(self)@.to_multiset(),
            sorted_policy_rev(final(self)@),
            forall|w: T|
                #[trigger] final(self)@.filter(rel_equiv(le_policy_rev_rel::<T>(), w)) == old(
                    self,
                )@.filter(rel_equiv(le_policy_rev_rel::<T>(), w)),
    ;

    /// Sort the sequence in place without a stability guarantee; the
    /// placement of outside-order values is the same as for the sorting
    /// variant with one.
    fn ord_subset_sort_unstable(&mut self) where T: OrdSubset
        ensures
            final(self)@.len() == old(self)@.len(),
            final(self)@.to_multiset() == old(self)@.to_multiset(),
            sorted_policy(final(self)@),
    ;

    /// Reverse sort without a stability guarantee.
    fn ord_subset_sort_unstable_rev(&mut self) where T: OrdSubset
        ensures
            final(self)@.len() == old(self)@.len(),
            final(self)@.to_multiset() == old(self)@.to_multiset(),
            sorted_policy_rev(final(self)@),
    ;

    /// Sort the sequence in place, ordering in-order values by a
    /// caller-supplied comparison.  The comparison is only ever called on
    /// two in-order values; outside-order values go to the end regardless,
    /// and the sort is stable.
    fn ord_subset_sort_by<F: Fn(&T, &T) -> Ordering>(&mut self, compare: F) where T: OrdSubset
        requires
            cmp_fn_callable(compare),
            cmp_fn_deterministic(compare),
            cmp_fn_consistent(compare),
        ensures
            final(self)@.len() == old(self)@.len(),
            final(self)@.to_multiset() == old(self)@.to_multiset(),
            sorted_by_cmp_policy(final(self)@, spec_cmp_of(compare)),
            forall|w: T|
                #[trigger] final(self)@.filter(
                    rel_equiv(le_cmp_policy_rel(spec_cmp_of(compare)), w),
                ) == old(self)@.filter(rel_equiv(le_cmp_policy_rel(spec_cmp_of(compare)), w)),
    ;

    /// Sort the sequence in place by the key a closure extracts from each
    /// element.  Elements whose key is outside the order go to the end, and
    /// the sort is stable: elements whose keys rank equal keep their
    /// relative order.
    fn ord_subset_sort_by_key<B: OrdSubset, F: Fn(&T) -> B>(&mut self, f: F)
        requires
            key_fn_callable(f),
            key_fn_deterministic(f),
        ensures
            final(self)@.len() == old(self)@.len(),
            final(self)@.to_multiset() == old(self)@.to_multiset(),
            sorted_by_key_policy(final(self)@, spec_key_of(f)),
            forall|w: T|
                #[trigger] final(self)@.filter(
                    rel_equiv(le_key_policy_rel(spec_key_of(f)), w),
                ) == old(self)@.filter(rel_equiv(le_key_policy_rel(spec_key_of(f)), w)),
    ;

    /// Comparator sort without a stability guarantee.
    fn ord_subset_sort_unstable_by<F: Fn(&T, &T) -> Ordering>(&mut self, compare: F) where
        T: OrdSubset,
        requires
            cmp_fn_callable(compare),
            cmp_fn_deterministic(compare),
            cmp_fn_consistent(compare),
        ensures
            final(self)@.len() == old(self)@.len(),
            final(self)@.to_multiset() == old(self)@.to_multiset(),
            sorted_by_cmp_policy(final(self)@, spec_cmp_of(compare)),
    ;

    /// Key sort without a stability guarantee.
    fn ord_subset_sort_unstable_by_key<B: OrdSubset, F: Fn(&T) -> B>(&mut self, f: F)
        requires
            key_fn_callable(f),
            key_fn_deterministic(f),
        ensures
            final(self)@.len() == old(self)@.len(),
            final(self)@.to_multiset() == old(self)@.to_multiset(),
            sorted_by_key_policy(final(self)@, spec_key_of(f)),
    ;

    /// Binary search with a caller-supplied probe comparing each in-order
    /// element against the desired target; outside-order elements, which
    /// must occupy a suffix, rank greater than the target unconditionally.
    /// The probe's outcomes must be consistent with the slice's sort order.
    fn ord_subset_binary_search_by<F: Fn(&T) -> Ordering>(&self, f: F) -> (r: Result<
        usize,
        usize,
    >) where T: OrdSubset
        requires
            search_fn_callable(f),
            key_fn_deterministic(f),
            outside_trailing(self@),
            forall|i: int, j: int|
                0 <= i < j < self@.len() && !(#[trigger] self@[i]).outside_order_spec() && !(
                #[trigger] self@[j]).outside_order_spec() ==> rank(spec_key_of(f)(self@[i]))
                    <= rank(spec_key_of(f)(self@[j])),
        ensures
            match r {
                Ok(i) => 0 <= i < self@.len() && !self@[i as int].outside_order_spec()
                    && spec_key_of(f)(self@[i as int]) == Ordering::Equal,
                Err(k) => {
                    &&& 0 <= k <= self@.len()
                    &&& forall|i: int|
                        0 <= i < k ==> !(#[trigger] self@[i]).outside_order_spec() && spec_key_of(
                            f,
                        )(self@[i]) == Ordering::Less
                    &&& forall|i: int|
                        k <= i < self@.len() ==> (#[trigger] self@[i]).outside_order_spec()
                            || spec_key_of(f)(self@[i]) == Ordering::Greater
                },
            },
    ;

    /// Binary search a sequence sorted by `ord_subset_sort_by_key` for an
    /// in-order key.
    fn ord_subset_binary_search_by_key<B: OrdSubset, F: Fn(&T) -> B>(&self, b: &B, f: F) -> (r:
        Result<usize, usize>)
        requires
            key_fn_callable(f),
            key_fn_deterministic(f),
            !b.outside_order_spec(),
            sorted_by_key_policy(self@, spec_key_of(f)),
        ensures
            match r {
                Ok(i) => 0 <= i < self@.len() && !spec_key_of(f)(
                    self@[i as int],
                ).outside_order_spec() && spec_key_of(f)(self@[i as int]).cmp_spec(*b) == Some(
                    Ordering::Equal,
                ),
                Err(k) => {
                    &&& 0 <= k <= self@.len()
                    &&& forall|i: int|
                        0 <= i < k ==> !(#[trigger] spec_key_of(f)(
                            self@[i],
                        )).outside_order_spec() && in_lt(spec_key_of(f)(self@[i]), *b)
                    &&& forall|i: int|
                        k <= i < self@.len() ==> (#[trigger] spec_key_of(f)(
                            self@[i],
                        )).outside_order_spec() || spec_key_of(f)(self@[i]).cmp_spec(*b) == Some(
                            Ordering::Greater,
                        )
                },
            },
            r is Err ==> forall|i: int|
                0 <= i < self@.len() ==> (#[trigger] spec_key_of(f)(self@[i])).cmp_spec(*b)
                    != Some(Ordering::Equal),
    ;

    /// Binary search a sequence sorted by `ord_subset_sort` for an in-order
    /// target.  Returns the index of an element comparing equal to the
    /// target, or the index at which the target could be inserted while
    /// keeping the sequence sorted: everything before it compares less,
    /// everything from it on compares greater or is outside the order.
    fn ord_subset_binary_search(&self, x: &T) -> (r: Result<usize, usize>) where T: OrdSubset
        requires
            !x.outside_order_spec(),
            sorted_policy(self@),
        ensures
            match r {
                Ok(i) => 0 <= i < self@.len() && !self@[i as int].outside_order_spec()
                    && self@[i as int].cmp_spec(*x) == Some(Ordering::Equal),
                Err(k) => {
                    &&& 0 <= k <= self@.len()
                    &&& forall|i: int|
                        0 <= i < k ==> !(#[trigger] self@[i]).outside_order_spec() && in_lt(
                            self@[i],
                            *x,
                        )
                    &&& forall|i: int|
                        k <= i < self@.len() ==> (#[trigger] self@[i]).outside_order_spec() || self@[i].cmp_spec(
                            *x,
                        ) == Some(Ordering::Greater)
                },
            },
            r is Err ==> forall|i: int|
                0 <= i < self@.len() ==> (#[trigger] self@[i]).cmp_spec(*x) != Some(
                    Ordering::Equal,
                ),
    ;

    /// Binary search a sequence sorted by `ord_subset_sort_rev` for an
    /// in-order target; only the comparison direction among in-order values
    /// is negated.
    fn ord_subset_binary_search_rev(&self, x: &T) -> (r: Result<usize, usize>) where T: OrdSubset
        requires
            !x.outside_order_spec(),
            sorted_policy_rev(self@),
        ensures
            match r {
                Ok(i) => 0 <= i < self@.len() && !self@[i as int].outside_order_spec()
                    && x.cmp_spec(self@[i as int]) == Some(Ordering::Equal),
                Err(k) => {
                    &&& 0 <= k <= self@.len()
                    &&& forall|i: int|
                        0 <= i < k ==> !(#[trigger] self@[i]).outside_order_spec() && in_lt(
                            *x,
                            self@[i],
                        )
                    &&& forall|i: int|
                        k <= i < self@.len() ==> (#[trigger] self@[i]).outside_order_spec() || x.cmp_spec(
                            self@[i],
                        ) == Some(Ordering::Greater)
                },
            },
            r is Err ==> forall|i: int|
                0 <= i < self@.len() ==> x.cmp_spec(#[trigger] self@[i]) != Some(Ordering::Equal),
    ;
}

impl<T> OrdSubsetSliceExt<T> for Vec<T> {
    fn ord_subset_sort(&mut self) where T: OrdSubset {
        let leq = |a: &T, b: &T| -> (o: bool)
            ensures
                o == le_policy(*a, *b),
            {
                if a.is_outside_order() {
                    b.is_outside_order()
                } else if b.is_outside_order() {
                    true
                } else {
                    proof {
                        T::lemma_cmp_properties(*a, *b, *a);
                    }
                    match a.partial_compare(b) {
                        Some(Ordering::Greater) => false,
                        _ => true,
                    }
                }
            };
        let ghost rr = le_policy_rel::<T>();
        proof {
            lemma_le_policy_preorder::<T>();
        }
        sort_core(self, leq, Ghost(rr));
        proof {
            assert forall|i: int, j: int| 0 <= i < j < self@.len() implies #[trigger] le_policy(
                self@[i],
                self@[j],
            ) by {
                assert(rr(self@[i], self@[j]));
            }
        }
    }

    fn ord_subset_sort_rev(&mut self) where T: OrdSubset {
        let leq = |a: &T, b: &T| -> (o: bool)
            ensures
                o == le_policy_rev(*a, *b),
            {
                if a.is_outside_order() {
                    b.is_outside_order()
                } else if b.is_outside_order() {
                    true
                } else {
                    proof {
                        T::lemma_cmp_properties(*b, *a, *b);
                    }
                    match b.partial_compare(a) {
                        Some(Ordering::Greater) => false,
                        _ => true,
                    }
                }
            };
        let ghost rr = le_policy_rev_rel::<T>();
        proof {
            lemma_le_policy_rev_preorder::<T>();
        }
        sort_core(self, leq, Ghost(rr));
        proof {
            assert forall|i: int, j: int| 0 <= i < j < self@.len() implies #[trigger] le_policy_rev(
                self@[i],
                self@[j],
            ) by {
                assert(rr(self@[i], self@[j]));
            }
        }
    }

    fn ord_subset_sort_unstable(&mut self) where T: OrdSubset {
        self.ord_subset_sort();
    }

    fn ord_subset_sort_unstable_rev(&mut self) where T: OrdSubset {
        self.ord_subset_sort_rev();
    }

    fn ord_subset_sort_by<F: Fn(&T, &T) -> Ordering>(&mut self, compare: F) where T: OrdSubset {
        let ghost c = spec_cmp_of(compare);
        let fr = &compare;
        let leq = |a: &T, b: &T| -> (o: bool)
            ensures
                o == le_cmp_policy(spec_cmp_of(*fr), *a, *b),
            {
                match cmp_unordered_greater_all(a, b, fr) {
                    Ordering::Greater => false,
                    _ => true,
                }
            };
        let ghost rr = le_cmp_policy_rel(c);
        proof {
            lemma_le_cmp_policy_preorder::<T, F>(compare);
            assert forall|a: T, b: T| #[trigger] rr(a, b) || #[trigger] rr(b, a) by {
                assert(le_cmp_policy(c, a, b) || le_cmp_policy(c, b, a));
            }
            assert forall|a: T, b: T, cc: T| #[trigger] rr(a, b) && #[trigger] rr(b, cc) implies rr(
                a,
                cc,
            ) by {
                assert(le_cmp_policy(c, a, b) && le_cmp_policy(c, b, cc));
                assert(le_cmp_policy(c, a, cc));
            }
        }
        sort_core(self, leq, Ghost(rr));
        proof {
            assert forall|i: int, j: int| 0 <= i < j < self@.len() implies #[trigger] le_cmp_policy(
                c,
                self@[i],
                self@[j],
            ) by {
                assert(rr(self@[i], self@[j]));
            }
        }
    }

    fn ord_subset_sort_by_key<B: OrdSubset, F: Fn(&T) -> B>(&mut self, f: F) {
        let ghost kf = spec_key_of(f);
        let fr = &f;
        let leq = |a: &T, b: &T| -> (o: bool)
            ensures
                o == le_policy(spec_key_of(*fr)(*a), spec_key_of(*fr)(*b)),
            {
                let ka = (*fr)(a);
                let kb = (*fr)(b);
                proof {
                    lemma_key_call_determined(fr, *a, ka);
                    lemma_key_call_determined(fr, *b, kb);
                }
                if ka.is_outside_order() {
                    kb.is_outside_order()
                } else if kb.is_outside_order() {
                    true
                } else {
                    proof {
                        B::lemma_cmp_properties(ka, kb, ka);
                    }
                    match ka.partial_compare(&kb) {
                        Some(Ordering::Greater) => false,
                        _ => true,
                    }
                }
            };
        let ghost rr = le_key_policy_rel(kf);
        proof {
            lemma_le_policy_preorder::<B>();
            assert forall|a: T, b: T| #[trigger] rr(a, b) || #[trigger] rr(b, a) by {
                assert(le_policy(kf(a), kf(b)) || le_policy(kf(b), kf(a)));
            }
            assert forall|a: T, b: T, cc: T| #[trigger] rr(a, b) && #[trigger] rr(b, cc) implies rr(
                a,
                cc,
            ) by {
                assert(le_policy(kf(a), kf(b)) && le_policy(kf(b), kf(cc)));
                assert(le_policy(kf(a), kf(cc)));
            }
        }
        sort_core(self, leq, Ghost(rr));
        proof {
            assert forall|i: int, j: int| 0 <= i < j < self@.len() implies #[trigger] le_policy(
                kf(self@[i]),
                kf(self@[j]),
            ) by {
                assert(rr(self@[i], self@[j]));
            }
        }
    }

    fn ord_subset_sort_unstable_by<F: Fn(&T, &T) -> Ordering>(&mut self, compare: F) where
        T: OrdSubset,
    {
        self.ord_subset_sort_by(compare);
    }

    fn ord_subset_sort_unstable_by_key<B: OrdSubset, F: Fn(&T) -> B>(&mut self, f: F) {
        self.ord_subset_sort_by_key(f);
    }

    fn ord_subset_binary_search_by<F: Fn(&T) -> Ordering>(&self, f: F) -> (r: Result<
        usize,
        usize,
    >) where T: OrdSubset {
        let ghost pf = spec_key_of(f);
        let fr = &f;
        let probe = |e: &T| -> (o: Ordering)
            ensures
                o == (if e.outside_order_spec() {
                    Ordering::Greater
                } else {
                    spec_key_of(*fr)(*e)
                }),
            {
                if e.is_outside_order() {
                    Ordering::Greater
                } else {
                    let o = (*fr)(e);
                    proof {
                        lemma_key_call_determined(fr, *e, o);
                    }
                    o
                }
            };
        let ghost g = |e: T|
            if e.outside_order_spec() {
                Ordering::Greater
            } else {
                pf(e)
            };
        proof {
            assert forall|i: int, j: int| 0 <= i < j < self@.len() implies rank(
                #[trigger] g(self@[i]),
            ) <= rank(#[trigger] g(self@[j])) by {
                if self@[i].outside_order_spec() {
                    assert(self@[j].outside_order_spec());
                } else if !self@[j].outside_order_spec() {
                    assert(rank(pf(self@[i])) <= rank(pf(self@[j])));
                }
            }
        }
        let r = binary_search_core(self, probe, Ghost(g));
        proof {
            match r {
                Ok(i) => {
                    assert(g(self@[i as int]) == Ordering::Equal);
                },
                Err(k) => {
                    assert forall|i: int| 0 <= i < k implies !(
                    #[trigger] self@[i]).outside_order_spec() && pf(self@[i])
                        == Ordering::Less by {
                        assert(g(self@[i]) == Ordering::Less);
                    }
                    assert forall|i: int| k <= i < self@.len() implies (
                    #[trigger] self@[i]).outside_order_spec() || pf(self@[i])
                        == Ordering::Greater by {
                        assert(g(self@[i]) == Ordering::Greater);
                    }
                },
            }
        }
        r
    }

    fn ord_subset_binary_search_by_key<B: OrdSubset, F: Fn(&T) -> B>(&self, b: &B, f: F) -> (r:
        Result<usize, usize>) {
        let ghost kf = spec_key_of(f);
        let fr = &f;
        let probe = |e: &T| -> (o: Ordering)
            ensures
                o == search_ord(spec_key_of(*fr)(*e), *b),
            {
                let ke = (*fr)(e);
                proof {
                    lemma_key_call_determined(fr, *e, ke);
                }
                if ke.is_outside_order() {
                    Ordering::Greater
                } else {
                    match ke.partial_compare(b) {
                        Some(o) => o,
                        None => Ordering::Greater,
                    }
                }
            };
        let ghost g = |e: T| search_ord(kf(e), *b);
        proof {
            assert forall|i: int, j: int| 0 <= i < j < self@.len() implies #[trigger] le_policy(
                kf(self@[i]),
                kf(self@[j]),
            ) by {
                assert(le_policy(spec_key_of(f)(self@[i]), spec_key_of(f)(self@[j])));
            }
            lemma_sorted_key_monotone::<T, B>(self@, kf, *b);
            assert forall|i: int, j: int| 0 <= i < j < self@.len() implies rank(
                #[trigger] g(self@[i]),
            ) <= rank(#[trigger] g(self@[j])) by {
                assert(rank(search_ord(kf(self@[i]), *b)) <= rank(search_ord(kf(self@[j]), *b)));
            }
        }
        let r = binary_search_core(self, probe, Ghost(g));
        proof {
            match r {
                Ok(i) => {
                    assert(g(self@[i as int]) == Ordering::Equal);
                },
                Err(k) => {
                    assert forall|i: int| 0 <= i < k implies !(#[trigger] spec_key_of(f)(
                        self@[i],
                    )).outside_order_spec() && in_lt(spec_key_of(f)(self@[i]), *b) by {
                        assert(g(self@[i]) == Ordering::Less);
                    }
                    assert forall|i: int| k <= i < self@.len() implies (#[trigger] spec_key_of(f)(
                        self@[i],
                    )).outside_order_spec() || spec_key_of(f)(self@[i]).cmp_spec(*b) == Some(
                        Ordering::Greater,
                    ) by {
                        assert(g(self@[i]) == Ordering::Greater);
                        B::lemma_cmp_properties(kf(self@[i]), *b, *b);
                    }
                    assert forall|i: int| 0 <= i < self@.len() implies (#[trigger] spec_key_of(f)(
                        self@[i],
                    )).cmp_spec(*b) != Some(Ordering::Equal) by {
                        if i < k {
                            assert(g(self@[i]) == Ordering::Less);
                        } else {
                            assert(g(self@[i]) == Ordering::Greater);
                            B::lemma_cmp_properties(kf(self@[i]), *b, *b);
                        }
                    }
                },
            }
        }
        r
    }

    fn ord_subset_binary_search(&self, x: &T) -> (r: Result<usize, usize>) where T: OrdSubset {
        let probe = |e: &T| -> (o: Ordering)
            ensures
                o == search_ord(*e, *x),
            {
                if e.is_outside_order() {
                    Ordering::Greater
                } else {
                    match e.partial_compare(x) {
                        Some(o) => o,
                        None => Ordering::Greater,
                    }
                }
            };
        let ghost g = |e: T| search_ord(e, *x);
        proof {
            let k = |e: T| e;
            assert forall|i: int, j: int| 0 <= i < j < self@.len() implies #[trigger] le_policy(
                k(self@[i]),
                k(self@[j]),
            ) by {
                assert(le_policy(self@[i], self@[j]));
            }
            lemma_sorted_key_monotone::<T, T>(self@, k, *x);
            assert forall|i: int, j: int| 0 <= i < j < self@.len() implies rank(
                #[trigger] g(self@[i]),
            ) <= rank(#[trigger] g(self@[j])) by {
                assert(rank(search_ord(k(self@[i]), *x)) <= rank(search_ord(k(self@[j]), *x)));
            }
        }
        let r = binary_search_core(self, probe, Ghost(g));
        proof {
            match r {
                Ok(i) => {
                    assert(g(self@[i as int]) == Ordering::Equal);
                },
                Err(k) => {
                    assert forall|i: int| 0 <= i < k implies !(
                    #[trigger] self@[i]).outside_order_spec() && in_lt(self@[i], *x) by {
                        assert(g(self@[i]) == Ordering::Less);
                    }
                    assert forall|i: int| k <= i < self@.len() implies (
                    #[trigger] self@[i]).outside_order_spec() || self@[i].cmp_spec(*x) == Some(
                        Ordering::Greater,
                    ) by {
                        assert(g(self@[i]) == Ordering::Greater);
                        T::lemma_cmp_properties(self@[i], *x, *x);
                    }
                    assert forall|i: int| 0 <= i < self@.len() implies (
                    #[trigger] self@[i]).cmp_spec(*x) != Some(Ordering::Equal) by {
                        if i < k {
                            assert(g(self@[i]) == Ordering::Less);
                        } else {
                            assert(g(self@[i]) == Ordering::Greater);
                            T::lemma_cmp_properties(self@[i], *x, *x);
                        }
                    }
                },
            }
        }
        r
    }

    fn ord_subset_binary_search_rev(&self, x: &T) -> (r: Result<usize, usize>) where T: OrdSubset {
        let probe = |e: &T| -> (o: Ordering)
            ensures
                o == search_ord_rev(*e, *x),
            {
                if e.is_outside_order() {
                    Ordering::Greater
                } else {
                    match x.partial_compare(e) {
                        Some(o) => o,
                        None => Ordering::Greater,
                    }
                }
            };
        let ghost g = |e: T| search_ord_rev(e, *x);
        proof {
            lemma_sorted_rev_monotone::<T>(self@, *x);
            assert forall|i: int, j: int| 0 <= i < j < self@.len() implies rank(
                #[trigger] g(self@[i]),
            ) <= rank(#[trigger] g(self@[j])) by {
                assert(rank(search_ord_rev(self@[i], *x)) <= rank(search_ord_rev(self@[j], *x)));
            }
        }
        let r = binary_search_core(self, probe, Ghost(g));
        proof {
            match r {
                Ok(i) => {
                    assert(g(self@[i as int]) == Ordering::Equal);
                },
                Err(k) => {
                    assert forall|i: int| 0 <= i < k implies !(
                    #[trigger] self@[i]).outside_order_spec() && in_lt(*x, self@[i]) by {
                        assert(g(self@[i]) == Ordering::Less);
                    }
                    assert forall|i: int| k <= i < self@.len() implies (
                    #[trigger] self@[i]).outside_order_spec() || x.cmp_spec(self@[i]) == Some(
                        Ordering::Greater,
                    ) by {
                        assert(g(self@[i]) == Ordering::Greater);
                        T::lemma_cmp_properties(*x, self@[i], self@[i]);
                    }
                    assert forall|i: int| 0 <= i < self@.len() implies x.cmp_spec(
                        #[trigger] self@[i],
                    ) != Some(Ordering::Equal) by {
                        if i < k {
                            assert(g(self@[i]) == Ordering::Less);
                        } else {
                            assert(g(self@[i]) == Ordering::Greater);
                            T::lemma_cmp_properties(*x, self@[i], self@[i]);
                        }
                    }
                },
            }
        }
        r
    }
}

} // verus!
