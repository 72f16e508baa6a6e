//! Sequences that hold the same items in another order.

use vstd::prelude::*;
use vstd::seq_lib::*;

verus! {

/// Filtering and mapping a concatenation is the same as doing so to its
/// two parts.
pub proof fn filter_map_of_concat<A, B>(p: Seq<A>, q: Seq<A>, f: spec_fn(A) -> Option<B>)
    ensures
        (p + q).filter_map(f) == p.filter_map(f) + q.filter_map(f),
    decreases q.len(),
{
    if q.len() == 0 {
        assert(p + q =~= p);
        assert(p.filter_map(f) + q.filter_map(f) =~= p.filter_map(f));
    } else {
        assert((p + q).drop_last() =~= p + q.drop_last());
        assert((p + q).last() == q.last());
        filter_map_of_concat(p, q.drop_last(), f);
        match f(q.last()) {
            Some(y) => {
                assert((p + q).filter_map(f) =~= p.filter_map(f) + q.filter_map(f));
            },
            None => {},
        }
    }
}

/// Two sequences with the same items, each as often in one as in the other,
/// still have the same items after filtering and mapping.
pub proof fn filter_map_keeps_same_items<A, B>(a: Seq<A>, b: Seq<A>, f: spec_fn(A) -> Option<B>)
    requires
        a.to_multiset() == b.to_multiset(),
    ensures
        a.filter_map(f).to_multiset() == b.filter_map(f).to_multiset(),
    decreases a.len(),
{
    to_multiset_len(a);
    to_multiset_len(b);
    if a.len() == 0 {
        assert(b =~= Seq::<A>::empty());
        assert(a =~= Seq::<A>::empty());
    } else {
        let x = a.last();
        let front = a.drop_last();
        assert(a =~= front.push(x));
        to_multiset_build(front, x);
        assert(a.to_multiset().count(x) > 0);
        to_multiset_contains(b, x);
        let k = choose|k: int| 0 <= k < b.len() && b[k] == x;
        let rest = b.remove(k);
        to_multiset_remove(b, k);
        assert(front.to_multiset() =~= rest.to_multiset());
        filter_map_keeps_same_items(front, rest, f);

        let left = b.take(k);
        let right = b.skip(k + 1);
        let mid = seq![x];
        assert(b =~= left + mid + right);
        assert(rest =~= left + right);
        filter_map_of_concat(left, mid, f);
        filter_map_of_concat(left + mid, right, f);
        filter_map_of_concat(left, right, f);
        filter_map_of_concat(front, mid, f);
        let l = left.filter_map(f);
        let m = mid.filter_map(f);
        let r = right.filter_map(f);
        let fr = front.filter_map(f);
        assert(a =~= front + mid);
        assert(a.filter_map(f) == fr + m);
        assert(b.filter_map(f) == l + m + r);
        assert(rest.filter_map(f) == l + r);
        lemma_multiset_commutative(fr, m);
        lemma_multiset_commutative(l + m, r);
        lemma_multiset_commutative(l, m);
        lemma_multiset_commutative(l, r);
        assert((l + m + r).to_multiset() =~= (l + r).to_multiset().add(m.to_multiset()));
    }
}

} // verus!
