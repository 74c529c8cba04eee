//! Stable ordering of sequences by a strict weak order, as used to list
//! customers by identifier and the tiers of a charge by position.
use vstd::prelude::*;

verus! {

broadcast use {vstd::seq_lib::group_to_multiset_ensures, vstd::multiset::group_multiset_axioms};

/// `x` placed after every element that does not sort strictly after it.
pub open spec fn insert_in_order<T>(s: Seq<T>, x: T, before: spec_fn(T, T) -> bool) -> Seq<T>
    decreases s.len(),
{
    if s.len() == 0 {
        seq![x]
    } else if before(x, s.last()) {
        insert_in_order(s.drop_last(), x, before).push(s.last())
    } else {
        s.push(x)
    }
}

/// The stable sort of `s`: elements in `before` order, elements that compare
/// equal keeping their relative order in `s`.
pub open spec fn sorted_stably<T>(s: Seq<T>, before: spec_fn(T, T) -> bool) -> Seq<T>
    decreases s.len(),
{
    if s.len() == 0 {
        s
    } else {
        insert_in_order(sorted_stably(s.drop_last(), before), s.last(), before)
    }
}

/// No element sorts strictly before an earlier one.
pub open spec fn is_ordered<T>(s: Seq<T>, before: spec_fn(T, T) -> bool) -> bool {
    forall|i: int, j: int| 0 <= i < j < s.len() ==> !before(#[trigger] s[j], #[trigger] s[i])
}

/// `before` is a strict weak order.
pub open spec fn strict_weak_order<T>(before: spec_fn(T, T) -> bool) -> bool {
    &&& forall|a: T| !#[trigger] before(a, a)
    &&& forall|a: T, b: T, c: T| #[trigger] before(a, b) && #[trigger] before(b, c) ==> before(a, c)
    &&& forall|a: T, b: T, c: T|
        !(#[trigger] before(a, b)) && !(#[trigger] before(b, c)) ==> !before(a, c)
}

/// Inserting at the place found by scanning back from the end over the elements
/// that sort after `x` is the ordered insertion.
pub proof fn lemma_insert_at<T>(s: Seq<T>, x: T, before: spec_fn(T, T) -> bool, j: int)
    requires
        0 <= j <= s.len(),
        forall|k: int| j <= k < s.len() ==> before(x, #[trigger] s[k]),
        j == 0 || !before(x, s[j - 1]),
    ensures
        insert_in_order(s, x, before) == s.insert(j, x),
    decreases s.len(),
{
    if s.len() == 0 {
        assert(s.insert(j, x) =~= seq![x]);
    } else if j == s.len() {
        assert(s.insert(j, x) =~= s.push(x));
    } else {
        let t = s.drop_last();
        assert(before(x, s[s.len() - 1]));
        assert forall|k: int| j <= k < t.len() implies before(x, #[trigger] t[k]) by {
            assert(t[k] == s[k]);
        }
        lemma_insert_at(t, x, before, j);
        assert(t.insert(j, x).push(s.last()) =~= s.insert(j, x));
    }
}

/// Ordered insertion adds exactly `x` to the multiset of elements.
pub proof fn lemma_insert_multiset<T>(s: Seq<T>, x: T, before: spec_fn(T, T) -> bool)
    ensures
        insert_in_order(s, x, before).to_multiset() =~= s.to_multiset().insert(x),
        insert_in_order(s, x, before).len() == s.len() + 1,
    decreases s.len(),
{
    if s.len() == 0 {
        assert(seq![x] =~= Seq::<T>::empty().push(x));
    } else if before(x, s.last()) {
        let t = s.drop_last();
        lemma_insert_multiset(t, x, before);
        assert(t.push(s.last()) =~= s);
    }
}

/// The stable sort is a permutation.
pub proof fn lemma_sorted_multiset<T>(s: Seq<T>, before: spec_fn(T, T) -> bool)
    ensures
        sorted_stably(s, before).to_multiset() =~= s.to_multiset(),
        sorted_stably(s, before).len() == s.len(),
    decreases s.len(),
{
    if s.len() > 0 {
        let t = s.drop_last();
        lemma_sorted_multiset(t, before);
        lemma_insert_multiset(sorted_stably(t, before), s.last(), before);
        assert(t.push(s.last()) =~= s);
    }
}

/// Ordered insertion keeps a sequence ordered.
pub proof fn lemma_insert_ordered<T>(s: Seq<T>, x: T, before: spec_fn(T, T) -> bool)
    requires
        strict_weak_order(before),
        is_ordered(s, before),
    ensures
        is_ordered(insert_in_order(s, x, before), before),
    decreases s.len(),
{
    if s.len() == 0 {
    } else if before(x, s.last()) {
        let t = s.drop_last();
        let last = s.last();
        assert(is_ordered(t, before)) by {
            assert forall|i: int, j: int| 0 <= i < j < t.len() implies !before(
                #[trigger] t[j],
                #[trigger] t[i],
            ) by {
                assert(t[i] == s[i] && t[j] == s[j]);
            }
        }
        lemma_insert_ordered(t, x, before);
        let u = insert_in_order(t, x, before);
        lemma_insert_multiset(t, x, before);
        assert forall|i: int| 0 <= i < u.len() implies !before(last, #[trigger] u[i]) by {
            assert(u.to_multiset().count(u[i]) > 0);
            assert(u.to_multiset() == t.to_multiset().insert(x));
            if u[i] != x {
                assert(t.to_multiset().count(u[i]) > 0);
                assert(t.contains(u[i]));
                let k = choose|k: int| 0 <= k < t.len() && t[k] == u[i];
                assert(s[k] == t[k]);
                assert(!before(s[s.len() - 1], s[k]));
            } else {
                assert(!before(last, x));
            }
        }
        let r = u.push(last);
        assert forall|i: int, j: int| 0 <= i < j < r.len() implies !before(
            #[trigger] r[j],
            #[trigger] r[i],
        ) by {
            if j < u.len() {
                assert(r[i] == u[i] && r[j] == u[j]);
            } else {
                assert(r[j] == last && r[i] == u[i]);
            }
        }
    } else {
        let r = s.push(x);
        assert forall|i: int, j: int| 0 <= i < j < r.len() implies !before(
            #[trigger] r[j],
            #[trigger] r[i],
        ) by {
            if j < s.len() {
                assert(r[i] == s[i] && r[j] == s[j]);
            } else {
                assert(r[j] == x && r[i] == s[i]);
                if i < s.len() - 1 {
                    assert(!before(s[s.len() - 1], s[i]));
                }
                assert(!before(x, s[s.len() - 1]));
            }
        }
    }
}

/// The stable sort is ordered.
pub proof fn lemma_sorted_ordered<T>(s: Seq<T>, before: spec_fn(T, T) -> bool)
    requires
        strict_weak_order(before),
    ensures
        is_ordered(sorted_stably(s, before), before),
    decreases s.len(),
{
    if s.len() > 0 {
        lemma_sorted_ordered(s.drop_last(), before);
        lemma_insert_ordered(sorted_stably(s.drop_last(), before), s.last(), before);
    }
}

} // verus!
