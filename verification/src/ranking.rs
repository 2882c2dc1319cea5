//! A stable sort by a strict ranking, and what it guarantees.
//!
//! The ranking is stated over views, so that the order of a list can be
//! spoken of before the list exists.

use vstd::multiset::Multiset;
use vstd::prelude::*;

verus! {

/// A type whose values are ranked by a strict weak order on their views.
pub trait Ranked: View + Sized {
    /// Whether a value with view `a` ranks strictly before one with view `b`.
    spec fn before(a: Self::V, b: Self::V) -> bool;

    /// Whether `self` ranks strictly before `other`.
    fn comes_before(&self, other: &Self) -> (first: bool)
        ensures
            first == Self::before(self@, other@),
    ;

    /// `before` is a strict weak order: nothing ranks before itself, the
    /// relation is transitive, and so is ranking level.
    proof fn lemma_strict_weak(a: Self::V, b: Self::V, c: Self::V)
        ensures
            !Self::before(a, a),
            Self::before(a, b) && Self::before(b, c) ==> Self::before(a, c),
            !Self::before(a, b) && !Self::before(b, c) ==> !Self::before(a, c),
    ;
}

/// The views of a list of values.
pub open spec fn views<T: View>(list: Seq<T>) -> Seq<T::V> {
    list.map_values(|item: T| item@)
}

/// Where `item` goes into `sorted`: behind the leading run of entries that
/// rank strictly before it.
pub open spec fn slot<T: Ranked>(sorted: Seq<T::V>, item: T::V) -> nat
    decreases sorted.len(),
{
    if sorted.len() > 0 && T::before(sorted[0], item) {
        1 + slot::<T>(sorted.drop_first(), item)
    } else {
        0
    }
}

/// `list` sorted by rank, entries of level rank in the order in which
/// `list` holds them: each entry is put in front of the sorted rest, behind
/// those that rank strictly before it.
pub open spec fn stable_sorted<T: Ranked>(list: Seq<T::V>) -> Seq<T::V>
    decreases list.len(),
{
    if list.len() == 0 {
        list
    } else {
        let rest = stable_sorted::<T>(list.drop_first());
        rest.insert(slot::<T>(rest, list[0]) as int, list[0])
    }
}

/// No entry ranks strictly before an earlier one.
pub open spec fn is_sorted<T: Ranked>(list: Seq<T::V>) -> bool {
    forall|i: int, j: int| 0 <= i < j < list.len() ==> !T::before(list[j], list[i])
}

/// Of any two entries at different places one ranks strictly before the
/// other.
pub open spec fn no_ties<T: Ranked>(list: Seq<T::V>) -> bool {
    forall|i: int, j: int|
        0 <= i < list.len() && 0 <= j < list.len() && i != j ==> T::before(list[i], list[j])
            || T::before(list[j], list[i])
}

/// Sorts `list` by rank. The sort is stable: values of level rank keep the
/// order in which `list` holds them. The result holds the values of `list`,
/// each as often as `list` does.
pub fn sort_ranked<T: Ranked>(list: Vec<T>) -> (out: Vec<T>)
    ensures
        views(out@) == stable_sorted::<T>(views(list@)),
        out@.to_multiset() == list@.to_multiset(),
{
    let ghost whole = list@;
    let mut list = list;
    let mut out: Vec<T> = Vec::new();
    proof {
        assert(views(whole).skip(whole.len() as int) =~= Seq::<T::V>::empty());
        assert(views(out@) =~= Seq::<T::V>::empty());
        assert(out@.to_multiset() =~= Multiset::<T>::empty()) by {
            broadcast use vstd::seq_lib::group_to_multiset_ensures;

            assert(out@.to_multiset().len() == 0);
        }
        assert(out@.to_multiset().add(list@.to_multiset()) =~= whole.to_multiset());
        assert(whole.take(whole.len() as int) =~= whole);
    }
    while list.len() > 0
        invariant
            list@ == whole.take(list.len() as int),
            list.len() <= whole.len(),
            views(out@) == stable_sorted::<T>(views(whole).skip(list.len() as int)),
            out@.to_multiset().add(list@.to_multiset()) == whole.to_multiset(),
        decreases list.len(),
    {
        let ghost before_list = list@;
        let ghost before_out = out@;
        let item = list.pop().unwrap();
        let ghost ranked = views(out@);
        let mut place: usize = 0;
        proof {
            assert(ranked.skip(0) =~= ranked);
        }
        while place < out.len() && out[place].comes_before(&item)
            invariant
                place <= out.len(),
                ranked == views(out@),
                slot::<T>(ranked, item@) == place + slot::<T>(ranked.skip(place as int), item@),
            decreases out.len() - place,
        {
            proof {
                assert(ranked.skip(place as int)[0] == out@[place as int]@);
                assert(ranked.skip(place as int).drop_first() =~= ranked.skip(place + 1));
            }
            place += 1;
        }
        proof {
            if place < out.len() {
                assert(ranked.skip(place as int)[0] == out@[place as int]@);
            }
            let tail = views(whole).skip(list.len() as int);
            assert(tail[0] == item@);
            assert(tail.drop_first() =~= views(whole).skip(list.len() + 1));
            assert(views(out@.insert(place as int, item)) =~= ranked.insert(
                place as int,
                item@,
            ));
            vstd::seq_lib::to_multiset_insert(out@, place as int, item);
            assert(before_list =~= list@.push(item));
            vstd::seq_lib::to_multiset_build(list@, item);
            assert(out@.to_multiset().insert(item).add(list@.to_multiset())
                =~= before_out.to_multiset().add(before_list.to_multiset()));
            assert(list@ =~= whole.take(list.len() as int));
        }
        out.insert(place, item);
    }
    proof {
        assert(views(whole).skip(0) =~= views(whole));
        assert(list@.to_multiset() =~= Multiset::<T>::empty()) by {
            broadcast use vstd::seq_lib::group_to_multiset_ensures;

            assert(list@.to_multiset().len() == 0);
        }
        assert(out@.to_multiset().add(list@.to_multiset()) =~= out@.to_multiset());
    }
    out
}

/// Entries in front of the slot rank strictly before the item; the entry
/// at the slot, if there is one, does not.
pub proof fn lemma_slot<T: Ranked>(sorted: Seq<T::V>, item: T::V)
    ensures
        slot::<T>(sorted, item) <= sorted.len(),
        forall|i: int| 0 <= i < slot::<T>(sorted, item) ==> T::before(#[trigger] sorted[i], item),
        slot::<T>(sorted, item) < sorted.len() ==> !T::before(
            sorted[slot::<T>(sorted, item) as int],
            item,
        ),
    decreases sorted.len(),
{
    if sorted.len() > 0 && T::before(sorted[0], item) {
        let rest = sorted.drop_first();
        lemma_slot::<T>(rest, item);
        assert forall|i: int| 0 <= i < slot::<T>(sorted, item) implies T::before(
            #[trigger] sorted[i],
            item,
        ) by {
            if i > 0 {
                assert(sorted[i] == rest[i - 1]);
            }
        }
        if slot::<T>(sorted, item) < sorted.len() {
            assert(sorted[slot::<T>(sorted, item) as int] == rest[slot::<T>(rest, item) as int]);
        }
    }
}

/// Putting an item into its slot keeps a sorted list sorted.
pub proof fn lemma_insert_keeps_sorted<T: Ranked>(sorted: Seq<T::V>, item: T::V)
    requires
        is_sorted::<T>(sorted),
    ensures
        is_sorted::<T>(sorted.insert(slot::<T>(sorted, item) as int, item)),
{
    let at = slot::<T>(sorted, item) as int;
    let grown = sorted.insert(at, item);
    lemma_slot::<T>(sorted, item);
    assert forall|i: int, j: int| 0 <= i < j < grown.len() implies !T::before(
        grown[j],
        grown[i],
    ) by {
        if j < at {
            assert(grown[i] == sorted[i] && grown[j] == sorted[j]);
        } else if j == at {
            assert(grown[i] == sorted[i]);
            T::lemma_strict_weak(sorted[i], item, sorted[i]);
        } else if i < at {
            assert(grown[i] == sorted[i] && grown[j] == sorted[j - 1]);
        } else if i == at {
            assert(grown[j] == sorted[j - 1]);
            if j - 1 > at {
                T::lemma_strict_weak(sorted[j - 1], sorted[at], item);
            }
        } else {
            assert(grown[i] == sorted[i - 1] && grown[j] == sorted[j - 1]);
        }
    }
}

/// The sorted list is sorted, and holds what the list holds, each entry as
/// often.
pub proof fn lemma_stable_sorted<T: Ranked>(list: Seq<T::V>)
    ensures
        is_sorted::<T>(stable_sorted::<T>(list)),
        stable_sorted::<T>(list).to_multiset() == list.to_multiset(),
        stable_sorted::<T>(list).len() == list.len(),
    decreases list.len(),
{
    broadcast use vstd::seq_lib::group_to_multiset_ensures;

    if list.len() > 0 {
        let rest = stable_sorted::<T>(list.drop_first());
        lemma_stable_sorted::<T>(list.drop_first());
        lemma_slot::<T>(rest, list[0]);
        lemma_insert_keeps_sorted::<T>(rest, list[0]);
        let at = slot::<T>(rest, list[0]) as int;
        vstd::seq_lib::to_multiset_insert(rest, at, list[0]);
        assert(list.drop_first() =~= list.remove(0));
        vstd::seq_lib::to_multiset_remove(list, 0);
        assert(list.to_multiset().remove(list[0]).insert(list[0]) =~= list.to_multiset());
    }
}

/// Sorting leaves a sorted list as it is. So entries of level rank, which
/// no sorted order tells apart, stay in the order in which they were given.
pub proof fn lemma_sorted_stays<T: Ranked>(list: Seq<T::V>)
    requires
        is_sorted::<T>(list),
    ensures
        stable_sorted::<T>(list) == list,
    decreases list.len(),
{
    if list.len() > 0 {
        let rest = list.drop_first();
        assert forall|i: int, j: int| 0 <= i < j < rest.len() implies !T::before(
            rest[j],
            rest[i],
        ) by {
            assert(rest[i] == list[i + 1] && rest[j] == list[j + 1]);
        }
        lemma_sorted_stays::<T>(rest);
        if rest.len() > 0 {
            assert(rest[0] == list[1]);
            assert(!T::before(list[1], list[0]));
        }
        assert(slot::<T>(rest, list[0]) == 0);
        assert(rest.insert(0, list[0]) =~= list);
    }
}

/// A list without ties holds no entry twice, and every list that holds the
/// same entries is without ties too.
pub proof fn lemma_no_ties_carries_over<T: Ranked>(a: Seq<T::V>, b: Seq<T::V>)
    requires
        no_ties::<T>(a),
        a.to_multiset() == b.to_multiset(),
    ensures
        no_ties::<T>(b),
        a.no_duplicates(),
        b.no_duplicates(),
{
    broadcast use vstd::seq_lib::group_to_multiset_ensures;

    assert forall|i: int, j: int| 0 <= i < a.len() && 0 <= j < a.len() && i != j implies a[i]
        != a[j] by {
        T::lemma_strict_weak(a[i], a[i], a[i]);
    }
    a.lemma_multiset_has_no_duplicates();
    b.lemma_multiset_has_no_duplicates_conv();
    assert forall|i: int, j: int|
        0 <= i < b.len() && 0 <= j < b.len() && i != j implies T::before(b[i], b[j]) || T::before(
        b[j],
        b[i],
    ) by {
        assert(b.contains(b[i]));
        assert(b.contains(b[j]));
        assert(a.to_multiset().count(b[i]) > 0);
        assert(a.to_multiset().count(b[j]) > 0);
        assert(a.contains(b[i]));
        assert(a.contains(b[j]));
        let p = choose|p: int| 0 <= p < a.len() && a[p] == b[i];
        let q = choose|q: int| 0 <= q < a.len() && a[q] == b[j];
        assert(p != q);
    }
}

/// Two sorted lists that hold the same entries, none of them tied with
/// another, are the same list.
pub proof fn lemma_sorted_lists_agree<T: Ranked>(x: Seq<T::V>, y: Seq<T::V>)
    requires
        is_sorted::<T>(x),
        is_sorted::<T>(y),
        no_ties::<T>(x),
        x.to_multiset() == y.to_multiset(),
    ensures
        x == y,
    decreases x.len(),
{
    broadcast use vstd::seq_lib::group_to_multiset_ensures;

    vstd::seq_lib::to_multiset_len(x);
    vstd::seq_lib::to_multiset_len(y);
    if x.len() > 0 {
        lemma_no_ties_carries_over::<T>(x, y);
        assert(y.contains(y[0]));
        assert(x.to_multiset().count(y[0]) > 0);
        assert(x.contains(y[0]));
        let m = choose|m: int| 0 <= m < x.len() && x[m] == y[0];
        if m > 0 {
            assert(T::before(x[0], x[m]));
            T::lemma_strict_weak(x[0], x[0], x[0]);
            assert(x[0] != y[0]);
            assert(x.contains(x[0]));
            assert(y.to_multiset().count(x[0]) > 0);
            assert(y.contains(x[0]));
            let k = choose|k: int| 0 <= k < y.len() && y[k] == x[0];
            assert(k > 0);
            assert(!T::before(y[k], y[0]));
        }
        assert(x[0] == y[0]);
        let xs = x.drop_first();
        let ys = y.drop_first();
        assert(xs =~= x.remove(0));
        assert(ys =~= y.remove(0));
        vstd::seq_lib::to_multiset_remove(x, 0);
        vstd::seq_lib::to_multiset_remove(y, 0);
        assert forall|i: int, j: int| 0 <= i < j < xs.len() implies !T::before(xs[j], xs[i]) by {
            assert(xs[i] == x[i + 1] && xs[j] == x[j + 1]);
        }
        assert forall|i: int, j: int| 0 <= i < j < ys.len() implies !T::before(ys[j], ys[i]) by {
            assert(ys[i] == y[i + 1] && ys[j] == y[j + 1]);
        }
        assert forall|i: int, j: int|
            0 <= i < xs.len() && 0 <= j < xs.len() && i != j implies T::before(xs[i], xs[j])
            || T::before(xs[j], xs[i]) by {
            assert(xs[i] == x[i + 1] && xs[j] == x[j + 1]);
        }
        lemma_sorted_lists_agree::<T>(xs, ys);
        assert(x =~= seq![x[0]] + xs);
        assert(y =~= seq![y[0]] + ys);
    }
}

/// Sorting does not depend on the order in which the entries are listed,
/// as long as no two of them are tied: two lists that hold the same
/// entries sort to the same list.
pub proof fn lemma_sort_ignores_listing_order<T: Ranked>(a: Seq<T::V>, b: Seq<T::V>)
    requires
        no_ties::<T>(a),
        a.to_multiset() == b.to_multiset(),
    ensures
        stable_sorted::<T>(a) == stable_sorted::<T>(b),
{
    lemma_stable_sorted::<T>(a);
    lemma_stable_sorted::<T>(b);
    lemma_no_ties_carries_over::<T>(a, stable_sorted::<T>(a));
    lemma_sorted_lists_agree::<T>(stable_sorted::<T>(a), stable_sorted::<T>(b));
}

} // verus!
