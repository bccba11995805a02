//! Stable sorting.

use vstd::prelude::*;

use crate::search;

verus! {

/// Values that can be put in order.
pub trait Ranked: DeepView + Sized {
    /// Whether one value stands strictly before another.
    spec fn before(a: Self::V, b: Self::V) -> bool;

    fn is_before(&self, other: &Self) -> (yes: bool)
        ensures
            yes == Self::before(self.deep_view(), other.deep_view()),
    ;
}

/// Items that a value stands before.
pub open spec fn after_it<V>(item: V, before: spec_fn(V, V) -> bool) -> spec_fn(V) -> bool {
    |other: V| before(item, other)
}

/// Where a value goes: in front of the first item that it stands before.
pub open spec fn place<V>(s: Seq<V>, item: V, before: spec_fn(V, V) -> bool) -> int {
    match search::first(s, after_it(item, before)) {
        Some(i) => i,
        None => s.len() as int,
    }
}

/// The items in order; items that neither stands before the other keep theirs.
pub open spec fn sorted<V>(s: Seq<V>, before: spec_fn(V, V) -> bool) -> Seq<V>
    decreases s.len(),
{
    if s.len() == 0 {
        s
    } else {
        let head = sorted(s.drop_last(), before);
        head.insert(place(head, s.last(), before), s.last())
    }
}

/// The order of a ranked type.
pub open spec fn rank_order<T: Ranked>() -> spec_fn(T::V, T::V) -> bool {
    |a: T::V, b: T::V| T::before(a, b)
}

pub proof fn lemma_place<V>(s: Seq<V>, item: V, before: spec_fn(V, V) -> bool)
    ensures
        0 <= place(s, item, before) <= s.len(),
{
    search::lemma_first(s, after_it(item, before));
}

/// A strict order in which whatever is not after may stand first.
pub open spec fn strict_weak<V>(before: spec_fn(V, V) -> bool) -> bool {
    &&& forall|a: V| !#[trigger] before(a, a)
    &&& forall|a: V, b: V, c: V|
        #![trigger before(a, b), before(b, c)]
        !before(b, a) && !before(c, b) ==> !before(c, a)
    &&& forall|a: V, b: V| #[trigger] before(a, b) ==> !before(b, a)
}

/// No later item stands before an earlier one.
pub open spec fn in_order<V>(s: Seq<V>, before: spec_fn(V, V) -> bool) -> bool {
    forall|i: int, j: int| 0 <= i < j < s.len() ==> !before(#[trigger] s[j], #[trigger] s[i])
}

/// Sorting loses nothing and invents nothing, whatever the order.
pub proof fn lemma_sorted_same<V>(s: Seq<V>, before: spec_fn(V, V) -> bool)
    ensures
        sorted(s, before).to_multiset() == s.to_multiset(),
        sorted(s, before).len() == s.len(),
    decreases s.len(),
{
    if s.len() > 0 {
        let init = s.drop_last();
        let item = s.last();
        lemma_sorted_same(init, before);
        let head = sorted(init, before);
        lemma_place(head, item, before);
        vstd::seq_lib::to_multiset_insert(head, place(head, item, before), item);
        vstd::seq_lib::to_multiset_build(init, item);
        assert(init.push(item) =~= s);
    }
}

/// Sorting loses nothing, invents nothing and puts everything in order.
pub proof fn lemma_sorted<V>(s: Seq<V>, before: spec_fn(V, V) -> bool)
    requires
        strict_weak(before),
    ensures
        sorted(s, before).to_multiset() == s.to_multiset(),
        sorted(s, before).len() == s.len(),
        in_order(sorted(s, before), before),
    decreases s.len(),
{
    if s.len() > 0 {
        let init = s.drop_last();
        let item = s.last();
        lemma_sorted(init, before);
        let head = sorted(init, before);
        lemma_place(head, item, before);
        let at = place(head, item, before);
        let all = head.insert(at, item);
        search::lemma_first(head, after_it(item, before));
        vstd::seq_lib::to_multiset_insert(head, at, item);
        vstd::seq_lib::to_multiset_build(init, item);
        assert(init.push(item) =~= s);
        assert forall|i: int, j: int| 0 <= i < j < all.len() implies !before(
            #[trigger] all[j],
            #[trigger] all[i],
        ) by {
            if i < at && j == at {
                assert(!after_it(item, before)(head[i]));
                assert(!before(item, head[i]));
            } else if i == at {
                let next = head[j - 1];
                let bound = head[at];
                assert(after_it(item, before)(bound));
                assert(before(item, bound));
                assert(!before(bound, item));
                if j - 1 > at {
                    assert(!before(head[j - 1], head[at]));
                    assert(!before(next, bound));
                    assert(before(item, bound) || true);
                    if before(next, item) {
                        assert(before(next, item) && before(item, bound));
                        assert(!before(item, next));
                        assert(!before(bound, item));
                        lemma_weak(before, next, item, bound);
                    }
                }
            } else {
                let a = if i < at {
                    i
                } else {
                    i - 1
                };
                let b = if j < at {
                    j
                } else {
                    j - 1
                };
                assert(!before(head[b], head[a]));
            }
        }
    } else {
        assert(sorted(s, before) =~= s);
    }
}

proof fn lemma_weak<V>(before: spec_fn(V, V) -> bool, a: V, b: V, c: V)
    requires
        strict_weak(before),
        before(a, b),
        before(b, c),
    ensures
        before(a, c),
{
    // If `a` did not stand before `c`, then with `b` before `c` not even `a` before `b` could hold.
    if !before(a, c) {
        assert(!before(c, b));
        assert(!before(b, a));
        if before(c, a) {
            assert(before(c, a) && before(a, b));
        } else {
            assert(before(a, b) && before(b, c));
        }
    }
}

/// Sort in place, one item after the other.
pub fn sort<T: Ranked>(items: Vec<T>) -> (ordered: Vec<T>)
    ensures
        ordered.deep_view() == sorted(items.deep_view(), rank_order::<T>()),
{
    let ghost all = items.deep_view();
    let ghost order = rank_order::<T>();
    let mut items = items;
    let n: usize = items.len();
    let mut i: usize = 0;
    assert(all.take(0) =~= Seq::empty());
    assert(sorted(all.take(0), order) =~= Seq::empty());
    while i < n
        invariant
            i <= n,
            n == all.len(),
            items.len() == n,
            order == rank_order::<T>(),
            items.deep_view() == sorted(all.take(i as int), order) + all.skip(i as int),
            sorted(all.take(i as int), order).len() == i,
        decreases n - i,
    {
        let ghost view = items.deep_view();
        let ghost head = sorted(all.take(i as int), order);
        let item = items.remove(i);
        let ghost value = item.deep_view();
        let ghost rest = items.deep_view();
        proof {
            assert(view[i as int] == all.skip(i as int)[0]);
            assert(value == all[i as int]);
            assert(rest =~= view.remove(i as int));
            assert forall|j: int| 0 <= j < rest.len() implies #[trigger] rest[j] == (head
                + all.skip(i + 1))[j] by {
                if j >= i {
                    assert(rest[j] == view[j + 1]);
                    assert(view[j + 1] == all.skip(i as int)[j + 1 - i]);
                }
            }
            assert(rest =~= head + all.skip(i + 1));
        }
        let mut at: usize = 0;
        while at < i && !item.is_before(&items[at])
            invariant
                at <= i,
                i < n,
                items.len() == n - 1,
                order == rank_order::<T>(),
                value == item.deep_view(),
                rest == items.deep_view(),
                head.len() == i,
                rest == head + all.skip(i + 1),
                forall|j: int| 0 <= j < at ==> !after_it(value, order)(#[trigger] head[j]),
            decreases i - at,
        {
            assert(head[at as int] == rest[at as int]);
            assert(rest[at as int] == items@[at as int].deep_view());
            at += 1;
        }
        proof {
            if at < i {
                assert(head[at as int] == rest[at as int]);
                assert(rest[at as int] == items@[at as int].deep_view());
                search::lemma_first_at(head, after_it(value, order), at as int);
            } else {
                search::lemma_first_none(head, after_it(value, order));
            }
            assert(place(head, value, order) == at);
            assert(all.take(i + 1).drop_last() =~= all.take(i as int));
            assert(all.take(i + 1).last() == value);
        }
        items.insert(at, item);
        proof {
            assert(items.deep_view() =~= rest.insert(at as int, value));
            assert(rest.insert(at as int, value) =~= head.insert(at as int, value) + all.skip(
                i + 1,
            ));
        }
        i += 1;
    }
    proof {
        assert(all.take(n as int) =~= all);
        assert(items.deep_view() =~= sorted(all, order));
    }
    items
}

} // verus!
