//! A map from text to values, kept in key order.

use vstd::prelude::*;

use crate::data::Data;
use crate::search;
use crate::text;
use crate::text::{text_less, text_same};

verus! {

/// Keys ascend strictly, so no key occurs twice.
pub open spec fn ascending<T>(rows: Seq<(Seq<char>, T)>) -> bool {
    forall|i: int, j: int|
        0 <= i < j < rows.len() ==> text::text_lt(#[trigger] rows[i].0, #[trigger] rows[j].0)
}

/// The number of leading keys below `key`.
pub open spec fn rank<T>(rows: Seq<(Seq<char>, T)>, key: Seq<char>) -> int
    decreases rows.len(),
{
    if rows.len() > 0 && text::text_lt(rows[0].0, key) {
        1 + rank(rows.skip(1), key)
    } else {
        0
    }
}

pub open spec fn holds<T>(rows: Seq<(Seq<char>, T)>, key: Seq<char>) -> bool {
    rank(rows, key) < rows.len() && rows[rank(rows, key)].0 == key
}

pub open spec fn lookup<T>(rows: Seq<(Seq<char>, T)>, key: Seq<char>) -> Option<T> {
    if holds(rows, key) {
        Some(rows[rank(rows, key)].1)
    } else {
        None
    }
}

/// The rows with `key` bound to `value`.
pub open spec fn stored<T>(rows: Seq<(Seq<char>, T)>, key: Seq<char>, value: T) -> Seq<
    (Seq<char>, T),
> {
    if holds(rows, key) {
        rows.update(rank(rows, key), (key, value))
    } else {
        rows.insert(rank(rows, key), (key, value))
    }
}

/// The rows without `key`.
pub open spec fn without<T>(rows: Seq<(Seq<char>, T)>, key: Seq<char>) -> Seq<(Seq<char>, T)> {
    if holds(rows, key) {
        rows.remove(rank(rows, key))
    } else {
        rows
    }
}

pub proof fn lemma_rank_bounds<T>(rows: Seq<(Seq<char>, T)>, key: Seq<char>)
    ensures
        0 <= rank(rows, key) <= rows.len(),
        forall|i: int|
            0 <= i < rank(rows, key) ==> text::text_lt(#[trigger] rows[i].0, key),
        rank(rows, key) < rows.len() ==> !text::text_lt(rows[rank(rows, key)].0, key),
    decreases rows.len(),
{
    if rows.len() > 0 && text::text_lt(rows[0].0, key) {
        lemma_rank_bounds(rows.skip(1), key);
        assert forall|i: int| 0 <= i < rank(rows, key) implies text::text_lt(
            #[trigger] rows[i].0,
            key,
        ) by {
            if i > 0 {
                assert(rows[i] == rows.skip(1)[i - 1]);
            }
        }
    }
}

/// An index is the rank of `key` once the keys before it are below and it is not.
pub proof fn lemma_rank_is<T>(rows: Seq<(Seq<char>, T)>, key: Seq<char>, at: int)
    requires
        0 <= at <= rows.len(),
        forall|i: int| 0 <= i < at ==> text::text_lt(#[trigger] rows[i].0, key),
        at < rows.len() ==> !text::text_lt(rows[at].0, key),
    ensures
        rank(rows, key) == at,
{
    lemma_rank_bounds(rows, key);
    let r = rank(rows, key);
    if r < at {
        assert(text::text_lt(rows[r].0, key));
    }
    if at < r {
        assert(text::text_lt(rows[at].0, key));
    }
}

/// In ascending rows a key is held exactly where it stands.
pub proof fn lemma_holds_at<T>(rows: Seq<(Seq<char>, T)>, key: Seq<char>, at: int)
    requires
        ascending(rows),
        0 <= at < rows.len(),
        rows[at].0 == key,
    ensures
        rank(rows, key) == at,
        holds(rows, key),
        lookup(rows, key) == Some(rows[at].1),
{
    assert forall|i: int| 0 <= i < at implies text::text_lt(#[trigger] rows[i].0, key) by {
        assert(text::text_lt(rows[i].0, rows[at].0));
    }
    crate::text::lemma_text_lt_order(key, key, key);
    lemma_rank_is(rows, key, at);
}

/// Storing keeps the keys ascending.
pub proof fn lemma_stored_ascending<T>(rows: Seq<(Seq<char>, T)>, key: Seq<char>, value: T)
    requires
        ascending(rows),
    ensures
        ascending(stored(rows, key, value)),
{
    lemma_rank_bounds(rows, key);
    let r = rank(rows, key);
    let next = stored(rows, key, value);
    if !holds(rows, key) {
        assert forall|i: int, j: int| 0 <= i < j < next.len() implies text::text_lt(
            #[trigger] next[i].0,
            #[trigger] next[j].0,
        ) by {
            if i < r && j > r {
                assert(text::text_lt(rows[i].0, rows[j - 1].0));
            } else if i > r {
                assert(text::text_lt(rows[i - 1].0, rows[j - 1].0));
            } else if j < r {
                assert(text::text_lt(rows[i].0, rows[j].0));
            } else if j == r {
                assert(text::text_lt(rows[i].0, key));
            } else {
                let first = rows[r].0;
                let last = rows[j - 1].0;
                crate::text::lemma_text_lt_order(key, first, last);
                if r < j - 1 {
                    assert(text::text_lt(rows[r].0, rows[j - 1].0));
                }
            }
        }
    } else {
        assert forall|i: int, j: int| 0 <= i < j < next.len() implies text::text_lt(
            #[trigger] next[i].0,
            #[trigger] next[j].0,
        ) by {
            assert(text::text_lt(rows[i].0, rows[j].0));
        }
    }
}

/// A read gives back what was last stored under its key, and nothing else moves.
#[verifier::spinoff_prover]
pub proof fn lemma_stored_lookup<T>(
    rows: Seq<(Seq<char>, T)>,
    key: Seq<char>,
    value: T,
    other: Seq<char>,
)
    requires
        ascending(rows),
    ensures
        lookup(stored(rows, key, value), key) == Some(value),
        other != key ==> lookup(stored(rows, key, value), other) == lookup(rows, other),
{
    lemma_rank_bounds(rows, key);
    lemma_rank_bounds(rows, other);
    lemma_stored_ascending(rows, key, value);
    let next = stored(rows, key, value);
    let r = rank(rows, key);
    assert(next[r] == (key, value));
    lemma_holds_at(next, key, r);
    if other != key {
        lemma_rank_bounds(next, other);
        if holds(rows, other) {
            let at = rank(rows, other);
            let shifted = if holds(rows, key) || at < r {
                at
            } else {
                at + 1
            };
            assert(next[shifted] == rows[at]);
            lemma_holds_at(next, other, shifted);
        } else if holds(next, other) {
            let at = rank(next, other);
            let shifted = if holds(rows, key) || at < r {
                at
            } else {
                at - 1
            };
            assert(at != r);
            assert(next[at] == rows[shifted]);
            lemma_holds_at(rows, other, shifted);
        }
    }
}

/// Dropping a key keeps the order, forgets that key and no other.
#[verifier::spinoff_prover]
pub proof fn lemma_without_lookup<T>(rows: Seq<(Seq<char>, T)>, key: Seq<char>, other: Seq<char>)
    requires
        ascending(rows),
    ensures
        ascending(without(rows, key)),
        lookup(without(rows, key), key) is None,
        other != key ==> lookup(without(rows, key), other) == lookup(rows, other),
{
    lemma_rank_bounds(rows, key);
    lemma_rank_bounds(rows, other);
    let next = without(rows, key);
    let r = rank(rows, key);
    if holds(rows, key) {
        assert forall|i: int, j: int| 0 <= i < j < next.len() implies text::text_lt(
            #[trigger] next[i].0,
            #[trigger] next[j].0,
        ) by {
            let a = if i < r {
                i
            } else {
                i + 1
            };
            let b = if j < r {
                j
            } else {
                j + 1
            };
            assert(text::text_lt(rows[a].0, rows[b].0));
        }
        lemma_rank_bounds(next, key);
        if holds(next, key) {
            let at = rank(next, key);
            let a = if at < r {
                at
            } else {
                at + 1
            };
            assert(next[at] == rows[a]);
            lemma_holds_at(rows, key, a);
        }
        if other != key {
            lemma_rank_bounds(next, other);
            if holds(rows, other) {
                let at = rank(rows, other);
                let shifted = if at < r {
                    at
                } else {
                    at - 1
                };
                assert(next[shifted] == rows[at]);
                lemma_holds_at(next, other, shifted);
            } else if holds(next, other) {
                let at = rank(next, other);
                let shifted = if at < r {
                    at
                } else {
                    at + 1
                };
                assert(next[at] == rows[shifted]);
                lemma_holds_at(rows, other, shifted);
            }
        }
    }
}

/// Tables that answer every read alike are the same table.
pub proof fn lemma_same_lookups<T>(a: Seq<(Seq<char>, T)>, b: Seq<(Seq<char>, T)>)
    requires
        ascending(a),
        ascending(b),
        forall|key: Seq<char>| #[trigger] lookup(a, key) == lookup(b, key),
    ensures
        a == b,
    decreases a.len(),
{
    if a.len() == 0 {
        if b.len() > 0 {
            lemma_holds_at(b, b[0].0, 0);
            lemma_rank_bounds(a, b[0].0);
            assert(lookup(a, b[0].0) is None);
        }
        assert(a =~= b);
    } else {
        let ka = a.last().0;
        lemma_holds_at(a, ka, a.len() - 1);
        assert(lookup(a, ka) == lookup(b, ka));
        lemma_rank_bounds(b, ka);
        let j = rank(b, ka);
        assert(b[j].0 == ka);
        let kb = b.last().0;
        lemma_holds_at(b, kb, b.len() - 1);
        assert(lookup(a, kb) == lookup(b, kb));
        lemma_rank_bounds(a, kb);
        let i = rank(a, kb);
        assert(a[i].0 == kb);
        crate::text::lemma_text_lt_order(ka, kb, ka);
        if j < b.len() - 1 {
            assert(text::text_lt(b[j].0, b[b.len() - 1].0));
            if i < a.len() - 1 {
                assert(text::text_lt(a[i].0, a[a.len() - 1].0));
            }
        }
        assert(ka == kb);
        assert(a.last() == b.last());
        assert(a.drop_last() =~= without(a, ka));
        assert(b.drop_last() =~= without(b, ka));
        assert forall|key: Seq<char>| #[trigger]
            lookup(a.drop_last(), key) == lookup(b.drop_last(), key) by {
            lemma_without_lookup(a, ka, key);
            lemma_without_lookup(b, ka, key);
            assert(lookup(a, key) == lookup(b, key));
        }
        lemma_without_lookup(a, ka, ka);
        lemma_without_lookup(b, ka, ka);
        lemma_same_lookups(a.drop_last(), b.drop_last());
        assert(a =~= a.drop_last().push(a.last()));
        assert(b =~= b.drop_last().push(b.last()));
    }
}

/// Text keys with values, in key order.
#[derive(Debug, PartialEq, Eq)]
pub struct Table<V> {
    rows: Vec<(String, V)>,
}

impl<V> Table<V> {
    #[verifier::type_invariant]
    pub closed spec fn keys_ascend(self) -> bool {
        forall|i: int, j: int|
            0 <= i < j < self.rows@.len() ==> text::text_lt(
                (#[trigger] self.rows@[i]).0@,
                (#[trigger] self.rows@[j]).0@,
            )
    }
}

impl<V: DeepView> DeepView for Table<V> {
    type V = Seq<(Seq<char>, V::V)>;

    closed spec fn deep_view(&self) -> Seq<(Seq<char>, V::V)> {
        self.rows.deep_view()
    }
}

impl<V: Data> Table<V> {
    pub fn new() -> (table: Self)
        ensures
            table.deep_view() == Seq::<(Seq<char>, V::V)>::empty(),
    {
        let table = Table { rows: Vec::new() };
        assert(table.deep_view() =~= Seq::<(Seq<char>, V::V)>::empty());
        table
    }

    /// Every table holds its keys in ascending order.
    pub fn observe(&self)
        ensures
            ascending(self.deep_view()),
    {
        proof {
            use_type_invariant(self);
            let view = self.deep_view();
            assert forall|i: int, j: int| 0 <= i < j < view.len() implies text::text_lt(
                #[trigger] view[i].0,
                #[trigger] view[j].0,
            ) by {
                assert(view[i].0 == self.rows@[i].0@ && view[j].0 == self.rows@[j].0@);
            }
        }
    }

    pub fn len(&self) -> (n: usize)
        ensures
            n == self.deep_view().len(),
    {
        self.rows.len()
    }

    pub fn key_at(&self, i: usize) -> (key: &String)
        requires
            i < self.deep_view().len(),
        ensures
            key@ == self.deep_view()[i as int].0,
    {
        &self.rows[i].0
    }

    pub fn value_at(&self, i: usize) -> (value: &V)
        requires
            i < self.deep_view().len(),
        ensures
            value.deep_view() == self.deep_view()[i as int].1,
    {
        &self.rows[i].1
    }

    fn find(&self, key: &str) -> (at: usize)
        ensures
            at == rank(self.deep_view(), key@),
            at <= self.rows@.len(),
            self.deep_view().len() == self.rows@.len(),
    {
        self.observe();
        let ghost view = self.deep_view();
        let mut low: usize = 0;
        let mut high: usize = self.rows.len();
        while low < high
            invariant
                low <= high <= self.rows@.len(),
                view == self.deep_view(),
                view.len() == self.rows@.len(),
                ascending(view),
                forall|i: int| 0 <= i < low ==> text::text_lt(#[trigger] view[i].0, key@),
                forall|i: int|
                    high <= i < view.len() ==> !text::text_lt(#[trigger] view[i].0, key@),
            decreases high - low,
        {
            let mid: usize = low + (high - low) / 2;
            assert(view[mid as int].0 == self.rows@[mid as int].0@);
            if text_less(self.rows[mid].0.as_str(), key) {
                proof {
                    assert forall|i: int| 0 <= i < mid + 1 implies text::text_lt(
                        #[trigger] view[i].0,
                        key@,
                    ) by {
                        if i < mid {
                            crate::text::lemma_text_lt_order(view[i].0, view[mid as int].0, key@);
                        }
                    }
                }
                low = mid + 1;
            } else {
                proof {
                    assert forall|i: int| mid <= i < view.len() implies !text::text_lt(
                        #[trigger] view[i].0,
                        key@,
                    ) by {
                        if mid < i {
                            crate::text::lemma_text_lt_order(view[mid as int].0, view[i].0, key@);
                        }
                    }
                }
                high = mid;
            }
        }
        proof {
            lemma_rank_is(view, key@, low as int);
        }
        low
    }

    pub fn get(&self, key: &str) -> (value: Option<&V>)
        ensures
            (match value {
                Some(v) => lookup(self.deep_view(), key@) == Some(v.deep_view()),
                None => lookup(self.deep_view(), key@) is None,
            }),
    {
        let at: usize = self.find(key);
        if at < self.rows.len() {
            assert(self.deep_view()[at as int].0 == self.rows@[at as int].0@);
            if text_same(self.rows[at].0.as_str(), key) {
                return Some(&self.rows[at].1);
            }
        }
        None
    }

    pub fn has(&self, key: &str) -> (found: bool)
        ensures
            found == holds(self.deep_view(), key@),
    {
        self.get(key).is_some()
    }

    pub fn put(&mut self, key: String, value: V)
        ensures
            final(self).deep_view() == stored(old(self).deep_view(), key@, value.deep_view()),
    {
        self.observe();
        let ghost before = self.deep_view();
        let at: usize = self.find(key.as_str());
        let mut rows: Vec<(String, V)> = Vec::new();
        std::mem::swap(&mut rows, &mut self.rows);
        proof {
            lemma_stored_ascending(before, key@, value.deep_view());
        }
        let mut present: bool = false;
        if at < rows.len() {
            assert(before[at as int].0 == rows@[at as int].0@);
            present = text_same(rows[at].0.as_str(), key.as_str());
        }
        let ghost moved = rows;
        let ghost row = (key, value);
        let ghost next = stored(before, key@, value.deep_view());
        if present {
            rows[at] = (key, value);
            assert(rows@ =~= moved@.update(at as int, row));
        } else {
            rows.insert(at, (key, value));
        }
        proof {
            assert(rows.deep_view() =~= next);
            assert forall|i: int, j: int| 0 <= i < j < rows@.len() implies text::text_lt(
                (#[trigger] rows@[i]).0@,
                (#[trigger] rows@[j]).0@,
            ) by {
                assert(rows@[i].0@ == next[i].0 && rows@[j].0@ == next[j].0);
            }
        }
        self.rows = rows;
    }

    /// Replace the value at a place, keeping its key.
    pub fn set_at(&mut self, i: usize, value: V)
        requires
            i < old(self).deep_view().len(),
        ensures
            final(self).deep_view() == old(self).deep_view().update(
                i as int,
                (old(self).deep_view()[i as int].0, value.deep_view()),
            ),
    {
        proof {
            use_type_invariant(&*self);
        }
        let ghost before = self.deep_view();
        let ghost held = self.rows@;
        let ghost item = value;
        let mut rows: Vec<(String, V)> = Vec::new();
        std::mem::swap(&mut rows, &mut self.rows);
        let key = rows[i].0.clone();
        rows[i] = (key, value);
        proof {
            assert(rows@ =~= held.update(i as int, (key, item)));
            assert(rows.deep_view() =~= before.update(
                i as int,
                (before[i as int].0, item.deep_view()),
            ));
            assert forall|a: int, b: int| 0 <= a < b < rows@.len() implies text::text_lt(
                (#[trigger] rows@[a]).0@,
                (#[trigger] rows@[b]).0@,
            ) by {
                assert(rows@[a].0@ == held[a].0@ && rows@[b].0@ == held[b].0@);
            }
        }
        self.rows = rows;
    }

    pub fn remove(&mut self, key: &str)
        ensures
            final(self).deep_view() == without(old(self).deep_view(), key@),
    {
        self.observe();
        let ghost before = self.deep_view();
        let at: usize = self.find(key);
        let mut rows: Vec<(String, V)> = Vec::new();
        std::mem::swap(&mut rows, &mut self.rows);
        proof {
            lemma_without_lookup(before, key@, key@);
        }
        let mut present: bool = false;
        if at < rows.len() {
            assert(before[at as int].0 == rows@[at as int].0@);
            present = text_same(rows[at].0.as_str(), key);
        }
        let ghost next = without(before, key@);
        if present {
            rows.remove(at);
        }
        proof {
            assert(rows.deep_view() =~= next);
            assert forall|i: int, j: int| 0 <= i < j < rows@.len() implies text::text_lt(
                (#[trigger] rows@[i]).0@,
                (#[trigger] rows@[j]).0@,
            ) by {
                assert(rows@[i].0@ == next[i].0 && rows@[j].0@ == next[j].0);
            }
        }
        self.rows = rows;
    }

    pub fn clear(&mut self)
        ensures
            final(self).deep_view() == Seq::<(Seq<char>, V::V)>::empty(),
    {
        self.rows = Vec::new();
        assert(self.deep_view() =~= Seq::<(Seq<char>, V::V)>::empty());
    }
}

/// Rows whose key is among some keys.
pub open spec fn keyed_by<T>(keys: Seq<Seq<char>>) -> spec_fn((Seq<char>, T)) -> bool {
    |row: (Seq<char>, T)| keys.contains(row.0)
}

fn listed_in(keys: &Vec<String>, key: &str) -> (yes: bool)
    ensures
        yes == keys.deep_view().contains(key@),
{
    let ghost view = keys.deep_view();
    let mut i: usize = 0;
    while i < keys.len()
        invariant
            i <= keys.len(),
            view == keys.deep_view(),
            forall|j: int| 0 <= j < i ==> #[trigger] view[j] != key@,
        decreases keys.len() - i,
    {
        assert(view[i as int] == keys@[i as int]@);
        if text_same(&keys[i], key) {
            return true;
        }
        i += 1;
    }
    false
}

impl<V: Data> Table<V> {
    /// Keep only the rows whose key is listed.
    pub fn restrict(&mut self, keys: &Vec<String>)
        ensures
            final(self).deep_view() == search::kept(
                old(self).deep_view(),
                keyed_by(keys.deep_view()),
            ),
    {
        let ghost all = self.deep_view();
        let ghost test = keyed_by::<V::V>(keys.deep_view());
        let mut next: Table<V> = Table::new();
        let mut i: usize = 0;
        self.observe();
        assert(all.take(0) =~= Seq::<(Seq<char>, V::V)>::empty());
        while i < self.len()
            invariant
                i <= all.len(),
                all == self.deep_view(),
                ascending(all),
                test == keyed_by::<V::V>(keys.deep_view()),
                next.deep_view() == search::kept(all.take(i as int), test),
            decreases all.len() - i,
        {
            proof {
                search::lemma_kept_step(all, test, i as int);
            }
            if listed_in(keys, self.key_at(i)) {
                let ghost held = next.deep_view();
                let ghost row = all[i as int];
                proof {
                    search::lemma_kept(all.take(i as int), test);
                    assert forall|j: int| 0 <= j < held.len() implies text::text_lt(
                        #[trigger] held[j].0,
                        row.0,
                    ) by {
                        let at = choose|at: int|
                            0 <= at < all.take(i as int).len() && all.take(i as int)[at] == held[j];
                        assert(all[at] == held[j]);
                    }
                }
                next.put(self.key_at(i).dup(), self.value_at(i).dup());
                proof {
                    lemma_rank_is(held, row.0, held.len() as int);
                    assert(stored(held, row.0, row.1) =~= held.push(row));
                }
            }
            i += 1;
        }
        assert(all.take(i as int) =~= all);
        *self = next;
    }
}

impl<V: Data> Clone for Table<V> {
    fn clone(&self) -> (copy: Self)
        ensures
            copy.deep_view() == self.deep_view(),
    {
        self.dup()
    }
}

impl<V: Data> Data for Table<V> {
    fn dup(&self) -> (copy: Self) {
        proof {
            use_type_invariant(self);
        }
        let rows = self.rows.dup();
        proof {
            assert(rows.deep_view() == self.rows.deep_view());
            assert forall|i: int, j: int| 0 <= i < j < rows@.len() implies text::text_lt(
                (#[trigger] rows@[i]).0@,
                (#[trigger] rows@[j]).0@,
            ) by {
                assert(rows@.len() == rows.deep_view().len());
                assert(rows@[i].0@ == rows.deep_view()[i].0);
                assert(rows@[j].0@ == rows.deep_view()[j].0);
                assert(self.rows@[i].0@ == self.rows.deep_view()[i].0);
                assert(self.rows@[j].0@ == self.rows.deep_view()[j].0);
            }
        }
        Table { rows }
    }

    fn same(&self, other: &Self) -> (equal: bool) {
        self.rows.same(&other.rows)
    }
}

} // verus!
