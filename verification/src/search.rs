//! Finding, counting and keeping, over sequences.

use vstd::prelude::*;

verus! {

/// The first place where a test holds.
pub open spec fn first<T>(s: Seq<T>, test: spec_fn(T) -> bool) -> Option<int>
    decreases s.len(),
{
    if s.len() == 0 {
        None
    } else if test(s[0]) {
        Some(0int)
    } else {
        match first(s.skip(1), test) {
            Some(i) => Some(i + 1),
            None => None,
        }
    }
}

/// The first item that passes a test.
pub open spec fn found<T>(s: Seq<T>, test: spec_fn(T) -> bool) -> Option<T> {
    match first(s, test) {
        Some(i) => Some(s[i]),
        None => None,
    }
}

pub proof fn lemma_first<T>(s: Seq<T>, test: spec_fn(T) -> bool)
    ensures
        match first(s, test) {
            Some(i) => 0 <= i < s.len() && test(s[i]) && forall|j: int|
                0 <= j < i ==> !test(#[trigger] s[j]),
            None => forall|j: int| 0 <= j < s.len() ==> !test(#[trigger] s[j]),
        },
    decreases s.len(),
{
    if s.len() > 0 && !test(s[0]) {
        let rest = s.skip(1);
        lemma_first(rest, test);
        match first(rest, test) {
            Some(i) => {
                assert(rest[i] == s[i + 1]);
                assert forall|j: int| 0 <= j < i + 1 implies !test(#[trigger] s[j]) by {
                    if j > 0 {
                        assert(s[j] == rest[j - 1]);
                    }
                }
            },
            None => {
                assert forall|j: int| 0 <= j < s.len() implies !test(#[trigger] s[j]) by {
                    if j > 0 {
                        assert(s[j] == rest[j - 1]);
                    }
                }
            },
        }
    }
}

pub proof fn lemma_first_at<T>(s: Seq<T>, test: spec_fn(T) -> bool, at: int)
    requires
        0 <= at < s.len(),
        test(s[at]),
        forall|j: int| 0 <= j < at ==> !test(#[trigger] s[j]),
    ensures
        first(s, test) == Some(at),
{
    lemma_first(s, test);
    let found = first(s, test);
    if found is None {
        assert(!test(s[at]));
    } else if found->0 < at {
        assert(!test(s[found->0]));
    } else if at < found->0 {
        assert(!test(s[at]));
    }
}

pub proof fn lemma_first_none<T>(s: Seq<T>, test: spec_fn(T) -> bool)
    requires
        forall|j: int| 0 <= j < s.len() ==> !test(#[trigger] s[j]),
    ensures
        first(s, test) is None,
{
    lemma_first(s, test);
}

/// The sum of a measure over all items.
pub open spec fn total<T>(s: Seq<T>, measure: spec_fn(T) -> nat) -> nat
    decreases s.len(),
{
    if s.len() == 0 {
        0
    } else {
        total(s.drop_last(), measure) + measure(s.last())
    }
}

pub proof fn lemma_total_step<T>(s: Seq<T>, measure: spec_fn(T) -> nat, n: int)
    requires
        0 <= n < s.len(),
    ensures
        total(s.take(n + 1), measure) == total(s.take(n), measure) + measure(s[n]),
{
    assert(s.take(n + 1).drop_last() =~= s.take(n));
}

/// A prefix measures no more than the whole.
pub proof fn lemma_total_prefix<T>(s: Seq<T>, measure: spec_fn(T) -> nat, n: int)
    requires
        0 <= n <= s.len(),
    ensures
        total(s.take(n), measure) <= total(s, measure),
    decreases s.len() - n,
{
    if n < s.len() {
        lemma_total_step(s, measure, n);
        lemma_total_prefix(s, measure, n + 1);
    } else {
        assert(s.take(n) =~= s);
    }
}

/// Changing one item changes the sum by that item alone.
pub proof fn lemma_total_update<T>(s: Seq<T>, measure: spec_fn(T) -> nat, at: int, item: T)
    requires
        0 <= at < s.len(),
    ensures
        total(s.update(at, item), measure) + measure(s[at]) == total(s, measure) + measure(item),
    decreases s.len(),
{
    let next = s.update(at, item);
    if at == s.len() - 1 {
        assert(next.drop_last() =~= s.drop_last());
    } else {
        lemma_total_update(s.drop_last(), measure, at, item);
        assert(next.drop_last() =~= s.drop_last().update(at, item));
    }
}

/// Sums compare as their items do.
pub proof fn lemma_total_mono<T, U>(
    a: Seq<T>,
    f: spec_fn(T) -> nat,
    b: Seq<U>,
    g: spec_fn(U) -> nat,
)
    requires
        a.len() == b.len(),
        forall|i: int| 0 <= i < a.len() ==> f(#[trigger] a[i]) <= g(b[i]),
    ensures
        total(a, f) <= total(b, g),
    decreases a.len(),
{
    if a.len() > 0 {
        assert forall|i: int| 0 <= i < a.drop_last().len() implies f(#[trigger] a.drop_last()[i])
            <= g(b.drop_last()[i]) by {
            assert(f(a[i]) <= g(b[i]));
        }
        lemma_total_mono(a.drop_last(), f, b.drop_last(), g);
        assert(f(a[a.len() - 1]) <= g(b[a.len() - 1]));
    }
}

/// The items that pass a test, in order.
pub open spec fn kept<T>(s: Seq<T>, test: spec_fn(T) -> bool) -> Seq<T>
    decreases s.len(),
{
    if s.len() == 0 {
        Seq::empty()
    } else if test(s.last()) {
        kept(s.drop_last(), test).push(s.last())
    } else {
        kept(s.drop_last(), test)
    }
}

pub proof fn lemma_kept_step<T>(s: Seq<T>, test: spec_fn(T) -> bool, n: int)
    requires
        0 <= n < s.len(),
    ensures
        kept(s.take(n + 1), test) == if test(s[n]) {
            kept(s.take(n), test).push(s[n])
        } else {
            kept(s.take(n), test)
        },
{
    assert(s.take(n + 1).drop_last() =~= s.take(n));
}

/// Only passing items are kept, every one of them, and no more than there were.
pub proof fn lemma_kept<T>(s: Seq<T>, test: spec_fn(T) -> bool)
    ensures
        kept(s, test).len() <= s.len(),
        forall|i: int| 0 <= i < kept(s, test).len() ==> test(#[trigger] kept(s, test)[i])
            && s.contains(kept(s, test)[i]),
        forall|i: int|
            0 <= i < s.len() && test(#[trigger] s[i]) ==> kept(s, test).contains(s[i]),
    decreases s.len(),
{
    if s.len() > 0 {
        let head = s.drop_last();
        lemma_kept(head, test);
        let all = kept(s, test);
        assert forall|i: int| 0 <= i < all.len() implies test(#[trigger] all[i]) && s.contains(
            all[i],
        ) by {
            if i < kept(head, test).len() {
                assert(all[i] == kept(head, test)[i]);
                let j = choose|j: int| 0 <= j < head.len() && head[j] == all[i];
                assert(s[j] == all[i]);
            } else {
                assert(s[s.len() - 1] == all[i]);
            }
        }
        assert forall|i: int| 0 <= i < s.len() && test(#[trigger] s[i]) implies all.contains(
            s[i],
        ) by {
            if i < head.len() {
                assert(head[i] == s[i]);
                let j = choose|j: int|
                    0 <= j < kept(head, test).len() && kept(head, test)[j] == s[i];
                assert(all[j] == s[i]);
            } else {
                assert(all[all.len() - 1] == s[i]);
            }
        }
    }
}

} // verus!
