//! Pruning is paid for in advance: what it adds to the encoded state was
//! charged while the output was still there.

use vstd::prelude::*;

use crate::history::EntryModel;
use crate::job;
use crate::order;
use crate::search;
use crate::storage;
use crate::storage::{Candidate, CandidateModel, PayloadModel};
use crate::store::StoreModel;
use crate::table;
use crate::text;

verus! {

pub open spec fn name_measure() -> spec_fn((Seq<char>, ())) -> nat {
    |row: (Seq<char>, ())| storage::receipt_size(row.0)
}

pub open spec fn digits(n: u64) -> nat {
    text::decimal(n as nat).len()
}

pub open spec fn row_digits() -> spec_fn((Seq<char>, EntryModel)) -> nat {
    |row: (Seq<char>, EntryModel)| digits(row.1.change)
}

/// What pruning may add to in an encoded state: the receipts of what was pruned,
/// and the digits of the sequence numbers.
pub open spec fn bookkeeping(s: StoreModel) -> nat {
    search::total(s.output_pruned, name_measure()) + search::total(
        s.history_pruned,
        name_measure(),
    ) + digits(s.history.clock) + search::total(s.history.entries, row_digits())
}

/// The bookkeeping there is, with the room charged for what may come.
pub open spec fn provided(s: StoreModel) -> nat {
    bookkeeping(s) + storage::receipt_total(s) + storage::headroom_total(s)
}

/// The tables of a state that pruning touches are ordered.
pub open spec fn ordered(s: StoreModel) -> bool {
    table::ascending(s.history.entries) && table::ascending(s.output_pruned) && table::ascending(
        s.history_pruned,
    )
}

/// The invocation of a payload is in the history.
pub open spec fn referenced(s: StoreModel, payload: PayloadModel) -> bool {
    match payload {
        PayloadModel::Replica(key) => table::holds(s.history.entries, key),
        PayloadModel::Local(id) => match table::lookup(s.job_certificates, id) {
            Some(key) => table::holds(s.history.entries, key),
            None => true,
        },
    }
}

proof fn lemma_total_insert<T>(s: Seq<T>, measure: spec_fn(T) -> nat, at: int, item: T)
    requires
        0 <= at <= s.len(),
    ensures
        search::total(s.insert(at, item), measure) == search::total(s, measure) + measure(item),
    decreases s.len(),
{
    let next = s.insert(at, item);
    if at == s.len() {
        assert(next.drop_last() =~= s);
    } else {
        lemma_total_insert(s.drop_last(), measure, at, item);
        assert(next.drop_last() =~= s.drop_last().insert(at, item));
    }
}

/// Where no item grew and one shrank, the sum shrank by as much.
proof fn lemma_total_drop<T>(
    a: Seq<T>,
    f: spec_fn(T) -> nat,
    b: Seq<T>,
    g: spec_fn(T) -> nat,
    at: int,
)
    requires
        a.len() == b.len(),
        0 <= at < a.len(),
        forall|i: int| 0 <= i < a.len() ==> f(#[trigger] a[i]) <= g(b[i]),
    ensures
        search::total(a, f) + g(b[at]) <= search::total(b, g) + f(a[at]),
    decreases a.len(),
{
    let n = a.len() - 1;
    assert forall|i: int| 0 <= i < a.drop_last().len() implies f(#[trigger] a.drop_last()[i])
        <= g(b.drop_last()[i]) by {
        assert(f(a[i]) <= g(b[i]));
    }
    assert(f(a[n]) <= g(b[n]));
    if at == n {
        search::lemma_total_mono(a.drop_last(), f, b.drop_last(), g);
    } else {
        lemma_total_drop(a.drop_last(), f, b.drop_last(), g, at);
    }
}

/// A name added to a list of receipts costs what its receipt does.
proof fn lemma_receipt_added(rows: Seq<(Seq<char>, ())>, key: Seq<char>)
    ensures
        search::total(table::stored(rows, key, ()), name_measure()) == search::total(
            rows,
            name_measure(),
        ) + if table::holds(rows, key) {
            0
        } else {
            storage::receipt_size(key)
        },
{
    table::lemma_rank_bounds(rows, key);
    let r = table::rank(rows, key);
    if table::holds(rows, key) {
        search::lemma_total_update(rows, name_measure(), r, (key, ()));
    } else {
        lemma_total_insert(rows, name_measure(), r, (key, ()));
    }
}

/// Digits and the room to grow make the width of a sequence number.
proof fn lemma_digits_and_room(entries: Seq<(Seq<char>, EntryModel)>)
    ensures
        search::total(entries, row_digits()) + search::total(entries, storage::row_headroom())
            == 20 * entries.len(),
    decreases entries.len(),
{
    if entries.len() > 0 {
        lemma_digits_and_room(entries.drop_last());
        storage::lemma_decimal_len(entries.last().1.change as nat);
    }
}

proof fn lemma_sequence_width(s: StoreModel)
    ensures
        digits(s.history.clock) + search::total(s.history.entries, row_digits())
            + storage::headroom_total(s) == 20 * (s.history.entries.len() + 1),
{
    lemma_digits_and_room(s.history.entries);
    storage::lemma_decimal_len(s.history.clock as nat);
}

/// Clearing a job's own copy moves its receipt from the room to the list.
proof fn lemma_cleared_provided(s: StoreModel, payload: PayloadModel)
    requires
        ordered(s),
    ensures
        ({
            let next = storage::cleared(s, payload).0;
            &&& provided(next) <= provided(s)
            &&& ordered(next)
            &&& next.history == s.history
            &&& next.history_pruned == s.history_pruned
            &&& next.job_certificates == s.job_certificates
            &&& search::total(next.jobs, storage::open_job()) == search::total(
                s.jobs,
                storage::open_job(),
            )
        }),
{
    if let PayloadModel::Local(id) = payload {
        search::lemma_first(s.jobs, job::job_with_id(id));
        if table::lookup(s.job_certificates, id) is Some && search::first(
            s.jobs,
            job::job_with_id(id),
        ) is Some {
            let next = storage::cleared(s, payload).0;
            let at = search::first(s.jobs, job::job_with_id(id))->0;
            let f = storage::job_receipt(next.output_pruned);
            let g = storage::job_receipt(s.output_pruned);
            assert(s.jobs[at].id == id);
            search::lemma_total_update(
                s.jobs,
                storage::open_job(),
                at,
                storage::emptied(s.jobs[at]),
            );
            table::lemma_stored_ascending(s.output_pruned, id, ());
            table::lemma_stored_lookup(s.output_pruned, id, (), id);
            lemma_receipt_added(s.output_pruned, id);
            assert forall|i: int| 0 <= i < next.jobs.len() implies f(#[trigger] next.jobs[i]) <= g(
                s.jobs[i],
            ) by {
                table::lemma_stored_lookup(s.output_pruned, id, (), s.jobs[i].id);
                assert(next.jobs[i].id == s.jobs[i].id);
            }
            lemma_total_drop(next.jobs, f, s.jobs, g, at);
            assert(f(next.jobs[at]) == 0);
        }
    }
}

/// Removing a payload costs no more than was provided for it.
proof fn lemma_removed_provided(s: StoreModel, payload: PayloadModel)
    requires
        ordered(s),
        referenced(s, payload),
    ensures
        provided(storage::removed(s, payload).0) <= provided(s),
        ordered(storage::removed(s, payload).0),
        search::total(storage::removed(s, payload).0.jobs, storage::open_job()) == search::total(
            s.jobs,
            storage::open_job(),
        ),
{
    lemma_cleared_provided(s, payload);
    let (mid, step) = storage::cleared(s, payload);
    if step is Ok && s.history.clock < u64::MAX {
        let next = storage::removed(s, payload).0;
        let key = step->Ok_0;
        let entries = s.history.entries;
        table::lemma_rank_bounds(entries, key);
        let r = table::rank(entries, key);
        let entry = entries[r].1;
        let bare = EntryModel { output: None, change: next.history.clock, ..entry };
        assert(table::lookup(entries, key) == Some(entry));
        table::lemma_stored_ascending(entries, key, bare);
        assert(next.history.entries == entries.update(r, (key, bare)));
        table::lemma_stored_ascending(s.history_pruned, key, ());
        table::lemma_stored_lookup(s.history_pruned, key, (), key);
        lemma_receipt_added(s.history_pruned, key);
        let f = storage::row_receipt(next.history_pruned);
        let g = storage::row_receipt(s.history_pruned);
        assert forall|i: int| 0 <= i < entries.len() implies f(#[trigger] next.history.entries[i])
            <= g(entries[i]) by {
            table::lemma_stored_lookup(s.history_pruned, key, (), entries[i].0);
            assert(next.history.entries[i].0 == entries[i].0);
        }
        lemma_total_drop(next.history.entries, f, entries, g, r);
        assert(f(next.history.entries[r]) == 0);
        lemma_sequence_width(mid);
        lemma_sequence_width(next);
    }
}

proof fn lemma_still_referenced(s: StoreModel, later: StoreModel, payload: PayloadModel)
    requires
        crate::laws::storage::remembers(later, s),
        referenced(s, payload),
    ensures
        referenced(later, payload),
{
    match payload {
        PayloadModel::Replica(key) => {
            assert(table::lookup(s.history.entries, key) is Some);
        },
        PayloadModel::Local(id) => {
            if let Some(key) = table::lookup(s.job_certificates, id) {
                assert(table::lookup(s.history.entries, key) is Some);
            }
        },
    }
}

proof fn lemma_removed_between_provided(
    s: StoreModel,
    list: Seq<CandidateModel>,
    i: int,
    n: int,
)
    requires
        ordered(s),
        0 <= i,
        n <= list.len(),
        forall|j: int| i <= j < n ==> referenced(s, (#[trigger] list[j]).payload),
    ensures
        ({
            let next = storage::removed_between(s, list, i, n).0;
            &&& provided(next) <= provided(s)
            &&& search::total(next.jobs, storage::open_job()) == search::total(
                s.jobs,
                storage::open_job(),
            )
        }),
    decreases n - i,
{
    if i < n {
        assert(referenced(s, list[i].payload));
        lemma_removed_provided(s, list[i].payload);
        crate::laws::storage::lemma_removed_remembers(s, list[i].payload);
        let (next, step) = storage::removed(s, list[i].payload);
        if step is Ok {
            assert forall|j: int| i + 1 <= j < n implies referenced(
                next,
                (#[trigger] list[j]).payload,
            ) by {
                lemma_still_referenced(s, next, list[j].payload);
            }
            lemma_removed_between_provided(next, list, i + 1, n);
        }
    }
}

proof fn lemma_stored_referenced(
    s: StoreModel,
    rows: Seq<(Seq<char>, CandidateModel)>,
    key: Seq<char>,
    value: CandidateModel,
)
    requires
        forall|i: int| 0 <= i < rows.len() ==> referenced(s, (#[trigger] rows[i]).1.payload),
        referenced(s, value.payload),
    ensures
        forall|i: int|
            0 <= i < table::stored(rows, key, value).len() ==> referenced(
                s,
                (#[trigger] table::stored(rows, key, value)[i]).1.payload,
            ),
{
    table::lemma_rank_bounds(rows, key);
    let r = table::rank(rows, key);
    let next = table::stored(rows, key, value);
    assert forall|i: int| 0 <= i < next.len() implies referenced(s, (#[trigger] next[i]).1.payload) by {
        if table::holds(rows, key) {
            if i != r {
                assert(next[i] == rows[i]);
            }
        } else if i < r {
            assert(next[i] == rows[i]);
        } else if i > r {
            assert(next[i] == rows[i - 1]);
        }
    }
}

proof fn lemma_job_candidates_referenced(s: StoreModel, n: int)
    requires
        n <= s.jobs.len(),
    ensures
        forall|i: int|
            0 <= i < storage::job_candidates(s, n).len() ==> referenced(
                s,
                (#[trigger] storage::job_candidates(s, n)[i]).1.payload,
            ),
    decreases n,
{
    if n > 0 {
        lemma_job_candidates_referenced(s, n - 1);
        if let Some((key, candidate)) = storage::job_candidate(s, s.jobs[n - 1]) {
            lemma_stored_referenced(s, storage::job_candidates(s, n - 1), key, candidate);
        }
    }
}

proof fn lemma_entry_candidates_referenced(s: StoreModel, n: int)
    requires
        ordered(s),
        n <= s.history.entries.len(),
    ensures
        forall|i: int|
            0 <= i < storage::entry_candidates(s, n).len() ==> referenced(
                s,
                (#[trigger] storage::entry_candidates(s, n)[i]).1.payload,
            ),
    decreases n,
{
    if n <= 0 {
        lemma_job_candidates_referenced(s, s.jobs.len() as int);
    } else {
        lemma_entry_candidates_referenced(s, n - 1);
        let rows = storage::entry_candidates(s, n - 1);
        let (key, entry) = s.history.entries[n - 1];
        table::lemma_holds_at(s.history.entries, key, n - 1);
        table::lemma_rank_bounds(rows, key);
        if storage::prunable(entry) {
            match table::lookup(rows, key) {
                Some(c) => {
                    assert(referenced(s, rows[table::rank(rows, key)].1.payload));
                    let next = CandidateModel {
                        bytes: storage::clamp(c.bytes + storage::entry_output(entry)),
                        ..c
                    };
                    lemma_stored_referenced(s, rows, key, next);
                },
                None => {
                    let next = CandidateModel {
                        age: entry.change,
                        payload: PayloadModel::Replica(key),
                        bytes: storage::clamp(storage::entry_output(entry) as int),
                    };
                    lemma_stored_referenced(s, rows, key, next);
                },
            }
        }
    }
}

proof fn lemma_removable_referenced(s: StoreModel)
    requires
        ordered(s),
    ensures
        forall|i: int|
            0 <= i < storage::removable(s).len() ==> referenced(
                s,
                (#[trigger] storage::removable(s)[i]).payload,
            ),
{
    let n = s.history.entries.len() as int;
    lemma_entry_candidates_referenced(s, n);
    let rows = storage::entry_candidates(s, n);
    let values = storage::row_values(rows);
    let list = storage::removable(s);
    order::lemma_sorted(values, order::rank_order::<Candidate>());
    assert forall|i: int| 0 <= i < list.len() implies referenced(s, (#[trigger] list[i]).payload) by {
        broadcast use vstd::seq_lib::group_to_multiset_ensures;

        assert(list.contains(list[i]));
        assert(list.to_multiset().count(list[i]) > 0);
        assert(values.contains(list[i]));
        let j = choose|j: int| 0 <= j < values.len() && values[j] == list[i];
        assert(referenced(s, rows[j].1.payload));
    }
}

/// Pruning never raises the capacity charge of a state. `before` and `after` are
/// the sizes of the two encodings; apart from output and bookkeeping, an encoding
/// does not grow when output is removed.
pub proof fn law_prune_is_charged_in_advance(
    s: StoreModel,
    keep: usize,
    before: nat,
    after: nat,
)
    requires
        ordered(s),
        before <= usize::MAX,
        storage::payload_total(s) + bookkeeping(s) <= before,
        ({
            let next = storage::removed_between(
                s,
                storage::removable(s),
                0,
                storage::prune_count(s, keep),
            ).0;
            &&& storage::payload_total(next) <= usize::MAX
            &&& after - storage::payload_total(next) - bookkeeping(next) <= before
                - storage::payload_total(s) - bookkeeping(s)
        }),
    ensures
        ({
            let next = storage::removed_between(
                s,
                storage::removable(s),
                0,
                storage::prune_count(s, keep),
            ).0;
            storage::charge(next, after) <= storage::charge(s, before)
        }),
{
    lemma_removable_referenced(s);
    lemma_removed_between_provided(s, storage::removable(s), 0, storage::prune_count(s, keep));
}

} // verus!
