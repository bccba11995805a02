//! What the state keeps and what it gives up: only the output of finished work goes,
//! the oldest first and no more than must, and every limit holds new work back.

use vstd::prelude::*;

use crate::error::ErrorModel;
use crate::history::EntryModel;
use crate::job;
use crate::order;
use crate::search;
use crate::storage;
use crate::storage::{Candidate, CandidateModel, PayloadModel};
use crate::store;
use crate::store::StoreModel;
use crate::table;
use crate::types::{JobModel, JobStatusModel};

verus! {

/// Work that nothing follows.
pub open spec fn over(status: JobStatusModel) -> bool {
    status is Done || status is Denied || status is Failed || status is Uncertain
}

/// An entry that says something of its job.
pub open spec fn says_something(entry: EntryModel) -> bool {
    entry.record.runner is Some || entry.record.origin is Some
}

/// The deciding word of an entry: the runner's, or else the origin's.
pub open spec fn last_word(entry: EntryModel) -> JobStatusModel {
    if entry.record.runner is Some {
        entry.record.runner->0.fact.status
    } else {
        entry.record.origin->0.fact.status
    }
}

/// Output that may be given up: of a job that is over, has written something and is
/// on record, or of a record whose deciding word says that the job is over. It is as
/// old as its record.
pub open spec fn may_go(s: StoreModel, c: CandidateModel) -> bool {
    match c.payload {
        PayloadModel::Local(id) => exists|j: int|
            0 <= j < s.jobs.len() && (#[trigger] s.jobs[j]).id == id && over(s.jobs[j].status)
                && s.jobs[j].stdout.len() + s.jobs[j].stderr.len() > 0 && (table::lookup(
                s.job_certificates,
                id,
            ) matches Some(key) && (table::lookup(s.history.entries, key) matches Some(entry)
                && says_something(entry) && c.age == entry.change)),
        PayloadModel::Replica(key) => table::lookup(s.history.entries, key) matches Some(entry) && (
        entry.output matches Some(o) && o.stdout.len() + o.stderr.len() > 0) && says_something(
            entry,
        ) && over(last_word(entry)) && c.age == entry.change,
    }
}

/// A payload of that invocation.
pub open spec fn payload_of(s: StoreModel, key: Seq<char>, payload: PayloadModel) -> bool {
    match payload {
        PayloadModel::Local(id) => table::lookup(s.job_certificates, id) == Some(key),
        PayloadModel::Replica(k) => k == key,
    }
}

proof fn lemma_job_candidates(s: StoreModel, n: int)
    requires
        0 <= n <= s.jobs.len(),
    ensures
        table::ascending(storage::job_candidates(s, n)),
        forall|key: Seq<char>|
            (#[trigger] table::lookup(storage::job_candidates(s, n), key)) matches Some(c) ==> may_go(
                s,
                c,
            ) && payload_of(s, key, c.payload),
        forall|j: int|
            0 <= j < n && (#[trigger] storage::job_candidate(s, s.jobs[j])) is Some
                ==> table::lookup(
                storage::job_candidates(s, n),
                (storage::job_candidate(s, s.jobs[j])->0).0,
            ) is Some,
    decreases n,
{
    if n <= 0 {
        assert forall|key: Seq<char>|
            (#[trigger] table::lookup(storage::job_candidates(s, n), key)) is None by {
            table::lemma_rank_bounds(storage::job_candidates(s, n), key);
        }
    } else {
        lemma_job_candidates(s, n - 1);
        let rows = storage::job_candidates(s, n - 1);
        let made = storage::job_candidate(s, s.jobs[n - 1]);
        if made is Some {
            let (key, c) = made->0;
            assert(s.jobs[n - 1].id == s.jobs[n - 1].id);
            assert(may_go(s, c) && payload_of(s, key, c.payload));
            table::lemma_stored_ascending(rows, key, c);
            assert forall|k: Seq<char>| (#[trigger] table::lookup(storage::job_candidates(s, n), k)) is Some implies may_go(
                s,
                table::lookup(storage::job_candidates(s, n), k)->0,
            ) && payload_of(s, k, table::lookup(storage::job_candidates(s, n), k)->0.payload) by {
                table::lemma_stored_lookup(rows, key, c, k);
            }
            assert forall|j: int|
                0 <= j < n && (#[trigger] storage::job_candidate(s, s.jobs[j])) is Some implies table::lookup(
                storage::job_candidates(s, n),
                (storage::job_candidate(s, s.jobs[j])->0).0,
            ) is Some by {
                table::lemma_stored_lookup(rows, key, c, (storage::job_candidate(s, s.jobs[j])->0).0);
            }
        }
    }
}

proof fn lemma_entry_candidates(s: StoreModel, n: int)
    requires
        table::ascending(s.history.entries),
        0 <= n <= s.history.entries.len(),
    ensures
        table::ascending(storage::entry_candidates(s, n)),
        forall|key: Seq<char>|
            (#[trigger] table::lookup(storage::entry_candidates(s, n), key)) matches Some(c)
                ==> may_go(s, c) && payload_of(s, key, c.payload),
        forall|j: int|
            0 <= j < s.jobs.len() && (#[trigger] storage::job_candidate(s, s.jobs[j])) is Some
                ==> table::lookup(
                storage::entry_candidates(s, n),
                (storage::job_candidate(s, s.jobs[j])->0).0,
            ) is Some,
        forall|k: int|
            0 <= k < n && storage::prunable((#[trigger] s.history.entries[k]).1) ==> table::lookup(
                storage::entry_candidates(s, n),
                s.history.entries[k].0,
            ) is Some,
    decreases n,
{
    if n <= 0 {
        lemma_job_candidates(s, s.jobs.len() as int);
    } else {
        lemma_entry_candidates(s, n - 1);
        let rows = storage::entry_candidates(s, n - 1);
        let (key, entry) = s.history.entries[n - 1];
        table::lemma_holds_at(s.history.entries, key, n - 1);
        if storage::prunable(entry) {
            let c = match table::lookup(rows, key) {
                Some(c) => CandidateModel {
                    bytes: storage::clamp(c.bytes + storage::entry_output(entry)),
                    ..c
                },
                None => CandidateModel {
                    age: entry.change,
                    payload: PayloadModel::Replica(key),
                    bytes: storage::clamp(storage::entry_output(entry) as int),
                },
            };
            assert(may_go(s, c) && payload_of(s, key, c.payload)) by {
                if let Some(old) = table::lookup(rows, key) {
                    assert(may_go(s, old));
                    if let PayloadModel::Local(id) = old.payload {
                        let j = choose|j: int|
                            0 <= j < s.jobs.len() && (#[trigger] s.jobs[j]).id == id && over(
                                s.jobs[j].status,
                            ) && s.jobs[j].stdout.len() + s.jobs[j].stderr.len() > 0 && (
                            table::lookup(s.job_certificates, id) matches Some(key) && (
                            table::lookup(s.history.entries, key) matches Some(entry)
                                && says_something(entry) && old.age == entry.change));
                        assert(s.jobs[j].id == id);
                    }
                }
            }
            table::lemma_stored_ascending(rows, key, c);
            let next = table::stored(rows, key, c);
            assert(next == storage::entry_candidates(s, n));
            assert forall|k: Seq<char>| (#[trigger] table::lookup(next, k)) is Some implies may_go(
                s,
                table::lookup(next, k)->0,
            ) && payload_of(s, k, table::lookup(next, k)->0.payload) by {
                table::lemma_stored_lookup(rows, key, c, k);
            }
            assert forall|j: int|
                0 <= j < s.jobs.len() && (#[trigger] storage::job_candidate(s, s.jobs[j])) is Some implies table::lookup(
                next,
                (storage::job_candidate(s, s.jobs[j])->0).0,
            ) is Some by {
                table::lemma_stored_lookup(rows, key, c, (storage::job_candidate(s, s.jobs[j])->0).0);
            }
            assert forall|k: int|
                0 <= k < n && storage::prunable((#[trigger] s.history.entries[k]).1) implies table::lookup(
                next,
                s.history.entries[k].0,
            ) is Some by {
                table::lemma_stored_lookup(rows, key, c, s.history.entries[k].0);
            }
        }
    }
}

/// The candidates of a state, before they are put in order.
pub open spec fn unordered(s: StoreModel) -> Seq<CandidateModel> {
    storage::row_values(storage::entry_candidates(s, s.history.entries.len() as int))
}

proof fn lemma_removable(s: StoreModel)
    ensures
        forall|i: int|
            0 <= i < storage::removable(s).len() ==> unordered(s).contains(
                #[trigger] storage::removable(s)[i],
            ),
        forall|i: int|
            0 <= i < unordered(s).len() ==> storage::removable(s).contains(
                #[trigger] unordered(s)[i],
            ),
        forall|i: int, j: int|
            0 <= i < j < storage::removable(s).len() ==> (#[trigger] storage::removable(s)[i]).age
                <= (#[trigger] storage::removable(s)[j]).age,
{
    let list = unordered(s);
    let before = order::rank_order::<Candidate>();
    let shown = storage::removable(s);
    assert(order::strict_weak(before));
    order::lemma_sorted(list, before);
    broadcast use vstd::seq_lib::group_to_multiset_ensures;

    assert forall|i: int| 0 <= i < shown.len() implies list.contains(#[trigger] shown[i]) by {
        assert(shown.to_multiset().count(shown[i]) > 0);
    }
    assert forall|i: int| 0 <= i < list.len() implies shown.contains(#[trigger] list[i]) by {
        assert(list.to_multiset().count(list[i]) > 0);
    }
    assert forall|i: int, j: int| 0 <= i < j < shown.len() implies (#[trigger] shown[i]).age <= (
    #[trigger] shown[j]).age by {
        assert(!before(shown[j], shown[i]));
    }
}

/// Pruning starts with the oldest output and touches only what may go: nothing of work
/// that is still open, nothing that is not on record.
pub proof fn law_only_finished_output_goes(s: StoreModel)
    requires
        table::ascending(s.history.entries),
    ensures
        forall|i: int|
            0 <= i < storage::removable(s).len() ==> may_go(s, #[trigger] storage::removable(s)[i]),
        forall|i: int, j: int|
            0 <= i < j < storage::removable(s).len() ==> (#[trigger] storage::removable(s)[i]).age
                <= (#[trigger] storage::removable(s)[j]).age,
{
    let rows = storage::entry_candidates(s, s.history.entries.len() as int);
    lemma_entry_candidates(s, s.history.entries.len() as int);
    lemma_removable(s);
    assert forall|i: int| 0 <= i < storage::removable(s).len() implies may_go(
        s,
        #[trigger] storage::removable(s)[i],
    ) by {
        let c = storage::removable(s)[i];
        let k = choose|k: int| 0 <= k < unordered(s).len() && unordered(s)[k] == c;
        table::lemma_holds_at(rows, rows[k].0, k);
        assert(table::lookup(rows, rows[k].0) == Some(c));
    }
}

/// And it leaves out none of it: the output of every job that is over and on record,
/// and of every record of work that is over, is among what may go.
pub proof fn law_all_finished_output_may_go(s: StoreModel, j: int, k: int)
    requires
        table::ascending(s.history.entries),
    ensures
        0 <= j < s.jobs.len() && over(s.jobs[j].status) && s.jobs[j].stdout.len()
            + s.jobs[j].stderr.len() > 0 && (table::lookup(
            s.job_certificates,
            s.jobs[j].id,
        ) matches Some(key) && (table::lookup(s.history.entries, key) matches Some(entry)
            && says_something(entry))) ==> exists|i: int|
            0 <= i < storage::removable(s).len() && payload_of(
                s,
                table::lookup(s.job_certificates, s.jobs[j].id)->0,
                (#[trigger] storage::removable(s)[i]).payload,
            ),
        0 <= k < s.history.entries.len() && (s.history.entries[k].1.output matches Some(o)
            && o.stdout.len() + o.stderr.len() > 0) && says_something(s.history.entries[k].1)
            && over(last_word(s.history.entries[k].1)) ==> exists|i: int|
            0 <= i < storage::removable(s).len() && payload_of(
                s,
                s.history.entries[k].0,
                (#[trigger] storage::removable(s)[i]).payload,
            ),
{
    let rows = storage::entry_candidates(s, s.history.entries.len() as int);
    lemma_entry_candidates(s, s.history.entries.len() as int);
    lemma_removable(s);
    if 0 <= j < s.jobs.len() && over(s.jobs[j].status) && s.jobs[j].stdout.len()
        + s.jobs[j].stderr.len() > 0 && (table::lookup(
        s.job_certificates,
        s.jobs[j].id,
    ) matches Some(key) && (table::lookup(s.history.entries, key) matches Some(entry)
        && says_something(entry))) {
        assert(storage::job_candidate(s, s.jobs[j]) is Some);
        lemma_candidate_listed(s, table::lookup(s.job_certificates, s.jobs[j].id)->0);
    }
    if 0 <= k < s.history.entries.len() && (s.history.entries[k].1.output matches Some(o)
        && o.stdout.len() + o.stderr.len() > 0) && says_something(s.history.entries[k].1) && over(
        last_word(s.history.entries[k].1),
    ) {
        assert(storage::prunable(s.history.entries[k].1));
        lemma_candidate_listed(s, s.history.entries[k].0);
    }
}

proof fn lemma_candidate_listed(s: StoreModel, key: Seq<char>)
    requires
        table::ascending(s.history.entries),
        table::lookup(storage::entry_candidates(s, s.history.entries.len() as int), key) is Some,
    ensures
        exists|i: int|
            0 <= i < storage::removable(s).len() && payload_of(
                s,
                key,
                (#[trigger] storage::removable(s)[i]).payload,
            ),
{
    let rows = storage::entry_candidates(s, s.history.entries.len() as int);
    lemma_entry_candidates(s, s.history.entries.len() as int);
    lemma_removable(s);
    table::lemma_rank_bounds(rows, key);
    let at = table::rank(rows, key);
    assert(unordered(s)[at] == rows[at].1);
    let shown = storage::removable(s);
    assert(shown.contains(unordered(s)[at]));
    let i = choose|i: int| 0 <= i < shown.len() && shown[i] == unordered(s)[at];
    assert(payload_of(s, key, shown[i].payload));
}

/// The newest so many stay, and all before them go.
pub proof fn law_newest_stay(s: StoreModel, keep: usize)
    ensures
        ({
            let n = storage::removable(s).len();
            &&& n <= keep ==> storage::prune_count(s, keep) == 0
            &&& n > keep ==> storage::prune_count(s, keep) == n - keep
        }),
{
}

/// Giving up a job's output empties both of its streams, in the job and in its record,
/// and leaves a receipt of it in both places. Its status, arguments and machines, and
/// every other job and record, stay.
pub proof fn law_output_is_given_up(s: StoreModel, id: Seq<char>, at: int, other: Seq<char>)
    requires
        table::ascending(s.history.entries),
        table::ascending(s.output_pruned),
        table::ascending(s.history_pruned),
        s.history.clock < u64::MAX,
        0 <= at < s.jobs.len(),
        s.jobs[at].id == id,
        forall|j: int| 0 <= j < at ==> (#[trigger] s.jobs[j]).id != id,
        table::lookup(s.job_certificates, id) is Some,
    ensures
        ({
            let key = table::lookup(s.job_certificates, id)->0;
            let (next, result) = storage::removed(s, PayloadModel::Local(id));
            &&& result is Ok
            &&& next.jobs == s.jobs.update(
                at,
                JobModel { stdout: Seq::empty(), stderr: Seq::empty(), ..s.jobs[at] },
            )
            &&& table::lookup(next.output_pruned, id) is Some
            &&& table::lookup(next.history_pruned, key) is Some
            &&& table::lookup(s.history.entries, key) matches Some(entry) ==> (table::lookup(
                next.history.entries,
                key,
            ) matches Some(now) && now.record == entry.record && now.output is None && now.change
                == s.history.clock + 1)
            &&& other != key ==> table::lookup(next.history.entries, other) == table::lookup(
                s.history.entries,
                other,
            )
        }),
{
    let key = table::lookup(s.job_certificates, id)->0;
    search::lemma_first_at(s.jobs, job::job_with_id(id), at);
    table::lemma_stored_lookup(s.output_pruned, id, (), id);
    table::lemma_stored_lookup(s.history_pruned, key, (), key);
    if let Some(entry) = table::lookup(s.history.entries, key) {
        let now = EntryModel { output: None, change: (s.history.clock + 1) as u64, ..entry };
        table::lemma_stored_lookup(s.history.entries, key, now, key);
        table::lemma_stored_lookup(s.history.entries, key, now, other);
    }
}

/// Giving up what a record alone holds leaves every job as it is.
pub proof fn law_replica_is_given_up(s: StoreModel, key: Seq<char>)
    requires
        table::ascending(s.history.entries),
        table::ascending(s.history_pruned),
        s.history.clock < u64::MAX,
    ensures
        ({
            let (next, result) = storage::removed(s, PayloadModel::Replica(key));
            &&& result is Ok
            &&& next.jobs == s.jobs && next.output_pruned == s.output_pruned
            &&& table::lookup(next.history_pruned, key) is Some
            &&& table::lookup(s.history.entries, key) matches Some(entry) ==> (table::lookup(
                next.history.entries,
                key,
            ) matches Some(now) && now.record == entry.record && now.output is None)
        }),
{
    table::lemma_stored_lookup(s.history_pruned, key, (), key);
    if let Some(entry) = table::lookup(s.history.entries, key) {
        let now = EntryModel { output: None, change: (s.history.clock + 1) as u64, ..entry };
        table::lemma_stored_lookup(s.history.entries, key, now, key);
    }
}

/// What is kept is measured in the bytes of both streams of every job and record.
pub proof fn law_kept_output_adds_up(
    s: StoreModel,
    more: JobModel,
    key: Seq<char>,
    entry: EntryModel,
)
    ensures
        ({
            let held = match entry.output {
                Some(o) => o.stdout.len() + o.stderr.len(),
                None => 0,
            };
            &&& storage::retained(StoreModel { jobs: s.jobs.push(more), ..s })
                == storage::retained(s) + more.stdout.len() + more.stderr.len()
            &&& storage::retained(
                StoreModel {
                    history: crate::history::HistoryModel {
                        entries: s.history.entries.push((key, entry)),
                        ..s.history
                    },
                    ..s
                },
            ) == storage::retained(s) + held
            &&& s.jobs.len() == 0 && s.history.entries.len() == 0 ==> storage::retained(s) == 0
        }),
{
    assert(s.jobs.push(more).drop_last() =~= s.jobs);
    assert(s.history.entries.push((key, entry)).drop_last() =~= s.history.entries);
}

/// A state whose output is within the budget is saved as it is. One over it gives up
/// the oldest output, one payload after the other, and stops as soon as the rest fits.
pub proof fn law_no_more_is_given_up_than_must(next: StoreModel, earlier: StoreModel)
    requires
        storage::counts_outcome(next, earlier) is Ok,
    ensures
        storage::retained(next) <= 16777216 ==> storage::prepared(next, earlier) == (
            next,
            Ok::<(), ErrorModel>(()),
        ),
        storage::prepared(next, earlier).1 is Ok ==> storage::retained(
            storage::prepared(next, earlier).0,
        ) <= 16777216,
        storage::prepared(next, earlier).1 is Ok ==> exists|n: int|
            0 <= n <= storage::removable(next).len() && (#[trigger] storage::removed_between(
                next,
                storage::removable(next),
                0,
                n,
            )).0 == storage::prepared(next, earlier).0 && (forall|m: int|
                0 <= m < n ==> storage::retained(
                    (#[trigger] storage::removed_between(next, storage::removable(next), 0, m)).0,
                ) > 16777216),
{
    let list = storage::removable(next);
    if storage::retained(next) <= 16777216 {
        assert(storage::removed_between(next, list, 0, 0).0 == next);
    } else if storage::prepared(next, earlier).1 is Ok {
        let n = lemma_stops_when_it_fits(next, list, 0);
        assert(storage::removed_between(next, list, 0, n).0 == storage::prepared(next, earlier).0);
    }
}

proof fn lemma_stops_when_it_fits(s: StoreModel, list: Seq<CandidateModel>, i: int) -> (n: int)
    requires
        0 <= i <= list.len(),
        storage::removed_until_fit(s, list, i).1 is Ok,
    ensures
        i <= n <= list.len(),
        storage::removed_between(s, list, i, n) == storage::removed_until_fit(s, list, i),
        forall|m: int|
            i <= m < n ==> storage::retained(
                (#[trigger] storage::removed_between(s, list, i, m)).0,
            ) > 16777216,
    decreases list.len() - i,
{
    if i >= list.len() || storage::retained(s) <= 16777216 {
        i
    } else {
        let next = storage::removed(s, list[i].payload).0;
        let n = lemma_stops_when_it_fits(next, list, i + 1);
        assert forall|m: int| i <= m < n implies storage::retained(
            (#[trigger] storage::removed_between(s, list, i, m)).0,
        ) > 16777216 by {
            if m > i {
                assert(storage::removed_between(s, list, i, m) == storage::removed_between(
                    next,
                    list,
                    i + 1,
                    m,
                ));
            }
        }
        n
    }
}

/// Each kind of record has its limit. A state past one is refused where it grew, and
/// accepted where it did not.
pub proof fn law_counts_are_limited(next: StoreModel, earlier: StoreModel)
    ensures
        storage::counts_outcome(next, earlier) is Ok <==> {
            &&& next.jobs.len() <= 10000 || next.jobs.len() <= earlier.jobs.len()
            &&& next.history.entries.len() <= 30000 || next.history.entries.len()
                <= earlier.history.entries.len()
            &&& next.request_receipts.len() <= 10000 || next.request_receipts.len()
                <= earlier.request_receipts.len()
            &&& next.requests.len() <= 1024 || next.requests.len() <= earlier.requests.len()
            &&& next.outbound_requests.len() <= 1024 || next.outbound_requests.len()
                <= earlier.outbound_requests.len()
            &&& next.peers.len() <= 64 || next.peers.len() <= earlier.peers.len()
            &&& next.grants.len() <= 256 || next.grants.len() <= earlier.grants.len()
        },
        storage::counts_outcome(next, earlier) is Err ==> storage::counts_outcome(
            next,
            earlier,
        )->Err_0 is Capacity && storage::prepared(next, earlier) == (
            next,
            storage::counts_outcome(next, earlier),
        ),
{
}

/// A state is written only where its encoding fits, and where it leaves room for what
/// it has accepted or takes no more of that room than before.
pub proof fn law_state_is_limited(
    s: StoreModel,
    next: StoreModel,
    encoded: usize,
    old_encoded: usize,
)
    ensures
        encoded > 134217728 ==> store::admission(s, next, encoded, old_encoded) is Err,
        encoded <= 134217728 && storage::charge(next, encoded as nat) <= 134217728
            ==> store::admission(s, next, encoded, old_encoded) is Ok,
        encoded <= 134217728 && storage::charge(next, encoded as nat) <= storage::charge(
            s,
            old_encoded as nat,
        ) ==> store::admission(s, next, encoded, old_encoded) is Ok,
        encoded <= 134217728 && storage::charge(next, encoded as nat) > 134217728
            && storage::charge(next, encoded as nat) > storage::charge(s, old_encoded as nat)
            && storage::charge(s, old_encoded as nat) < usize::MAX ==> store::admission(
            s,
            next,
            encoded,
            old_encoded,
        ) is Err,
{
}

/// Every job that is not over holds room for its outcome: once it is over, that much
/// of the charge is free again.
pub proof fn law_open_job_holds_room(s: StoreModel, at: int, status: JobStatusModel, encoded: nat)
    requires
        0 <= at < s.jobs.len(),
        !over(s.jobs[at].status),
        over(status),
    ensures
        storage::charge(
            StoreModel { jobs: s.jobs.update(at, JobModel { status, ..s.jobs[at] }), ..s },
            encoded,
        ) + 2097152 == storage::charge(s, encoded),
{
    let done = JobModel { status, ..s.jobs[at] };
    search::lemma_total_update(s.jobs, storage::job_payload(), at, done);
    search::lemma_total_update(s.jobs, storage::job_receipt(s.output_pruned), at, done);
    search::lemma_total_update(s.jobs, storage::open_job(), at, done);
    let next = StoreModel { jobs: s.jobs.update(at, done), ..s };
    let a = search::total(s.jobs, storage::open_job()) as int;
    let b = search::total(next.jobs, storage::open_job()) as int;
    assert(b + 1 == a);
    assert(a * 2097152 == b * 2097152 + 2097152);
}

} // verus!
