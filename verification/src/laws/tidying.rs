//! Output is held once: with the job that it is of, or with the record, and nowhere
//! once it was given up. Tidying the store loses nothing else.

use vstd::prelude::*;

use crate::history::merge;
use crate::history::publish;
use crate::history::{CapturedOutputModel, EntryModel, HistoryModel};
use crate::store::StoreModel;
use crate::table;
use crate::types::JobModel;

verus! {

/// The record that a job's certificate names was given up.
pub open spec fn given_up(s: StoreModel, job: JobModel) -> bool {
    table::lookup(s.job_certificates, job.id) matches Some(key) && table::holds(
        s.history_pruned,
        key,
    )
}

/// Some job holds the output, as the one that the record speaks of.
pub open spec fn held_by_a_job(s: StoreModel, key: Seq<char>, output: CapturedOutputModel) -> bool {
    exists|j: int|
        0 <= j < s.jobs.len() && table::lookup(s.job_certificates, (#[trigger] s.jobs[j]).id)
            == Some(key) && s.jobs[j].stdout == output.stdout && s.jobs[j].stderr == output.stderr
}

/// What a step of tidying leaves of the jobs and of the record under a key.
pub open spec fn left(s: StoreModel, next: StoreModel, key: Seq<char>) -> bool {
    &&& next.jobs.len() == s.jobs.len()
    &&& next.job_certificates == s.job_certificates
    &&& next.history_pruned == s.history_pruned
    &&& next.history.clock == s.history.clock
    &&& next.grants == s.grants
    &&& table::ascending(next.history.entries)
    &&& forall|j: int|
        0 <= j < s.jobs.len() ==> (#[trigger] next.jobs[j]) == s.jobs[j] || (given_up(s, s.jobs[j])
            && next.jobs[j] == (JobModel {
            stdout: Seq::empty(),
            stderr: Seq::empty(),
            ..s.jobs[j]
        }))
    &&& match table::lookup(s.history.entries, key) {
        None => table::lookup(next.history.entries, key) is None,
        Some(entry) => {
            &&& table::lookup(next.history.entries, key) matches Some(after)
            &&& after.record == entry.record
            &&& after.change == entry.change
            &&& after.output == entry.output || (after.output is None && !table::holds(
                s.history_pruned,
                key,
            ) && entry.output is Some && held_by_a_job(s, key, entry.output->0))
        },
    }
}

proof fn lemma_step(s: StoreModel, i: int, key: Seq<char>)
    requires
        0 <= i < s.jobs.len(),
        table::ascending(s.history.entries),
    ensures
        left(s, merge::normalized_job(s, i), key),
{
    let job = s.jobs[i];
    let next = merge::normalized_job(s, i);
    if let Some(own) = table::lookup(s.job_certificates, job.id) {
        if let Some(entry) = table::lookup(s.history.entries, own) {
            let bare = EntryModel { output: None, ..entry };
            table::lemma_stored_ascending(s.history.entries, own, bare);
            table::lemma_stored_lookup(s.history.entries, own, bare, key);
            assert(s.jobs[i] == job);
        }
    }
}

proof fn lemma_steps(s: StoreModel, i: int, key: Seq<char>)
    requires
        0 <= i,
        table::ascending(s.history.entries),
    ensures
        left(s, merge::normalized_from(s, i), key),
        forall|j: int|
            0 <= j < i && j < s.jobs.len() ==> #[trigger] merge::normalized_from(s, i).jobs[j]
                == s.jobs[j],
    decreases s.jobs.len() - i,
{
    if i < s.jobs.len() {
        let next = merge::normalized_job(s, i);
        lemma_step(s, i, key);
        lemma_steps(next, i + 1, key);
        let last = merge::normalized_from(s, i);
        assert(last == merge::normalized_from(next, i + 1));
        assert forall|j: int| 0 <= j < s.jobs.len() implies (#[trigger] last.jobs[j]) == s.jobs[j]
            || (given_up(s, s.jobs[j]) && last.jobs[j] == (JobModel {
            stdout: Seq::empty(),
            stderr: Seq::empty(),
            ..s.jobs[j]
        })) by {
            assert(next.jobs[j] == s.jobs[j] || given_up(s, s.jobs[j]));
            assert(last.jobs[j] == next.jobs[j] || given_up(next, next.jobs[j]));
            assert(next.jobs[j].id == s.jobs[j].id);
        }
        assert forall|j: int| 0 <= j < i && j < s.jobs.len() implies #[trigger] last.jobs[j]
            == s.jobs[j] by {
            assert(next.jobs[j] == s.jobs[j]);
        }
        if let Some(entry) = table::lookup(s.history.entries, key) {
            let middle = table::lookup(next.history.entries, key)->0;
            if middle.output is Some && held_by_a_job(next, key, middle.output->0) && !table::holds(
                s.history_pruned,
                key,
            ) {
                let j = choose|j: int|
                    0 <= j < next.jobs.len() && table::lookup(
                        next.job_certificates,
                        (#[trigger] next.jobs[j]).id,
                    ) == Some(key) && next.jobs[j].stdout == middle.output->0.stdout
                        && next.jobs[j].stderr == middle.output->0.stderr;
                assert(next.jobs[j] == s.jobs[j] || given_up(s, s.jobs[j]));
                assert(s.jobs[j].id == next.jobs[j].id);
                assert(held_by_a_job(s, key, middle.output->0));
            }
        }
    }
}

spec fn unloaded_store(s: StoreModel) -> StoreModel {
    StoreModel {
        history: HistoryModel {
            entries: merge::unloaded(s.history.entries, s.history_pruned),
            ..s.history
        },
        ..s
    }
}

proof fn lemma_unloaded(s: StoreModel, key: Seq<char>)
    requires
        table::ascending(s.history.entries),
    ensures
        table::ascending(unloaded_store(s).history.entries),
        match table::lookup(s.history.entries, key) {
            None => table::lookup(unloaded_store(s).history.entries, key) is None,
            Some(entry) => table::lookup(unloaded_store(s).history.entries, key) == Some(
                if table::holds(s.history_pruned, key) {
                    EntryModel { output: None, ..entry }
                } else {
                    entry
                },
            ),
        },
{
    let old_rows = s.history.entries;
    let rows = unloaded_store(s).history.entries;
    assert forall|i: int, j: int| 0 <= i < j < rows.len() implies crate::text::text_lt(
        #[trigger] rows[i].0,
        #[trigger] rows[j].0,
    ) by {
        assert(crate::text::text_lt(old_rows[i].0, old_rows[j].0));
    }
    table::lemma_rank_bounds(old_rows, key);
    table::lemma_rank_bounds(rows, key);
    let at = table::rank(old_rows, key);
    assert forall|i: int| 0 <= i < at implies crate::text::text_lt(#[trigger] rows[i].0, key) by {
        assert(crate::text::text_lt(old_rows[i].0, key));
    }
    table::lemma_rank_is(rows, key, at);
}

/// Tidying keeps every job and every record: only output goes. A job's output goes
/// where its record was given up; a record's, where it was given up or where the job
/// itself holds the same.
pub proof fn law_tidying_keeps_what_was_not_given_up(s: StoreModel, key: Seq<char>, j: int)
    requires
        table::ascending(s.history.entries),
    ensures
        ({
            let next = merge::normalized(s);
            &&& next.jobs.len() == s.jobs.len()
            &&& next.job_certificates == s.job_certificates
            &&& next.history_pruned == s.history_pruned
            &&& next.grants == s.grants
            &&& 0 <= j < s.jobs.len() ==> next.jobs[j].id == s.jobs[j].id && next.jobs[j].argv
                == s.jobs[j].argv && next.jobs[j].status == s.jobs[j].status
            &&& 0 <= j < s.jobs.len() && !given_up(s, s.jobs[j]) ==> next.jobs[j] == s.jobs[j]
            &&& table::lookup(s.history.entries, key) matches Some(entry) ==> {
                &&& table::lookup(next.history.entries, key) matches Some(after)
                &&& after.record == entry.record
                &&& after.change == entry.change
                &&& entry.output is Some && after.output != entry.output ==> table::holds(
                    s.history_pruned,
                    key,
                ) || held_by_a_job(s, key, entry.output->0)
                &&& table::holds(s.history_pruned, key) ==> after.output is None
            }
            &&& table::lookup(s.history.entries, key) is None ==> table::lookup(
                next.history.entries,
                key,
            ) is None
        }),
{
    let bare = unloaded_store(s);
    lemma_unloaded(s, key);
    lemma_steps(bare, 0, key);
    let next = merge::normalized(s);
    if 0 <= j < s.jobs.len() {
        assert(next.jobs[j] == bare.jobs[j] || given_up(bare, bare.jobs[j]));
    }
    if let Some(entry) = table::lookup(s.history.entries, key) {
        if entry.output is Some && held_by_a_job(bare, key, entry.output->0) {
            let k = choose|k: int|
                0 <= k < bare.jobs.len() && table::lookup(
                    bare.job_certificates,
                    (#[trigger] bare.jobs[k]).id,
                ) == Some(key) && bare.jobs[k].stdout == entry.output->0.stdout
                    && bare.jobs[k].stderr == entry.output->0.stderr;
            assert(s.jobs[k] == bare.jobs[k]);
        }
    }
}

proof fn lemma_steps_empty(s: StoreModel, i: int, j: int)
    requires
        0 <= i <= j < s.jobs.len(),
        table::ascending(s.history.entries),
        given_up(s, s.jobs[j]),
        table::lookup(
            s.history.entries,
            table::lookup(s.job_certificates, s.jobs[j].id)->0,
        ) matches Some(entry) && publish::speaks_of(entry.record.certificate, s.jobs[j]),
    ensures
        merge::normalized_from(s, i).jobs[j].stdout.len() == 0,
        merge::normalized_from(s, i).jobs[j].stderr.len() == 0,
    decreases s.jobs.len() - i,
{
    let key = table::lookup(s.job_certificates, s.jobs[j].id)->0;
    let next = merge::normalized_job(s, i);
    lemma_step(s, i, key);
    assert(next.jobs[j] == s.jobs[j] || given_up(s, s.jobs[j]));
    if i == j {
        lemma_steps(next, i + 1, key);
        assert(merge::normalized_from(next, i + 1).jobs[j] == next.jobs[j]);
    } else {
        lemma_steps_empty(next, i + 1, j);
    }
}

/// A job whose record was given up holds no output either.
pub proof fn law_given_up_is_given_up_everywhere(s: StoreModel, j: int, entry: EntryModel)
    requires
        0 <= j < s.jobs.len(),
        table::ascending(s.history.entries),
        given_up(s, s.jobs[j]),
        table::lookup(
            s.history.entries,
            table::lookup(s.job_certificates, s.jobs[j].id)->0,
        ) == Some(entry),
        entry.record.certificate.invocation.id == s.jobs[j].id,
        entry.record.certificate.invocation.from == s.jobs[j].from,
        entry.record.certificate.invocation.body == s.jobs[j].body,
        entry.record.certificate.invocation.argv == s.jobs[j].argv,
    ensures
        merge::normalized(s).jobs[j].stdout.len() == 0,
        merge::normalized(s).jobs[j].stderr.len() == 0,
{
    let key = table::lookup(s.job_certificates, s.jobs[j].id)->0;
    lemma_unloaded(s, key);
    lemma_steps_empty(unloaded_store(s), 0, j);
}

} // verus!
