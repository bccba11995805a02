//! Pruning, restarting and saving: bytes may go, outcomes and receipts stay.

use vstd::prelude::*;

use crate::error::ErrorModel;
use crate::exec;
use crate::exec::SubmissionModel;
use crate::history::{CertificateModel, EntryModel};
use crate::job;
use crate::limits;
use crate::search;
use crate::storage;
use crate::storage::{CandidateModel, PayloadModel, OUTPUT_BYTES};
use crate::store;
use crate::store::StoreModel;
use crate::table;
use crate::types::{JobModel, LocalTimeModel};

verus! {

/// The same job but for its output.
pub open spec fn same_outcome(a: JobModel, b: JobModel) -> bool {
    b == JobModel { stdout: b.stdout, stderr: b.stderr, ..a }
}

/// What a later state still knows of an earlier one: every job's outcome, what
/// each job was admitted as, every delivery receipt, every signed record with its
/// digests, and all that is not output at all.
pub open spec fn remembers(later: StoreModel, earlier: StoreModel) -> bool {
    &&& later == StoreModel {
        jobs: later.jobs,
        history: later.history,
        output_pruned: later.output_pruned,
        history_pruned: later.history_pruned,
        ..earlier
    }
    &&& later.jobs.len() == earlier.jobs.len()
    &&& forall|i: int|
        0 <= i < earlier.jobs.len() ==> same_outcome(
            #[trigger] earlier.jobs[i],
            later.jobs[i],
        )
    &&& table::ascending(later.history.entries)
    &&& forall|key: Seq<char>|
        (#[trigger] table::lookup(earlier.history.entries, key)) matches Some(e) ==> (table::lookup(
            later.history.entries,
            key,
        ) matches Some(l) && l.record == e.record)
}

pub proof fn lemma_removed_remembers(s: StoreModel, payload: PayloadModel)
    requires
        table::ascending(s.history.entries),
    ensures
        remembers(storage::removed(s, payload).0, s),
{
    let (next, step) = storage::cleared(s, payload);
    if let PayloadModel::Local(id) = payload {
        search::lemma_first(s.jobs, job::job_with_id(id));
    }
    if step is Ok && s.history.clock < u64::MAX {
        let key = step->Ok_0;
        if let Some(entry) = table::lookup(s.history.entries, key) {
            let bare = EntryModel {
                output: None,
                change: (s.history.clock + 1) as u64,
                ..entry
            };
            table::lemma_stored_ascending(s.history.entries, key, bare);
            let later = storage::removed(s, payload).0;
            assert forall|k: Seq<char>| (#[trigger] table::lookup(s.history.entries, k)) is Some implies (
            table::lookup(later.history.entries, k) matches Some(l) && l.record == table::lookup(
                s.history.entries,
                k,
            )->0.record) by {
                table::lemma_stored_lookup(s.history.entries, key, bare, k);
            }
        }
    }
}

proof fn lemma_remembers_chain(a: StoreModel, b: StoreModel, c: StoreModel)
    requires
        remembers(b, a),
        remembers(c, b),
    ensures
        remembers(c, a),
{
    assert forall|i: int| 0 <= i < a.jobs.len() implies same_outcome(
        #[trigger] a.jobs[i],
        c.jobs[i],
    ) by {
        assert(same_outcome(a.jobs[i], b.jobs[i]));
        assert(same_outcome(b.jobs[i], c.jobs[i]));
    }
    assert forall|key: Seq<char>| (#[trigger] table::lookup(a.history.entries, key)) is Some implies (table::lookup(
        c.history.entries,
        key,
    ) matches Some(l) && l.record == table::lookup(a.history.entries, key)->0.record) by {
        assert(table::lookup(b.history.entries, key) is Some);
    }
}

/// Pruning deletes bytes. Outcomes, digests and the receipts that refuse a repeat stay.
pub proof fn law_prune_keeps_outcomes(s: StoreModel, list: Seq<CandidateModel>, i: int, n: int)
    requires
        table::ascending(s.history.entries),
    ensures
        remembers(storage::removed_between(s, list, i, n).0, s),
    decreases n - i,
{
    if i < n {
        lemma_removed_remembers(s, list[i].payload);
        let (next, step) = storage::removed(s, list[i].payload);
        if step is Ok {
            law_prune_keeps_outcomes(next, list, i + 1, n);
            lemma_remembers_chain(s, next, storage::removed_between(next, list, i + 1, n).0);
        }
    }
}

proof fn lemma_until_fit_remembers(s: StoreModel, list: Seq<CandidateModel>, i: int)
    requires
        table::ascending(s.history.entries),
    ensures
        remembers(storage::removed_until_fit(s, list, i).0, s),
    decreases list.len() - i,
{
    if i < list.len() {
        lemma_removed_remembers(s, list[i].payload);
        let (next, step) = storage::removed(s, list[i].payload);
        if step is Ok {
            lemma_until_fit_remembers(next, list, i + 1);
            lemma_remembers_chain(s, next, storage::removed_until_fit(next, list, i + 1).0);
        }
    }
}

/// A state that is saved keeps its output within the budget, by giving up bytes
/// and nothing else.
pub proof fn law_budget_keeps_outcomes(next: StoreModel, earlier: StoreModel)
    requires
        table::ascending(next.history.entries),
    ensures
        remembers(storage::prepared(next, earlier).0, next),
        storage::prepared(next, earlier).1 is Ok ==> storage::retained(storage::prepared(next, earlier).0) <= OUTPUT_BYTES,
{
    lemma_until_fit_remembers(next, storage::removable(next), 0);
}

/// Pruning never adds a byte.
pub proof fn law_prune_frees(s: StoreModel, list: Seq<CandidateModel>, i: int, n: int)
    ensures
        storage::retained(storage::removed_between(s, list, i, n).0) <= storage::retained(s),
{
    storage::lemma_removed_between_retains(s, list, i, n);
}

/// A job that is known is never run again, whatever it became: an invocation that
/// arrives again is answered with it. Only this machine's own waiting jobs start.
pub proof fn law_known_job_never_reruns(
    s: StoreModel,
    free: bool,
    job: JobModel,
    now: LocalTimeModel,
    fresh_id: Seq<char>,
)
    requires
        search::found(s.jobs, job::job_with_id(job.id)) == Some(job),
        job.body == s.body_name,
        limits::invocation_outcome(job.id, job.argv) is Ok,
        !exec::local_queue(s, job.from, job),
    ensures
        exec::submitted(s, free, job.from, job.argv, job.id, None, now, fresh_id) == (
            s,
            Ok::<SubmissionModel, ErrorModel>(SubmissionModel::Known(job)),
        ),
{
}

/// An ID that belongs to one invocation is refused to any other.
pub proof fn law_job_id_is_bound(
    s: StoreModel,
    free: bool,
    job: JobModel,
    from: Seq<char>,
    argv: Seq<Seq<char>>,
    certificate: Option<CertificateModel>,
    now: LocalTimeModel,
    fresh_id: Seq<char>,
)
    requires
        search::found(s.jobs, job::job_with_id(job.id)) == Some(job),
        from != job.from || argv != job.argv || job.body != s.body_name,
    ensures
        exec::submitted(s, free, from, argv, job.id, certificate, now, fresh_id).0 == s,
        exec::submitted(s, free, from, argv, job.id, certificate, now, fresh_id).1 is Err,
{
}

/// A restart leaves nothing running here, reruns nothing and forgets nothing: a
/// run that it interrupted is uncertain, every other job is as it was, and
/// restarting again changes nothing more.
pub proof fn law_restart(body_name: Seq<char>, jobs: Seq<JobModel>, i: int)
    requires
        0 <= i < jobs.len(),
    ensures
        store::recovered_jobs(body_name, jobs).len() == jobs.len(),
        ({
            let job = store::recovered_jobs(body_name, jobs)[i];
            &&& job.body == body_name ==> !(job.status is Running)
            &&& jobs[i].body == body_name && jobs[i].status is Running ==> job.status is Uncertain
            &&& !(jobs[i].body == body_name && jobs[i].status is Running) ==> job == jobs[i]
            &&& job == JobModel { status: job.status, ..jobs[i] }
        }),
        store::recovered_jobs(body_name, store::recovered_jobs(body_name, jobs)) == store::recovered_jobs(body_name, jobs),
{
    let once = store::recovered_jobs(body_name, jobs);
    assert(store::recovered_jobs(body_name, once) =~= once);
}

} // verus!
