//! Publishing: which facts a machine may change, and that it does so once.

use vstd::prelude::*;

use crate::crypto;
use crate::error::ErrorModel;
use crate::history::publish;
use crate::history::wire;
use crate::history::{RecordModel, SignedFactModel};
use crate::job;
use crate::store::StoreModel;
use crate::table;
use crate::types::JobModel;

verus! {

/// A fact stays, or gives way to the next revision of it by this machine. A
/// terminal fact stays.
pub open spec fn fact_advances(
    s: StoreModel,
    old_fact: Option<SignedFactModel>,
    new_fact: Option<SignedFactModel>,
) -> bool {
    ||| new_fact == old_fact
    ||| new_fact matches Some(n) && n.signature == crypto::ed25519_signature(
        s.owner_sk,
        wire::fact_message(n.fact),
    ) && match old_fact {
        Some(o) => !job::terminal(o.fact.status) && n.fact.revision == o.fact.revision + 1,
        None => n.fact.revision == 1,
    }
}

/// A record keeps its invocation, each of its facts stays or advances, and only in
/// a record of this machine's does one advance.
pub open spec fn record_advances(s: StoreModel, a: RecordModel, b: RecordModel) -> bool {
    &&& b.certificate == a.certificate
    &&& fact_advances(s, a.origin, b.origin)
    &&& fact_advances(s, a.runner, b.runner)
    &&& b != a ==> a.certificate.invocation.from == s.body_name || a.certificate.invocation.body
        == s.body_name
}

/// Whether a job from `i` on has this ID.
pub open spec fn id_among(jobs: Seq<JobModel>, i: int, id: Seq<char>) -> bool {
    exists|j: int| i <= j < jobs.len() && (#[trigger] jobs[j]).id == id
}

pub open spec fn distinct_ids(jobs: Seq<JobModel>) -> bool {
    forall|i: int, j: int|
        0 <= i < jobs.len() && 0 <= j < jobs.len() && i != j ==> (#[trigger] jobs[i]).id != (
        #[trigger] jobs[j]).id
}

/// Every job was admitted under an invocation.
pub open spec fn all_bound(s: StoreModel, jobs: Seq<JobModel>) -> bool {
    forall|i: int|
        0 <= i < jobs.len() ==> table::lookup(s.job_certificates, (#[trigger] jobs[i]).id) is Some
}

/// What became of an entry: nothing where there was none; a record that advances,
/// and, where none of the jobs from `i` on has its ID, the entry as it was.
pub open spec fn entry_advances(
    s: StoreModel,
    t: StoreModel,
    jobs: Seq<JobModel>,
    i: int,
    key: Seq<char>,
) -> bool {
    match table::lookup(s.history.entries, key) {
        None => table::lookup(t.history.entries, key) is None,
        Some(before) => table::lookup(t.history.entries, key) matches Some(after)
            && record_advances(s, before.record, after.record) && (!id_among(
            jobs,
            i,
            before.record.certificate.invocation.id,
        ) ==> after == before),
    }
}

/// What one job's publication does to an entry.
pub open spec fn step_advances(s: StoreModel, t: StoreModel, job: JobModel, key: Seq<char>) -> bool {
    match table::lookup(s.history.entries, key) {
        None => table::lookup(t.history.entries, key) is None,
        Some(before) => table::lookup(t.history.entries, key) matches Some(after)
            && record_advances(s, before.record, after.record) && (
        before.record.certificate.invocation.id != job.id ==> after == before),
    }
}

proof fn lemma_spoken(s: StoreModel, job: JobModel, known: bool)
    requires
        table::ascending(s.history.entries),
        table::lookup(s.job_certificates, job.id) is Some,
    ensures
        ({
            let t = publish::published_job(s, job, known).0;
            &&& table::ascending(t.history.entries)
            &&& t.job_certificates == s.job_certificates
            &&& t.owner_sk == s.owner_sk && t.body_name == s.body_name
            &&& forall|key: Seq<char>| #[trigger] step_advances(s, t, job, key)
        }),
{
    reveal(publish::published_job);
    let t = publish::published_job(s, job, known).0;
    let k = table::lookup(s.job_certificates, job.id)->0;
    if t != s {
        let entry = table::lookup(s.history.entries, k)->0;
        let (role, previous) = publish::voice(s, entry.record, job)->0;
        let next = table::lookup(t.history.entries, k)->0;
        let (stdout, stderr) = publish::digests(s, job, role, previous)->Ok_0;
        let revision = match previous {
            Some(p) => (p.fact.revision + 1) as u64,
            None => 1u64,
        };
        let fact = crate::history::FactModel {
            invocation: k,
            role,
            revision,
            status: job.status,
            stdout,
            stderr,
        };
        let signed = wire::signed_fact_outcome(s, fact)->Ok_0;
        let change = (s.history.clock + 1) as u64;
        let added = publish::with_fact(s, job, entry, signed, change);
        assert(t.history.entries == table::stored(s.history.entries, k, added));
        table::lemma_stored_ascending(s.history.entries, k, added);
        assert(record_advances(s, entry.record, added.record));
        assert forall|key: Seq<char>| #[trigger] step_advances(s, t, job, key) by {
            table::lemma_stored_lookup(s.history.entries, k, added, key);
        }
    }
}

proof fn lemma_published(
    s: StoreModel,
    jobs: Seq<JobModel>,
    i: int,
    legacy: bool,
    earlier: Seq<JobModel>,
)
    requires
        table::ascending(s.history.entries),
        all_bound(s, jobs),
        distinct_ids(jobs),
        0 <= i <= jobs.len(),
    ensures
        ({
            let t = publish::published_from(s, jobs, i, legacy, earlier).0;
            &&& table::ascending(t.history.entries)
            &&& t.job_certificates == s.job_certificates
            &&& forall|key: Seq<char>| #[trigger] entry_advances(s, t, jobs, i, key)
        }),
    decreases jobs.len() - i,
{
    let t = publish::published_from(s, jobs, i, legacy, earlier).0;
    if i < jobs.len() {
        if !legacy && !publish::job_changed(earlier, jobs[i]) {
            lemma_published(s, jobs, i + 1, legacy, earlier);
            assert forall|key: Seq<char>| #[trigger] entry_advances(s, t, jobs, i, key) by {
                assert(entry_advances(s, t, jobs, i + 1, key));
                lemma_among(jobs, i, key_id(s, key));
            }
        } else {
            let known = publish::last_at(earlier, jobs[i].id) is Some;
            let (mid, step) = publish::published_job(s, jobs[i], known);
            lemma_spoken(s, jobs[i], known);
            if step is Ok {
                lemma_published(mid, jobs, i + 1, legacy, earlier);
            }
            assert forall|key: Seq<char>| #[trigger] entry_advances(s, t, jobs, i, key) by {
                assert(step_advances(s, mid, jobs[i], key));
                lemma_among(jobs, i, key_id(s, key));
                if step is Ok {
                    assert(entry_advances(mid, t, jobs, i + 1, key));
                    if let Some(before) = table::lookup(s.history.entries, key) {
                        let id = before.record.certificate.invocation.id;
                        let middle = table::lookup(mid.history.entries, key)->0;
                        assert(middle.record.certificate == before.record.certificate);
                        if id == jobs[i].id {
                            if id_among(jobs, i + 1, id) {
                                let j = choose|j: int|
                                    i + 1 <= j < jobs.len() && (#[trigger] jobs[j]).id == id;
                                assert(jobs[i].id != jobs[j].id);
                            }
                        }
                    }
                }
            }
        }
    }
}

/// The job ID that a key's entry speaks of.
pub open spec fn key_id(s: StoreModel, key: Seq<char>) -> Seq<char> {
    table::lookup(s.history.entries, key)->0.record.certificate.invocation.id
}

proof fn lemma_among(jobs: Seq<JobModel>, i: int, id: Seq<char>)
    requires
        0 <= i < jobs.len(),
    ensures
        id_among(jobs, i + 1, id) ==> id_among(jobs, i, id),
        jobs[i].id == id ==> id_among(jobs, i, id),
{
    if id_among(jobs, i + 1, id) {
        let j = choose|j: int| i + 1 <= j < jobs.len() && (#[trigger] jobs[j]).id == id;
        assert(jobs[j].id == id);
    }
}

/// On a machine whose jobs are all admitted, publishing changes a fact only by its
/// next revision, signed by this machine, in a record that it takes part in. A
/// terminal fact never changes, no entry comes or goes, and jobs, grants, requests
/// and peers are as they were.
pub proof fn law_publishing_advances(
    s: StoreModel,
    previous: Option<StoreModel>,
    fresh_epoch: Seq<char>,
    key: Seq<char>,
)
    requires
        s.history.initialized,
        table::ascending(s.history.entries),
        all_bound(s, s.jobs),
        distinct_ids(s.jobs),
    ensures
        ({
            let t = publish::refreshed(s, previous, fresh_epoch).0;
            &&& match table::lookup(s.history.entries, key) {
                None => table::lookup(t.history.entries, key) is None,
                Some(before) => table::lookup(t.history.entries, key) matches Some(after)
                    && record_advances(s, before.record, after.record),
            }
            &&& publish::same_but_history(s, t)
            &&& t.job_certificates == s.job_certificates
        }),
{
    let ready = publish::readied(s, fresh_epoch);
    let earlier = publish::earlier_jobs(previous);
    lemma_published(ready, s.jobs, 0, false, earlier);
    publish::lemma_published_from_frame(ready, s.jobs, 0, false, earlier);
    let t = publish::published_from(ready, s.jobs, 0, false, earlier).0;
    assert(entry_advances(ready, t, s.jobs, 0, key));
}

proof fn lemma_last_at_distinct(jobs: Seq<JobModel>, n: int, i: int)
    requires
        distinct_ids(jobs),
        0 <= i < n <= jobs.len(),
    ensures
        publish::last_at(jobs.take(n), jobs[i].id) == Some(i),
    decreases n,
{
    let head = jobs.take(n);
    assert(head.last() == jobs[n - 1]);
    if i < n - 1 {
        assert(jobs[n - 1].id != jobs[i].id);
        assert(head.drop_last() =~= jobs.take(n - 1));
        lemma_last_at_distinct(jobs, n - 1, i);
    }
}

proof fn lemma_nothing_new(s: StoreModel, jobs: Seq<JobModel>, i: int)
    requires
        distinct_ids(jobs),
        0 <= i <= jobs.len(),
    ensures
        publish::published_from(s, jobs, i, false, jobs) == (s, Ok::<(), ErrorModel>(())),
    decreases jobs.len() - i,
{
    if i < jobs.len() {
        lemma_last_at_distinct(jobs, jobs.len() as int, i);
        assert(jobs.take(jobs.len() as int) =~= jobs);
        lemma_nothing_new(s, jobs, i + 1);
    }
}

/// Publishing a second time, with the result as the earlier state, changes nothing.
pub proof fn law_publishing_is_done_once(
    s: StoreModel,
    previous: Option<StoreModel>,
    fresh_epoch: Seq<char>,
    again: Seq<char>,
)
    requires
        distinct_ids(s.jobs),
        fresh_epoch.len() > 0,
        publish::refreshed(s, previous, fresh_epoch).1 is Ok,
    ensures
        ({
            let t = publish::refreshed(s, previous, fresh_epoch).0;
            publish::refreshed(t, Some(t), again) == (t, Ok::<(), ErrorModel>(()))
        }),
{
    let ready = publish::readied(s, fresh_epoch);
    let legacy = !s.history.initialized;
    let earlier = publish::earlier_jobs(previous);
    publish::lemma_published_from_frame(ready, s.jobs, 0, legacy, earlier);
    lemma_scan_state(ready, s.jobs, 0, legacy, earlier);
    let t = publish::refreshed(s, previous, fresh_epoch).0;
    assert(publish::readied(t, again) =~= t);
    lemma_nothing_new(t, t.jobs, 0);
}

/// Publishing leaves the name of the sequence, and the state of its scans, alone.
proof fn lemma_scan_state(
    s: StoreModel,
    jobs: Seq<JobModel>,
    i: int,
    legacy: bool,
    earlier: Seq<JobModel>,
)
    ensures
        ({
            let t = publish::published_from(s, jobs, i, legacy, earlier).0;
            t.history.epoch == s.history.epoch && t.history.trust == s.history.trust
                && t.history.peers == s.history.peers
        }),
    decreases jobs.len() - i,
{
    if i < jobs.len() {
        if !legacy && !publish::job_changed(earlier, jobs[i]) {
            lemma_scan_state(s, jobs, i + 1, legacy, earlier);
        } else {
            let known = publish::last_at(earlier, jobs[i].id) is Some;
            let (mid, step) = publish::published_job(s, jobs[i], known);
            assert(mid.history.epoch == s.history.epoch && mid.history.trust == s.history.trust
                && mid.history.peers == s.history.peers) by {
                reveal(publish::published_job);
            }
            if step is Ok {
                lemma_scan_state(mid, jobs, i + 1, legacy, earlier);
            }
        }
    }
}

} // verus!
