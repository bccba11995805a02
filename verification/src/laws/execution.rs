//! Running tools: never without a grant, never twice for one invocation, and a
//! single-use grant serves one run at a time.

use vstd::prelude::*;

use crate::error::ErrorModel;
use crate::exec;
use crate::exec::{RunOutcomeModel, SubmissionModel};
use crate::grant;
use crate::history::{CertificateModel, PublishedModel};
use crate::history::merge;
use crate::history::wire;
use crate::job;
use crate::schedule;
use crate::search;
use crate::store;
use crate::store::StoreModel;
use crate::table;
use crate::types::{GrantModel, JobModel, JobStatusModel, LocalTimeModel};

verus! {

/// A job that was put in is found under its ID.
pub proof fn lemma_put_job_found(jobs: Seq<JobModel>, job: JobModel)
    ensures
        search::found(store::with_job(jobs, job), job::job_with_id(job.id)) == Some(job),
{
    let test = job::job_with_id(job.id);
    let next = store::with_job(jobs, job);
    search::lemma_first(jobs, test);
    match search::first(jobs, test) {
        Some(at) => {
            assert forall|j: int| 0 <= j < at implies !test(#[trigger] next[j]) by {
                assert(next[j] == jobs[j]);
            }
            search::lemma_first_at(next, test, at);
        },
        None => {
            assert forall|j: int| 0 <= j < jobs.len() implies !test(#[trigger] next[j]) by {
                assert(next[j] == jobs[j]);
            }
            search::lemma_first_at(next, test, jobs.len() as int);
        },
    }
}

/// The job that a submission answers with.
pub open spec fn answered_job(submission: SubmissionModel) -> JobModel {
    match submission {
        SubmissionModel::Known(job) => job,
        SubmissionModel::Denied(job) => job,
        SubmissionModel::Run(job, _) => job,
    }
}

/// Delivering an invocation again gives back the job that it already has, and
/// changes nothing: no second run, no second request, no second reservation.
pub proof fn law_redelivery_never_reruns(
    s: StoreModel,
    free: bool,
    from: Seq<char>,
    argv: Seq<Seq<char>>,
    id: Seq<char>,
    certificate: Option<CertificateModel>,
    now: LocalTimeModel,
    fresh_id: Seq<char>,
    later_free: bool,
    later: LocalTimeModel,
    later_id: Seq<char>,
)
    requires
        table::ascending(s.job_certificates),
        certificate matches Some(c) ==> c.invocation.id == id,
        exec::submitted(s, free, from, argv, id, certificate, now, fresh_id).1 is Ok,
    ensures
        exec::submitted(
            exec::submitted(s, free, from, argv, id, certificate, now, fresh_id).0,
            later_free,
            from,
            argv,
            id,
            certificate,
            later,
            later_id,
        ) == (
            exec::submitted(s, free, from, argv, id, certificate, now, fresh_id).0,
            Ok::<SubmissionModel, ErrorModel>(
                SubmissionModel::Known(
                    answered_job(
                        exec::submitted(s, free, from, argv, id, certificate, now, fresh_id).1->Ok_0,
                    ),
                ),
            ),
        ),
{
    let (next, result) = exec::submitted(s, free, from, argv, id, certificate, now, fresh_id);
    let job = answered_job(result->Ok_0);
    if result->Ok_0 is Known {
        assert(next == s);
    } else {
        let bound = match certificate {
            Some(c) => crate::history::merge::admitted(s, c).0,
            None => s,
        };
        assert(job.id == id && job.from == from && job.argv == argv && job.body == s.body_name);
        assert(next.jobs == store::with_job(s.jobs, job));
        lemma_put_job_found(s.jobs, job);
        assert(next.body_name == s.body_name && next.peers == s.peers && next.owner_sk
            == s.owner_sk);
        if let Some(c) = certificate {
            assert(next.job_certificates == bound.job_certificates);
            table::lemma_stored_lookup(
                s.job_certificates,
                id,
                crate::history::wire::invocation_key(c),
                id,
            );
            assert(wire::validate_invocation_outcome(next, c) == wire::validate_invocation_outcome(s, c));
        }
    }
}

/// Nothing granted means nothing runs: a run starts only under a grant that the
/// owner of this machine gave, for that tool and those arguments, to the machine
/// that asks, while it has not ended and is not in use by another run.
pub proof fn law_run_needs_grant(
    s: StoreModel,
    free: bool,
    from: Seq<char>,
    argv: Seq<Seq<char>>,
    id: Seq<char>,
    certificate: Option<CertificateModel>,
    now: LocalTimeModel,
    fresh_id: Seq<char>,
)
    ensures
        exec::submitted(s, free, from, argv, id, certificate, now, fresh_id).1 matches Ok(
            SubmissionModel::Run(job, grant),
        ) ==> {
            &&& s.grants.contains(grant)
            &&& grant.tool == argv[0]
            &&& grant::permits_args(grant, argv)
            &&& grant.reservation is None
            &&& grant.allow_from is None || grant.allow_from->0.contains(from)
            &&& grant.until is None || !schedule::earlier(grant.until->0, now.instant)
            &&& grant.schedule is None || grant.schedule->0.open_at(now)
            &&& job == exec::new_job(s, from, argv, id, JobStatusModel::Running)
        },
{
    search::lemma_first(s.grants, grant::grant_of_tool(argv[0]));
}

/// While a run holds a single-use grant, no other run starts under it.
pub proof fn law_reserved_grant_admits_no_other(
    s: StoreModel,
    free: bool,
    from: Seq<char>,
    argv: Seq<Seq<char>>,
    id: Seq<char>,
    now: LocalTimeModel,
    fresh_id: Seq<char>,
    later_argv: Seq<Seq<char>>,
    later_from: Seq<char>,
    later: LocalTimeModel,
)
    requires
        exec::accepted(s, free, from, argv, id, now, fresh_id).1 matches Ok(
            SubmissionModel::Run(_, grant),
        ) && grant.once,
        later_argv[0] == argv[0],
    ensures
        grant::check_args_outcome(
            exec::accepted(s, free, from, argv, id, now, fresh_id).0,
            later_argv,
            later_from,
            later,
        ) == Err::<GrantModel, ErrorModel>(ErrorModel::GrantBusy { tool: argv[0] }),
{
    let test = grant::grant_of_tool(argv[0]);
    search::lemma_first(s.grants, test);
    let at = search::first(s.grants, test)->0;
    let next = exec::accepted(s, free, from, argv, id, now, fresh_id).0;
    assert forall|j: int| 0 <= j < at implies !test(#[trigger] next.grants[j]) by {
        assert(next.grants[j] == s.grants[j]);
    }
    search::lemma_first_at(next.grants, test, at);
}

/// A run that held a single-use grant uses it up by succeeding, gives it back by
/// failing, and keeps it where its outcome is unknown. Other grants stay as they are.
pub proof fn law_once_is_one_success(
    s: StoreModel,
    grant: GrantModel,
    run: JobModel,
    end: RunOutcomeModel,
    at: int,
)
    requires
        grant.once,
        search::first(s.jobs, job::job_with_id(run.id)) is Some,
        search::first(s.grants, exec::held_for(grant.tool, run.id)) == Some(at),
    ensures
        exec::finished(s, grant, run, end).1 is Ok,
        exec::succeeded(end) == Some(true) ==> exec::finished(s, grant, run, end).0.grants == s.grants.remove(at),
        exec::succeeded(end) == Some(false) ==> exec::finished(s, grant, run, end).0.grants == s.grants.update(
            at,
            GrantModel { reservation: None, ..s.grants[at] },
        ),
        exec::succeeded(end) is None ==> exec::finished(s, grant, run, end).0.grants == s.grants,
{
}

/// A run that holds no reservation, because a newer decision replaced its grant,
/// leaves every grant alone.
pub proof fn law_old_run_keeps_new_grant(
    s: StoreModel,
    grant: GrantModel,
    run: JobModel,
    end: RunOutcomeModel,
)
    requires
        forall|i: int|
            0 <= i < s.grants.len() ==> (#[trigger] s.grants[i]).reservation != Some(run.id),
    ensures
        exec::finished(s, grant, run, end).0.grants == s.grants,
{
    search::lemma_first(s.grants, exec::held_for(grant.tool, run.id));
}

/// An outcome is final: no answer of a runner, no word of a peer and no failed
/// delivery changes a job that has finished.
pub proof fn law_outcome_is_final(
    s: StoreModel,
    at: int,
    peer: Seq<char>,
    published: PublishedModel,
    incoming: JobModel,
    id: Seq<char>,
    error: ErrorModel,
)
    requires
        0 <= at < s.jobs.len(),
        job::terminal(s.jobs[at].status),
        search::first(s.jobs, job::job_with_id(s.jobs[at].id)) == Some(at),
    ensures
        merge::answered(s, peer, published).0.jobs[at] == s.jobs[at],
        job::dispatch_settled(s, id, error).jobs[at] == s.jobs[at],
        incoming.id == s.jobs[at].id ==> job::peer_result(s, peer, incoming) == Ok::<
            Option<(JobModel, bool)>,
            ErrorModel,
        >(None),
{
    search::lemma_first(s.jobs, job::job_with_id(published.record.certificate.invocation.id));
    search::lemma_first(s.jobs, job::job_with_id(id));
}

} // verus!
