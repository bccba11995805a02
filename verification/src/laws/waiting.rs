//! Commands on their way to another machine and back: where each goes, what a
//! failed attempt leaves, whose word counts, and what the one who waits is told.

use vstd::prelude::*;

use crate::error::{ErrorModel, Outcome};
use crate::job;
use crate::job::dispatch;
use crate::job::dispatch::{DispatchEventModel, DispatchPhase, DispatchRunModel};
use crate::history::wire;
use crate::local::owner;
use crate::local::owner::{ExecRouteModel, WaitStep};
use crate::request;
use crate::request::DeliveryModel;
use crate::search;
use crate::store::StoreModel;
use crate::table;
use crate::types::{JobModel, JobStatusModel, OutboundRequestModel};

verus! {

/// A finished job never changes for want of a connection, and a running one runs on.
/// Any other waits, for the machine or for a place; only a refusal of another kind
/// ends it, with that refusal as its reason.
pub proof fn law_failed_attempt(s: StoreModel, id: Seq<char>, error: ErrorModel, at: int)
    requires
        0 <= at < s.jobs.len(),
        s.jobs[at].id == id,
        forall|j: int| 0 <= j < at ==> (#[trigger] s.jobs[j]).id != id,
    ensures
        ({
            let next = job::dispatch_settled(s, id, error);
            let was = s.jobs[at].status;
            let over = was is Done || was is Denied || was is Failed || was is Uncertain;
            let now = next.jobs[at].status;
            &&& over ==> now == was
            &&& was is Running && (error is Unreachable || error is Capacity) ==> now == was
            &&& !over && !(was is Running) && error is Unreachable ==> now
                == JobStatusModel::WaitingBody
            &&& !over && !(was is Running) && error is Capacity ==> now
                == JobStatusModel::WaitingCapacity
            &&& !over && !(error is Unreachable) && !(error is Capacity) ==> now == (
            JobStatusModel::Failed { reason: error.message() })
            &&& next == (StoreModel {
                jobs: s.jobs.update(at, JobModel { status: now, ..s.jobs[at] }),
                ..s
            })
        }),
{
    search::lemma_first_at(s.jobs, job::job_with_id(id), at);
}

/// A machine's word about a job is taken where that machine runs the job, the job is
/// not over, and the word is about the same invocation; then it is the job from now
/// on. Anything else is refused or changes nothing.
pub proof fn law_word_of_the_runner(s: StoreModel, peer: Seq<char>, incoming: JobModel, at: int)
    requires
        0 <= at < s.jobs.len(),
        s.jobs[at].id == incoming.id,
        forall|j: int| 0 <= j < at ==> (#[trigger] s.jobs[j]).id != incoming.id,
    ensures
        ({
            let known = s.jobs[at];
            let over = known.status is Done || known.status is Denied || known.status is Failed
                || known.status is Uncertain;
            let same = incoming.body == known.body && incoming.from == known.from && incoming.argv
                == known.argv;
            let result: Outcome<Option<(JobModel, bool)>> = job::peer_result(s, peer, incoming);
            &&& known.body != peer || over ==> result == Ok::<Option<(JobModel, bool)>, ErrorModel>(
                None,
            )
            &&& known.body == peer && !over && same ==> result == Ok::<
                Option<(JobModel, bool)>,
                ErrorModel,
            >(Some((incoming, incoming != known)))
            &&& known.body == peer && !over && !same ==> result is Err
        }),
{
    search::lemma_first_at(s.jobs, job::job_with_id(incoming.id), at);
}

/// A delivery first asks. The job is sent only where the other machine does not know
/// it. Its answer becomes the job here; no answer, or a wrong one, leaves the job as
/// a failed attempt does.
pub proof fn law_delivery_steps(s: StoreModel, run: DispatchRunModel, incoming: JobModel, at: int)
    requires
        run.certificate is None,
        0 <= at < s.jobs.len(),
        s.jobs[at].id == run.id,
        incoming.id == run.id,
        forall|j: int| 0 <= j < at ==> (#[trigger] s.jobs[j]).id != run.id,
    ensures
        ({
            let known = s.jobs[at];
            let over = known.status is Done || known.status is Denied || known.status is Failed
                || known.status is Uncertain;
            let same = incoming.body == known.body && incoming.from == known.from && incoming.argv
                == known.argv;
            &&& run.phase == DispatchPhase::Asking ==> dispatch::dispatched(
                s,
                run,
                DispatchEventModel::Unknown,
            ) == (s, DispatchPhase::Sending)
            &&& known.body == run.body && !over && same ==> dispatch::dispatched(
                s,
                run,
                DispatchEventModel::Told(incoming),
            ) == (
                StoreModel { jobs: s.jobs.update(at, incoming), ..s },
                DispatchPhase::Settled,
            )
            &&& over ==> dispatch::dispatched(s, run, DispatchEventModel::Told(incoming)) == (
                s,
                DispatchPhase::Settled,
            )
            &&& known.body == run.body && !over && !same ==> dispatch::dispatched(
                s,
                run,
                DispatchEventModel::Told(incoming),
            ).0.jobs[at].status is Failed
            &&& forall|e: ErrorModel| #[trigger]
                dispatch::dispatched(s, run, DispatchEventModel::Failed(e)) == (
                    job::dispatch_settled(s, run.id, e),
                    DispatchPhase::Settled,
                )
        }),
{
    search::lemma_first_at(s.jobs, job::job_with_id(run.id), at);
    assert(s.jobs.update(at, s.jobs[at]) =~= s.jobs);
}

/// A delivery is begun for the job's own machine, at its address, under its keys.
pub proof fn law_delivery_goes_to_the_machine(s: StoreModel, sent: JobModel, at: int)
    requires
        0 <= at < s.peers.len(),
        s.peers[at].name == sent.body,
        forall|j: int| 0 <= j < at ==> (#[trigger] s.peers[j]).name != sent.body,
    ensures
        s.peers[at].addr is None ==> dispatch::dispatch_start(s, sent) == Err::<
            DispatchRunModel,
            ErrorModel,
        >(ErrorModel::Unreachable),
        s.peers[at].addr matches Some(addr) ==> {
            &&& dispatch::dispatch_start(s, sent) matches Ok(run)
            &&& run.id == sent.id
            &&& run.body == sent.body
            &&& run.route == (DeliveryModel {
                addr,
                owner_sk: s.owner_sk,
                owner_pk: s.peers[at].owner_pk,
            })
            &&& run.phase == DispatchPhase::Asking
        },
{
    search::lemma_first_at(s.peers, wire::peer_named(sent.body), at);
}

/// What has still to be delivered: exactly the jobs that this machine asked another
/// for and that are not over, in order. What has still to be started here: exactly
/// its own that wait.
pub proof fn law_what_is_pending(s: StoreModel, i: int)
    requires
        0 <= i < s.jobs.len(),
    ensures
        ({
            let j = s.jobs[i];
            let over = j.status is Done || j.status is Denied || j.status is Failed || j.status
                is Uncertain;
            &&& search::kept(s.jobs, job::awaiting(s.body_name)).contains(j) <==> j.from
                == s.body_name && j.body != s.body_name && !over
            &&& search::kept(s.jobs, job::queued_here(s.body_name)).contains(j) <==> j.from
                == s.body_name && j.body == s.body_name && (j.status is Queued || j.status
                is WaitingCapacity)
        }),
{
    let j = s.jobs[i];
    let away = job::awaiting(s.body_name);
    let here = job::queued_here(s.body_name);
    search::lemma_kept(s.jobs, away);
    search::lemma_kept(s.jobs, here);
    assert(away(s.jobs[i]) ==> search::kept(s.jobs, away).contains(j));
    assert(here(s.jobs[i]) ==> search::kept(s.jobs, here).contains(j));
    if search::kept(s.jobs, away).contains(j) {
        let k = choose|k: int|
            0 <= k < search::kept(s.jobs, away).len() && search::kept(s.jobs, away)[k] == j;
        assert(away(search::kept(s.jobs, away)[k]));
    }
    if search::kept(s.jobs, here).contains(j) {
        let k = choose|k: int|
            0 <= k < search::kept(s.jobs, here).len() && search::kept(s.jobs, here)[k] == j;
        assert(here(search::kept(s.jobs, here)[k]));
    }
}

/// A request is delivered until someone refused it.
pub proof fn law_which_requests_are_pending(s: StoreModel, i: int)
    requires
        0 <= i < s.outbound_requests.len(),
    ensures
        search::kept(s.outbound_requests, job::undisputed()).contains(s.outbound_requests[i])
            <==> s.outbound_requests[i].error is None,
{
    let rows = search::kept(s.outbound_requests, job::undisputed());
    search::lemma_kept(s.outbound_requests, job::undisputed());
    if job::undisputed()(s.outbound_requests[i]) {
        assert(rows.contains(s.outbound_requests[i]));
    }
    if rows.contains(s.outbound_requests[i]) {
        let k = choose|k: int| 0 <= k < rows.len() && rows[k] == s.outbound_requests[i];
        assert(job::undisputed()(rows[k]));
    }
}

/// A delivered request leaves the list; one that found nobody is marked as waiting,
/// once; a refused one keeps the refusal. No other row changes.
pub proof fn law_request_delivery_ends(s: StoreModel, id: Seq<char>, result: Outcome<()>, at: int)
    requires
        0 <= at < s.outbound_requests.len(),
        s.outbound_requests[at].id == id,
        forall|j: int| 0 <= j < at ==> (#[trigger] s.outbound_requests[j]).id != id,
    ensures
        ({
            let row = s.outbound_requests[at];
            let next = request::delivery_settled(s, id, result);
            &&& result is Ok ==> next == Some(
                StoreModel { outbound_requests: s.outbound_requests.remove(at), ..s },
            )
            &&& result matches Err(e) ==> {
                &&& e is Unreachable && row.waiting ==> next is None
                &&& e is Unreachable && !row.waiting ==> next == Some(
                    StoreModel {
                        outbound_requests: s.outbound_requests.update(
                            at,
                            OutboundRequestModel { waiting: true, ..row },
                        ),
                        ..s
                    },
                )
                &&& !(e is Unreachable) ==> next == Some(
                    StoreModel {
                        outbound_requests: s.outbound_requests.update(
                            at,
                            OutboundRequestModel { error: Some(e.message()), ..row },
                        ),
                        ..s
                    },
                )
            }
        }),
{
    search::lemma_first_at(s.outbound_requests, request::outbound_with_id(id), at);
}

/// A command runs on the machine that it names, here or there, and nowhere else: a
/// name that is neither this machine nor a reachable peer runs nothing.
pub proof fn law_command_goes_where_it_says(s: StoreModel, body: Seq<char>, argv: Seq<Seq<char>>)
    requires
        argv.len() > 0,
    ensures
        ({
            let route: Outcome<ExecRouteModel> = owner::exec_route_outcome(s, Some(body), argv);
            let unknown = forall|p: int|
                0 <= p < s.peers.len() ==> (#[trigger] s.peers[p]).name != body;
            &&& body == s.body_name ==> route == Ok::<ExecRouteModel, ErrorModel>(
                ExecRouteModel::Here,
            )
            &&& route == Ok::<ExecRouteModel, ErrorModel>(ExecRouteModel::Here) ==> body
                == s.body_name
            &&& route matches Ok(ExecRouteModel::There(to)) ==> to == body && !unknown
            &&& body != s.body_name && unknown ==> route == Ok::<ExecRouteModel, ErrorModel>(
                ExecRouteModel::Denied(body + " is not this body"@),
            )
            &&& forall|p: int|
                0 <= p < s.peers.len() && (#[trigger] s.peers[p]).name == body && (forall|q: int|
                    0 <= q < p ==> (#[trigger] s.peers[q]).name != body) && body != s.body_name ==> (
                route == Ok::<ExecRouteModel, ErrorModel>(
                    if s.peers[p].addr is Some {
                        ExecRouteModel::There(body)
                    } else {
                        ExecRouteModel::Denied(body + " is not this body"@)
                    },
                ))
        }),
{
    let test = wire::peer_named(body);
    search::lemma_first(s.peers, test);
    assert forall|p: int|
        0 <= p < s.peers.len() && (#[trigger] s.peers[p]).name == body && (forall|q: int|
            0 <= q < p ==> (#[trigger] s.peers[q]).name != body) && body != s.body_name implies (
    owner::exec_route_outcome(s, Some(body), argv) == Ok::<ExecRouteModel, ErrorModel>(
        if s.peers[p].addr is Some {
            ExecRouteModel::There(body)
        } else {
            ExecRouteModel::Denied(body + " is not this body"@)
        },
    )) by {
        search::lemma_first_at(s.peers, test, p);
    }
}

/// A request for a tool goes to the peer it names at its address, or stays here where
/// it names this machine or none.
pub proof fn law_request_goes_where_it_says(
    s: StoreModel,
    body: Seq<char>,
    tool: Seq<char>,
    at: int,
)
    requires
        tool.len() > 0,
    ensures
        body.len() == 0 || body == s.body_name ==> owner::request_route_outcome(s, body, Some(tool))
            == Ok::<Option<DeliveryModel>, ErrorModel>(None),
        body.len() > 0 && body != s.body_name && 0 <= at < s.peers.len() && s.peers[at].name == body
            && (forall|j: int| 0 <= j < at ==> (#[trigger] s.peers[j]).name != body) ==> (
        s.peers[at].addr matches Some(addr) ==> owner::request_route_outcome(s, body, Some(tool))
            == Ok::<Option<DeliveryModel>, ErrorModel>(
            Some(DeliveryModel { addr, owner_sk: s.owner_sk, owner_pk: s.peers[at].owner_pk }),
        )),
        body.len() > 0 && body != s.body_name && (forall|j: int|
            0 <= j < s.peers.len() ==> (#[trigger] s.peers[j]).name != body)
            ==> owner::request_route_outcome(s, body, Some(tool)) is Err,
{
    let test = wire::peer_named(body);
    search::lemma_first(s.peers, test);
    if 0 <= at < s.peers.len() && s.peers[at].name == body && (forall|j: int|
        0 <= j < at ==> (#[trigger] s.peers[j]).name != body) {
        search::lemma_first_at(s.peers, test, at);
    }
}

/// One who waits for a command is answered when it is over, told once that it waits,
/// and otherwise kept waiting.
pub proof fn law_who_waits_is_told(status: JobStatusModel, told: bool)
    ensures
        ({
            let over = status is Done || status is Denied || status is Failed || status
                is Uncertain;
            let held = status is WaitingBody || status is WaitingCapacity;
            let step = owner::wait_answer(status, told);
            &&& step == WaitStep::Answer <==> over
            &&& step == WaitStep::Tell <==> held && !told
            &&& step == WaitStep::Wait <==> !over && !(held && !told)
        }),
{
}

/// The reply about a job: its exit code where it is done, its reason where it was
/// refused or failed or nobody knows, and that it waits where it does. The job itself,
/// with its output, comes along.
pub proof fn law_reply_tells_the_outcome(answered: JobModel)
    ensures
        ({
            let reply = job::exec_reply(answered);
            &&& reply.job == answered
            &&& answered.status matches JobStatusModel::Done { exit } ==> reply.status == "done"@
                && reply.exit == Some(exit)
            &&& !(answered.status is Done) ==> reply.exit is None
            &&& answered.status matches JobStatusModel::Denied { reason } ==> reply.status
                == "denied"@ && reply.reason == Some(reason)
            &&& answered.status matches JobStatusModel::Failed { reason } ==> reply.status
                == "failed"@ && reply.reason == Some(reason)
            &&& answered.status matches JobStatusModel::Uncertain { reason } ==> reply.status
                == "uncertain"@ && reply.reason == Some(reason)
            &&& answered.status is WaitingBody || answered.status is WaitingCapacity
                ==> reply.status == "waiting"@ && reply.waiting is Some
            &&& answered.status is WaitingBody ==> reply.waiting == Some(
                answered.body + " is asleep, waiting…"@,
            )
            &&& answered.status is WaitingCapacity ==> reply.waiting == Some(
                answered.body + " is busy, waiting for capacity…"@,
            )
            &&& !(answered.status is WaitingBody || answered.status is WaitingCapacity)
                ==> reply.waiting is None
            &&& answered.status is Running ==> reply.status == "running"@ && reply.reason is None
            &&& answered.status is Queued ==> reply.status == "queued"@ && reply.reason is None
        }),
{
}

/// Trying again is a new job under a new ID, for the same machine with the same
/// arguments, that says which one it repeats. The first stays as it is. Only the
/// machine that asked can try again.
pub proof fn law_retry_is_a_new_job(s: StoreModel, id: Seq<char>, fresh_id: Seq<char>, at: int)
    requires
        table::ascending(s.retry_links),
        0 <= at < s.jobs.len(),
        s.jobs[at].id == id,
        forall|j: int| 0 <= j < at ==> (#[trigger] s.jobs[j]).id != id,
        forall|j: int| 0 <= j < s.jobs.len() ==> (#[trigger] s.jobs[j]).id != fresh_id,
    ensures
        ({
            let (next, result) = owner::retried(s, id, fresh_id);
            &&& s.jobs[at].from != s.body_name ==> result is Err && next == s
            &&& s.jobs[at].from == s.body_name ==> {
                &&& result is Ok
                &&& result->Ok_0.id == fresh_id
                &&& result->Ok_0.body == s.jobs[at].body
                &&& result->Ok_0.argv == s.jobs[at].argv
                &&& result->Ok_0.from == s.body_name
                &&& result->Ok_0.status == JobStatusModel::Queued
                &&& result->Ok_0.stdout.len() == 0 && result->Ok_0.stderr.len() == 0
                &&& next.jobs == s.jobs.push(result->Ok_0)
                &&& table::lookup(next.retry_links, fresh_id) == Some(id)
                &&& forall|other: Seq<char>|
                    other != fresh_id ==> #[trigger] table::lookup(next.retry_links, other)
                        == table::lookup(s.retry_links, other)
                &&& next.grants == s.grants
            }
        }),
{
    search::lemma_first_at(s.jobs, job::job_with_id(id), at);
    search::lemma_first_none(s.jobs, job::job_with_id(fresh_id));
    assert forall|other: Seq<char>| other != fresh_id implies #[trigger] table::lookup(
        table::stored(s.retry_links, fresh_id, id),
        other,
    ) == table::lookup(s.retry_links, other) by {
        table::lemma_stored_lookup(s.retry_links, fresh_id, id, other);
    }
    table::lemma_stored_lookup(s.retry_links, fresh_id, id, fresh_id);
}

/// A job that is asked for keeps its machine, arguments and ID, comes from here and
/// has neither run nor written anything.
pub proof fn law_queued_job_is_as_asked(
    s: StoreModel,
    body: Seq<char>,
    argv: Seq<Seq<char>>,
    id: Seq<char>,
)
    ensures
        ({
            let queued = owner::queued_job(s, body, argv, id);
            &&& queued.id == id && queued.body == body && queued.argv == argv && queued.from
                == s.body_name
            &&& queued.status == JobStatusModel::Queued
            &&& queued.stdout.len() == 0 && queued.stderr.len() == 0
        }),
{
}

} // verus!
