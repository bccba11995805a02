//! Jobs: what their states mean, how they read, and how they are delivered.

pub mod dispatch;

use vstd::prelude::*;
use vstd::string::*;

use crate::data::Data;
use crate::error;
use crate::error::{protocol, ClixError, ErrorModel, Outcome, Result};
use crate::request;
use crate::search;
use crate::store;
use crate::store::{Store, StoreModel};
use crate::table;
use crate::table::Table;
use crate::text;
use crate::text::{cat2, hex_text, owned, signed_text, text_same};
use crate::types::{
    BodyId, Job, JobModel, JobStatus, JobStatusModel, OutboundRequest, OutboundRequestModel,
};

verus! {

/// A state that nothing follows.
pub open spec fn terminal(status: JobStatusModel) -> bool {
    status is Done || status is Denied || status is Failed || status is Uncertain
}

pub fn is_terminal(status: &JobStatus) -> (yes: bool)
    ensures
        yes == terminal(status@),
{
    match status {
        JobStatus::Done { .. } => true,
        JobStatus::Denied { .. } => true,
        JobStatus::Failed { .. } => true,
        JobStatus::Uncertain { .. } => true,
        _ => false,
    }
}

pub fn is_unreachable(err: &ClixError) -> (yes: bool)
    ensures
        yes == (err@ == ErrorModel::Unreachable),
{
    match err {
        ClixError::Unreachable => true,
        _ => false,
    }
}

pub fn asleep_message(body: &str) -> (text: String)
    ensures
        text@ == body@ + " is asleep, waiting…"@,
{
    cat2(body, " is asleep, waiting…")
}

/// Texts separated by single spaces.
pub open spec fn spaced(words: Seq<Seq<char>>) -> Seq<char>
    decreases words.len(),
{
    if words.len() == 0 {
        ""@
    } else if words.len() == 1 {
        words[0]
    } else {
        spaced(words.drop_last()) + " "@ + words.last()
    }
}

pub fn join_words(words: &Vec<String>) -> (text: String)
    ensures
        text@ == spaced(words.deep_view()),
{
    let ghost all = words.deep_view();
    let mut text = owned("");
    let mut i: usize = 0;
    proof {
        reveal_strlit("");
        assert(all.take(0) =~= Seq::<Seq<char>>::empty());
    }
    while i < words.len()
        invariant
            i <= words.len(),
            all == words.deep_view(),
            text@ == spaced(all.take(i as int)),
        decreases words.len() - i,
    {
        if i > 0 {
            text.append(" ");
        }
        text.append(words[i].as_str());
        proof {
            reveal_strlit("");
            assert(all.take(i + 1).drop_last() =~= all.take(i as int));
            assert(all[i as int] == words@[i as int]@);
            assert(text@ =~= spaced(all.take(i + 1)));
        }
        i += 1;
    }
    assert(all.take(i as int) =~= all);
    text
}

pub open spec fn status_words(status: JobStatusModel) -> Seq<char> {
    match status {
        JobStatusModel::Done { exit } => "exit "@ + text::signed_decimal(exit as int),
        JobStatusModel::Denied { reason } => "denied: "@ + reason,
        JobStatusModel::Failed { reason } => "failed: "@ + reason,
        JobStatusModel::Uncertain { reason } => "uncertain: "@ + reason,
        JobStatusModel::WaitingBody => "waiting"@,
        JobStatusModel::WaitingCapacity => "waiting for capacity"@,
        JobStatusModel::Running => "running"@,
        JobStatusModel::Queued => "queued"@,
    }
}

/// One line of the log.
pub fn format_line(job: &Job) -> (line: String)
    ensures
        line@ == job@.from + " "@ + spaced(job@.argv) + " on "@ + job@.body + "  "@
            + status_words(job@.status),
{
    let tail = match &job.status {
        JobStatus::Done { exit } => cat2("exit ", signed_text(*exit).as_str()),
        JobStatus::Denied { reason } => cat2("denied: ", reason),
        JobStatus::Failed { reason } => cat2("failed: ", reason),
        JobStatus::Uncertain { reason } => cat2("uncertain: ", reason),
        JobStatus::WaitingBody => owned("waiting"),
        JobStatus::WaitingCapacity => owned("waiting for capacity"),
        JobStatus::Running => owned("running"),
        JobStatus::Queued => owned("queued"),
    };
    let mut line = owned(&job.from.0);
    line.append(" ");
    line.append(join_words(&job.argv).as_str());
    line.append(" on ");
    line.append(&job.body.0);
    line.append("  ");
    line.append(tail.as_str());
    line
}

/// Jobs with that ID.
pub open spec fn job_with_id(id: Seq<char>) -> spec_fn(JobModel) -> bool {
    |j: JobModel| j.id == id
}

pub fn find_job(jobs: &Vec<Job>, id: &str) -> (at: Option<usize>)
    ensures
        (match at {
            Some(i) => i < jobs.len() && search::first(jobs.deep_view(), job_with_id(id@)) == Some(
                i as int,
            ),
            None => search::first(jobs.deep_view(), job_with_id(id@)) is None,
        }),
{
    let ghost view = jobs.deep_view();
    let mut i: usize = 0;
    while i < jobs.len()
        invariant
            i <= jobs.len(),
            view == jobs.deep_view(),
            forall|j: int| 0 <= j < i ==> !job_with_id(id@)(#[trigger] view[j]),
        decreases jobs.len() - i,
    {
        assert(view[i as int] == jobs@[i as int]@);
        if text_same(&jobs[i].id, id) {
            proof {
                search::lemma_first_at(view, job_with_id(id@), i as int);
            }
            return Some(i);
        }
        i += 1;
    }
    proof {
        search::lemma_first_none(view, job_with_id(id@));
    }
    None
}

/// Sixteen random bytes with the version and variant of a UUID.
pub open spec fn uuid_bytes(random: Seq<u8>) -> Seq<u8> {
    random.update(6, (random[6] % 16 + 64) as u8).update(8, (random[8] % 64 + 128) as u8)
}

pub open spec fn uuid_text(random: Seq<u8>) -> Seq<char> {
    let b = uuid_bytes(random);
    text::hex(b.subrange(0, 4)) + "-"@ + text::hex(b.subrange(4, 6)) + "-"@ + text::hex(
        b.subrange(6, 8),
    ) + "-"@ + text::hex(b.subrange(8, 10)) + "-"@ + text::hex(b.subrange(10, 16))
}

fn hex_range(bytes: &[u8; 16], from: usize, to: usize) -> (digits: String)
    requires
        from <= to <= 16,
    ensures
        digits@ == text::hex(bytes@.subrange(from as int, to as int)),
{
    let mut part: Vec<u8> = Vec::new();
    let mut i: usize = from;
    while i < to
        invariant
            from <= i <= to <= 16,
            part@ == bytes@.subrange(from as int, i as int),
        decreases to - i,
    {
        part.push(bytes[i]);
        i += 1;
        assert(part@ =~= bytes@.subrange(from as int, i as int));
    }
    hex_text(&part)
}

/// A UUID v4 from sixteen random bytes.
pub fn new_id(random: [u8; 16]) -> (id: String)
    ensures
        id@ == uuid_text(random@),
{
    let mut b = random;
    let six: u8 = random[6];
    let eight: u8 = random[8];
    assert((six & 0x0f) | 0x40 == six % 16 + 64) by (bit_vector);
    assert((eight & 0x3f) | 0x80 == eight % 64 + 128) by (bit_vector);
    b[6] = (six & 0x0f) | 0x40;
    b[8] = (eight & 0x3f) | 0x80;
    assert(b@ =~= uuid_bytes(random@));
    let mut id = hex_range(&b, 0, 4);
    id.append("-");
    id.append(hex_range(&b, 4, 6).as_str());
    id.append("-");
    id.append(hex_range(&b, 6, 8).as_str());
    id.append("-");
    id.append(hex_range(&b, 8, 10).as_str());
    id.append("-");
    id.append(hex_range(&b, 10, 16).as_str());
    id
}

/// What a client is told about a job.
#[derive(Debug, Clone, PartialEq, Eq)]
pub struct ExecReply {
    pub status: String,
    pub exit: Option<i32>,
    pub reason: Option<String>,
    pub waiting: Option<String>,
    pub job: Job,
}

#[verifier::ext_equal]
pub struct ExecReplyModel {
    pub status: Seq<char>,
    pub exit: Option<i32>,
    pub reason: Option<Seq<char>>,
    pub waiting: Option<Seq<char>>,
    pub job: JobModel,
}

impl View for ExecReply {
    type V = ExecReplyModel;

    open spec fn view(&self) -> ExecReplyModel {
        ExecReplyModel {
            status: self.status@,
            exit: self.exit,
            reason: self.reason.deep_view(),
            waiting: self.waiting.deep_view(),
            job: self.job@,
        }
    }
}

impl DeepView for ExecReply {
    type V = ExecReplyModel;

    open spec fn deep_view(&self) -> ExecReplyModel {
        self@
    }
}

pub open spec fn plain_reply(status: Seq<char>, job: JobModel) -> ExecReplyModel {
    ExecReplyModel { status, exit: None, reason: None, waiting: None, job }
}

pub open spec fn exec_reply(job: JobModel) -> ExecReplyModel {
    match job.status {
        JobStatusModel::Done { exit } => ExecReplyModel {
            exit: Some(exit),
            ..plain_reply("done"@, job)
        },
        JobStatusModel::Denied { reason } => ExecReplyModel {
            reason: Some(reason),
            ..plain_reply("denied"@, job)
        },
        JobStatusModel::Failed { reason } => ExecReplyModel {
            reason: Some(reason),
            ..plain_reply("failed"@, job)
        },
        JobStatusModel::Uncertain { reason } => ExecReplyModel {
            reason: Some(reason),
            ..plain_reply("uncertain"@, job)
        },
        JobStatusModel::WaitingBody => ExecReplyModel {
            waiting: Some(job.body + " is asleep, waiting…"@),
            ..plain_reply("waiting"@, job)
        },
        JobStatusModel::WaitingCapacity => ExecReplyModel {
            waiting: Some(job.body + " is busy, waiting for capacity…"@),
            ..plain_reply("waiting"@, job)
        },
        JobStatusModel::Running => plain_reply("running"@, job),
        JobStatusModel::Queued => plain_reply("queued"@, job),
    }
}

fn reply(status: &str, job: &Job) -> (reply: ExecReply)
    ensures
        reply@ == plain_reply(status@, job@),
{
    ExecReply { status: owned(status), exit: None, reason: None, waiting: None, job: job.dup() }
}

/// The reply for a job that waits for another machine.
pub fn waiting_json(body: &str, job: &Job) -> (told: ExecReply)
    ensures
        told@ == (ExecReplyModel {
            waiting: Some(body@ + " is asleep, waiting…"@),
            ..plain_reply("waiting"@, job@)
        }),
{
    let mut told = reply("waiting", job);
    told.waiting = Some(asleep_message(body));
    told
}

pub fn exec_json(job: &Job) -> (told: ExecReply)
    ensures
        told@ == exec_reply(job@),
{
    match &job.status {
        JobStatus::Done { exit } => {
            let mut told = reply("done", job);
            told.exit = Some(*exit);
            told
        },
        JobStatus::Denied { reason } => {
            let mut told = reply("denied", job);
            told.reason = Some(reason.dup());
            told
        },
        JobStatus::Failed { reason } => {
            let mut told = reply("failed", job);
            told.reason = Some(reason.dup());
            told
        },
        JobStatus::Uncertain { reason } => {
            let mut told = reply("uncertain", job);
            told.reason = Some(reason.dup());
            told
        },
        JobStatus::WaitingBody => waiting_json(&job.body.0, job),
        JobStatus::WaitingCapacity => {
            let mut told = reply("waiting", job);
            told.waiting = Some(cat2(&job.body.0, " is busy, waiting for capacity…"));
            told
        },
        JobStatus::Running => reply("running", job),
        JobStatus::Queued => reply("queued", job),
    }
}

/// What a peer's word about a job changes. A finished job, or one that is not
/// the peer's, stays as it is; the flag tells whether there is news to save.
pub open spec fn peer_result(s: StoreModel, peer: Seq<char>, incoming: JobModel) -> Outcome<
    Option<(JobModel, bool)>,
> {
    match search::found(s.jobs, job_with_id(incoming.id)) {
        None => Ok(None),
        Some(existing) => if existing.body != peer || terminal(existing.status) {
            Ok(None)
        } else if incoming.body != peer || incoming.from != existing.from || incoming.argv
            != existing.argv {
            Err(ErrorModel::Protocol("peer returned a different job invocation"@))
        } else {
            Ok(Some((incoming, incoming != existing)))
        },
    }
}

/// Take in a peer's word about a job it runs for this machine.
pub fn apply_peer_result(store: &mut Store, peer: &BodyId, incoming: &Job) -> (result: Result<
    Option<(Job, bool)>,
>)
    ensures
        error::outcome(result) == peer_result(old(store)@, peer@, incoming@),
        final(store)@ == match error::outcome(result) {
            Ok(Some((job, true))) => StoreModel { jobs: store::with_job(old(store)@.jobs, job), ..old(
                store,
            )@ },
            _ => old(store)@,
        },
{
    let at: usize = match find_job(&store.jobs, &incoming.id) {
        Some(at) => at,
        None => return Ok(None),
    };
    assert(store@.jobs[at as int] == store.jobs@[at as int]@);
    let existing = &store.jobs[at];
    if !existing.body.same(peer) || is_terminal(&existing.status) {
        return Ok(None);
    }
    if !incoming.body.same(peer) || !incoming.from.same(&existing.from) || !incoming.argv.same(
        &existing.argv,
    ) {
        return Err(protocol("peer returned a different job invocation"));
    }
    if incoming.same(existing) {
        return Ok(Some((incoming.dup(), false)));
    }
    store.put_job(incoming.dup());
    Ok(Some((incoming.dup(), true)))
}

/// The job in a peer's answer to an execution request.
pub fn received_job(job: Option<Job>) -> (result: Result<Job>)
    ensures
        error::outcome(result) == match job.deep_view() {
            Some(job) => Ok::<JobModel, ErrorModel>(job),
            None => Err::<JobModel, ErrorModel>(
                ErrorModel::Protocol("peer response is missing its job"@),
            ),
        },
{
    match job {
        Some(job) => Ok(job),
        None => Err(protocol("peer response is missing its job")),
    }
}

/// Where a failed delivery attempt leaves a job. Loss of connectivity is not
/// evidence that a running job stopped, and work past a limit waits.
pub open spec fn undelivered(status: JobStatusModel, error: ErrorModel) -> JobStatusModel {
    if terminal(status) {
        status
    } else if error is Unreachable || error is Capacity {
        if status is Running {
            status
        } else if error is Unreachable {
            JobStatusModel::WaitingBody
        } else {
            JobStatusModel::WaitingCapacity
        }
    } else {
        JobStatusModel::Failed { reason: error.message() }
    }
}

pub open spec fn dispatch_settled(s: StoreModel, id: Seq<char>, error: ErrorModel) -> StoreModel {
    match search::first(s.jobs, job_with_id(id)) {
        None => s,
        Some(at) => StoreModel {
            jobs: s.jobs.update(
                at,
                JobModel { status: undelivered(s.jobs[at].status, error), ..s.jobs[at] },
            ),
            ..s
        },
    }
}

/// Apply a failed delivery attempt. False means that there is nothing to save.
pub fn settle_dispatch(store: &mut Store, id: &str, error: &ClixError) -> (changed: bool)
    ensures
        final(store)@ == dispatch_settled(old(store)@, id@, error@),
        changed == (final(store)@ != old(store)@),
{
    let ghost start = store@;
    let at: usize = match find_job(&store.jobs, id) {
        Some(at) => at,
        None => return false,
    };
    assert(start.jobs[at as int] == store.jobs@[at as int]@);
    let running: bool = match &store.jobs[at].status {
        JobStatus::Running => true,
        _ => false,
    };
    let unreachable = is_unreachable(error);
    let busy: bool = match error {
        ClixError::Capacity(_) => true,
        _ => false,
    };
    if is_terminal(&store.jobs[at].status) || ((unreachable || busy) && running) {
        assert(start.jobs.update(at as int, start.jobs[at as int]) =~= start.jobs);
        return false;
    }
    let mut job = store.jobs[at].dup();
    job.status = if unreachable {
        JobStatus::WaitingBody
    } else if busy {
        JobStatus::WaitingCapacity
    } else {
        JobStatus::Failed { reason: error.message() }
    };
    let ghost item = job@;
    if job.status.same(&store.jobs[at].status) {
        assert(start.jobs.update(at as int, start.jobs[at as int]) =~= start.jobs);
        assert(item == start.jobs[at as int]);
        return false;
    }
    store.jobs[at] = job;
    assert(store.jobs.deep_view() =~= start.jobs.update(at as int, item));
    assert(store@.jobs[at as int] != start.jobs[at as int]);
    true
}

/// Jobs asked for here that another machine has still to finish.
pub open spec fn awaiting(body_name: Seq<char>) -> spec_fn(JobModel) -> bool {
    |j: JobModel| j.from == body_name && j.body != body_name && !terminal(j.status)
}

/// Jobs asked for and to be run here that have not started.
pub open spec fn queued_here(body_name: Seq<char>) -> spec_fn(JobModel) -> bool {
    |j: JobModel| j.from == body_name && j.body == body_name && (j.status is Queued
        || j.status is WaitingCapacity)
}

/// Jobs of this machine for itself that wait to be started, in order.
pub fn waiting_here(store: &Store) -> (jobs: Vec<Job>)
    ensures
        jobs.deep_view() == search::kept(store@.jobs, queued_here(store@.body_name)),
{
    let ghost view = store@.jobs;
    let ghost test = queued_here(store@.body_name);
    let mut jobs: Vec<Job> = Vec::new();
    let mut i: usize = 0;
    assert(view.take(0) =~= Seq::<JobModel>::empty());
    assert(jobs.deep_view() =~= Seq::<JobModel>::empty());
    while i < store.jobs.len()
        invariant
            i <= store.jobs.len(),
            view == store@.jobs,
            test == queued_here(store@.body_name),
            jobs.deep_view() == search::kept(view.take(i as int), test),
        decreases store.jobs.len() - i,
    {
        let ghost before = jobs.deep_view();
        assert(view[i as int] == store.jobs@[i as int]@);
        proof {
            search::lemma_kept_step(view, test, i as int);
        }
        let job = &store.jobs[i];
        let waits: bool = match &job.status {
            JobStatus::Queued => true,
            JobStatus::WaitingCapacity => true,
            _ => false,
        };
        if waits && text_same(&job.from.0, &store.body_name) && text_same(
            &job.body.0,
            &store.body_name,
        ) {
            jobs.push(job.dup());
            assert(jobs.deep_view() =~= before.push(view[i as int]));
        }
        i += 1;
    }
    assert(view.take(i as int) =~= view);
    jobs
}

/// Requests still to be delivered.
pub open spec fn undisputed() -> spec_fn(OutboundRequestModel) -> bool {
    |r: OutboundRequestModel| r.error is None
}

/// Jobs that a dispatcher has to deliver, in order.
pub fn pending_jobs(store: &Store) -> (jobs: Vec<Job>)
    ensures
        jobs.deep_view() == search::kept(store@.jobs, awaiting(store@.body_name)),
{
    let ghost view = store@.jobs;
    let ghost test = awaiting(store@.body_name);
    let mut jobs: Vec<Job> = Vec::new();
    let mut i: usize = 0;
    assert(view.take(0) =~= Seq::<JobModel>::empty());
    assert(jobs.deep_view() =~= Seq::<JobModel>::empty());
    while i < store.jobs.len()
        invariant
            i <= store.jobs.len(),
            view == store@.jobs,
            test == awaiting(store@.body_name),
            jobs.deep_view() == search::kept(view.take(i as int), test),
        decreases store.jobs.len() - i,
    {
        let ghost before = jobs.deep_view();
        assert(view[i as int] == store.jobs@[i as int]@);
        proof {
            search::lemma_kept_step(view, test, i as int);
        }
        let job = &store.jobs[i];
        if text_same(&job.from.0, &store.body_name) && !text_same(&job.body.0, &store.body_name)
            && !is_terminal(&job.status) {
            jobs.push(job.dup());
            assert(jobs.deep_view() =~= before.push(view[i as int]));
        }
        i += 1;
    }
    assert(view.take(i as int) =~= view);
    jobs
}

/// Outgoing requests that a dispatcher has to deliver, in order.
pub fn pending_requests(store: &Store) -> (requests: Vec<OutboundRequest>)
    ensures
        requests.deep_view() == search::kept(store@.outbound_requests, undisputed()),
{
    let ghost view = store@.outbound_requests;
    let mut requests: Vec<OutboundRequest> = Vec::new();
    let mut i: usize = 0;
    assert(view.take(0) =~= Seq::<OutboundRequestModel>::empty());
    assert(requests.deep_view() =~= Seq::<OutboundRequestModel>::empty());
    while i < store.outbound_requests.len()
        invariant
            i <= store.outbound_requests.len(),
            view == store@.outbound_requests,
            requests.deep_view() == search::kept(view.take(i as int), undisputed()),
        decreases store.outbound_requests.len() - i,
    {
        let ghost before = requests.deep_view();
        assert(view[i as int] == store.outbound_requests@[i as int]@);
        proof {
            search::lemma_kept_step(view, undisputed(), i as int);
        }
        if store.outbound_requests[i].error.is_none() {
            requests.push(store.outbound_requests[i].dup());
            assert(requests.deep_view() =~= before.push(view[i as int]));
        }
        i += 1;
    }
    assert(view.take(i as int) =~= view);
    requests
}

/// The name under which a delivery is known to be under way.
pub fn request_task(id: &str) -> (name: String)
    ensures
        name@ == "request:"@ + id@,
{
    cat2("request:", id)
}

/// Claim a delivery. False means that it is already under way.
pub fn claim(active: &mut Table<()>, name: &str) -> (fresh: bool)
    ensures
        fresh == !table::holds(old(active).deep_view(), name@),
        final(active).deep_view() == if fresh {
            table::stored(old(active).deep_view(), name@, ())
        } else {
            old(active).deep_view()
        },
{
    if active.has(name) {
        false
    } else {
        active.put(owned(name), ());
        true
    }
}

} // verus!
