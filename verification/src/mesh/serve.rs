//! What is answered to a peer, one operation at a time.

use vstd::prelude::*;

use crate::data::Data;
use crate::error;
use crate::error::{protocol, usage, ErrorModel, Outcome, Result};
use crate::history::{Certificate, CertificateModel, Page, PageModel, Published, PublishedModel};
use crate::history::{authorize_execution, execution_reply};
use crate::history::merge;
use crate::history::page;
use crate::history::wire;
use crate::job;
use crate::job::find_job;
use crate::limits;
use crate::limits::Limits;
use crate::request;
use crate::request::receive;
use crate::search;
use crate::store;
use crate::store::{Store, StoreModel};
use crate::text;
use crate::text::{text_bytes, text_same};
use crate::types::{Job, JobModel, Peer, PeerModel, Request, RequestModel};

verus! {

/// A peer may have its own invocation executed here while state can be saved.
pub open spec fn entry_outcome(s: StoreModel, peer: PeerModel, c: CertificateModel) -> Outcome<()> {
    if store::writable_outcome(s) is Err {
        store::writable_outcome(s)
    } else {
        wire::authorize_outcome(s, peer, c)
    }
}

pub open spec fn admission_busy() -> ErrorModel {
    ErrorModel::Capacity("execution admission is busy; waiting for capacity"@)
}

/// Admit a certified execution request. A job that is not known yet takes a
/// place; the result says whether one was taken.
pub fn enter_certified(store: &Store, limits: &mut Limits, peer: &Peer, c: &Certificate) -> (result:
    Result<bool>)
    ensures
        error::outcome(result) == if entry_outcome(store@, peer@, c@) is Err {
            Err::<bool, ErrorModel>(entry_outcome(store@, peer@, c@)->Err_0)
        } else {
            slot_outcome(store@, old(limits).mesh_exec.taken() < old(limits).mesh_exec.size(), c@.invocation.id)
        },
        final(limits).mesh_exec.taken() == old(limits).mesh_exec.taken() + if result == Ok::<
            bool,
            crate::error::ClixError,
        >(true) {
            1int
        } else {
            0int
        },
        final(limits).mesh_exec.size() == old(limits).mesh_exec.size(),
        final(limits).children == old(limits).children,
        final(limits).mesh == old(limits).mesh,
        final(limits).owner == old(limits).owner,
        final(limits).waiters == old(limits).waiters,
{
    if let Err(e) = store.ensure_writable() {
        return Err(e);
    }
    if let Err(e) = authorize_execution(store, peer, c) {
        return Err(e);
    }
    take_place(store, limits, &c.invocation.id)
}

/// A known job needs no place among the execution requests.
pub open spec fn slot_outcome(s: StoreModel, free: bool, id: Seq<char>) -> Outcome<bool> {
    if search::first(s.jobs, job::job_with_id(id)) is Some {
        Ok(false)
    } else if free {
        Ok(true)
    } else {
        Err(admission_busy())
    }
}

fn take_place(store: &Store, limits: &mut Limits, id: &str) -> (result: Result<bool>)
    ensures
        error::outcome(result) == slot_outcome(
            store@,
            old(limits).mesh_exec.taken() < old(limits).mesh_exec.size(),
            id@,
        ),
        final(limits).mesh_exec.taken() == old(limits).mesh_exec.taken() + if result == Ok::<
            bool,
            crate::error::ClixError,
        >(true) {
            1int
        } else {
            0int
        },
        final(limits).mesh_exec.size() == old(limits).mesh_exec.size(),
        final(limits).children == old(limits).children,
        final(limits).mesh == old(limits).mesh,
        final(limits).owner == old(limits).owner,
        final(limits).waiters == old(limits).waiters,
{
    if find_job(&store.jobs, id).is_some() {
        return Ok(false);
    }
    match limits.mesh_exec() {
        Ok(_) => Ok(true),
        Err(e) => Err(e),
    }
}

/// Admit an execution request without a certificate.
pub fn enter_plain(store: &Store, limits: &mut Limits, id: &str, argv: &Vec<String>) -> (result:
    Result<bool>)
    ensures
        error::outcome(result) == if limits::invocation_outcome(id@, argv.deep_view()) is Err {
            Err::<bool, ErrorModel>(limits::invocation_outcome(id@, argv.deep_view())->Err_0)
        } else {
            slot_outcome(store@, old(limits).mesh_exec.taken() < old(limits).mesh_exec.size(), id@)
        },
        final(limits).mesh_exec.taken() == old(limits).mesh_exec.taken() + if result == Ok::<
            bool,
            crate::error::ClixError,
        >(true) {
            1int
        } else {
            0int
        },
        final(limits).mesh_exec.size() == old(limits).mesh_exec.size(),
        final(limits).children == old(limits).children,
        final(limits).mesh == old(limits).mesh,
        final(limits).owner == old(limits).owner,
        final(limits).waiters == old(limits).waiters,
{
    if let Err(e) = crate::limits::invocation(id, argv) {
        return Err(e);
    }
    take_place(store, limits, id)
}

/// What a peer learns of an invocation of its own.
pub fn read_certified(store: &Store, peer: &Peer, c: &Certificate) -> (result: Result<
    Option<(Job, Published)>,
>)
    ensures
        error::outcome(result) == if entry_outcome(store@, peer@, c@) is Err {
            Err::<Option<(JobModel, PublishedModel)>, ErrorModel>(
                entry_outcome(store@, peer@, c@)->Err_0,
            )
        } else {
            merge::reply_outcome(store@, c@)
        },
{
    if let Err(e) = store.ensure_writable() {
        return Err(e);
    }
    if let Err(e) = authorize_execution(store, peer, c) {
        return Err(e);
    }
    execution_reply(store, c)
}

/// The longest name of a history epoch.
pub const EPOCH_BYTES: usize = 128;

pub open spec fn page_reply(
    s: StoreModel,
    epoch: Seq<char>,
    after: Option<u64>,
    high: Option<u64>,
) -> Outcome<PageModel> {
    if text::byte_len(epoch) > EPOCH_BYTES {
        Err(ErrorModel::Protocol("invalid history epoch"@))
    } else {
        match after {
            None => Err(ErrorModel::Protocol("missing history cursor"@)),
            Some(after) => page::page_outcome(s, epoch, after, high),
        }
    }
}

/// One page of history for a peer. A request without an epoch starts a new scan.
pub fn serve_page(store: &Store, epoch: &str, after: Option<u64>, high: Option<u64>) -> (result:
    Result<Page>)
    ensures
        error::outcome(result) == page_reply(store@, epoch@, after, high),
{
    if text_bytes(epoch) > EPOCH_BYTES {
        return Err(protocol("invalid history epoch"));
    }
    match after {
        None => Err(protocol("missing history cursor")),
        Some(after) => page(store, epoch, after, high),
    }
}

/// A job that a peer asked this machine for.
pub open spec fn asked_by(s: StoreModel, peer: Seq<char>, id: Seq<char>) -> spec_fn(JobModel) -> bool {
    |j: JobModel| j.id == id && j.from == peer && j.body == s.body_name
}

pub open spec fn job_reply(s: StoreModel, peer: Seq<char>, id: Option<Seq<char>>) -> Outcome<
    Option<JobModel>,
> {
    match id {
        None => Err(ErrorModel::Protocol("missing job ID"@)),
        Some(id) => Ok(search::found(s.jobs, asked_by(s, peer, id))),
    }
}

/// A peer reads only the jobs that it asked for and that ran here.
pub fn read_job(store: &Store, peer: &Peer, id: Option<&str>) -> (result: Result<Option<Job>>)
    ensures
        error::outcome(result) == job_reply(
            store@,
            peer@.name,
            match id {
                Some(id) => Some(id@),
                None => None,
            },
        ),
{
    let wanted = match id {
        Some(id) => id,
        None => return Err(protocol("missing job ID")),
    };
    let ghost view = store@.jobs;
    let ghost test = asked_by(store@, peer@.name, wanted@);
    let mut i: usize = 0;
    while i < store.jobs.len()
        invariant
            i <= store.jobs.len(),
            view == store@.jobs,
            id == Some(wanted),
            test == asked_by(store@, peer@.name, wanted@),
            forall|j: int| 0 <= j < i ==> !test(#[trigger] view[j]),
        decreases store.jobs.len() - i,
    {
        assert(view[i as int] == store.jobs@[i as int]@);
        let job = &store.jobs[i];
        if text_same(&job.id, wanted) && job.from.same(&peer.name) && job.body.0.same(
            &store.body_name,
        ) {
            proof {
                search::lemma_first_at(view, test, i as int);
            }
            return Ok(Some(job.dup()));
        }
        i += 1;
    }
    proof {
        search::lemma_first_none(view, test);
    }
    Ok(None)
}

pub open spec fn request_reply(
    s: StoreModel,
    peer: Seq<char>,
    tool: Option<Seq<char>>,
    delivery_id: Option<Seq<char>>,
    fresh_id: Seq<char>,
) -> (StoreModel, Outcome<RequestModel>) {
    match tool {
        Some(tool) if tool.len() > 0 => request::received(s, peer, tool, delivery_id, fresh_id),
        _ => (s, Err(ErrorModel::Usage("missing tool"@))),
    }
}

/// A peer asks for a tool.
pub fn serve_request(
    store: &mut Store,
    peer: &Peer,
    tool: Option<&str>,
    delivery_id: Option<&str>,
    fresh_id: String,
) -> (result: Result<Request>)
    ensures
        (final(store)@, error::outcome(result)) == request_reply(
            old(store)@,
            peer@.name,
            match tool {
                Some(tool) => Some(tool@),
                None => None,
            },
            match delivery_id {
                Some(id) => Some(id@),
                None => None,
            },
            fresh_id@,
        ),
{
    match tool {
        Some(tool) => {
            if tool.is_empty() {
                return Err(usage("missing tool"));
            }
            receive(store, peer.name.dup(), tool, delivery_id, fresh_id)
        },
        None => Err(usage("missing tool")),
    }
}

} // verus!
