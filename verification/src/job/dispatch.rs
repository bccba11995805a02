//! Delivering a job: one dispatcher owns it, also after a restart. Every attempt
//! uses the original job ID; the machine that receives it does not run it twice.

use vstd::prelude::*;

use crate::data::Data;
use crate::error;
use crate::error::{protocol, ClixError, ErrorModel, Outcome, Result};
use crate::history::{
    accept_runner_reply, for_job, Certificate, CertificateModel, Published, PublishedModel,
};
use crate::history::merge;
use crate::job;
use crate::job::{apply_peer_result, settle_dispatch};
use crate::request;
use crate::request::{find_route, Delivery, DeliveryModel};
use crate::store;
use crate::store::{Store, StoreModel};
use crate::types::{BodyId, Job, JobModel};

verus! {

/// How far a delivery has come.
#[derive(Debug, Clone, Copy, PartialEq, Eq, Structural)]
pub enum DispatchPhase {
    /// Ask whether the machine already has the job.
    Asking,
    /// Send the job.
    Sending,
    /// Nothing is left to do.
    Settled,
}

impl DeepView for DispatchPhase {
    type V = DispatchPhase;

    open spec fn deep_view(&self) -> DispatchPhase {
        *self
    }
}

impl Data for DispatchPhase {
    fn dup(&self) -> (copy: Self) {
        *self
    }

    fn same(&self, other: &Self) -> (equal: bool) {
        *self == *other
    }
}

/// One attempt to have a job run where it belongs.
#[derive(Debug)]
pub struct DispatchRun {
    pub id: String,
    pub body: BodyId,
    pub route: Delivery,
    /// What a peer is shown of a job that it can hold to a signature.
    pub certificate: Option<Certificate>,
    pub phase: DispatchPhase,
}

/// What a `DispatchRun` says.
#[verifier::ext_equal]
pub struct DispatchRunModel {
    pub id: Seq<char>,
    pub body: Seq<char>,
    pub route: DeliveryModel,
    pub certificate: Option<CertificateModel>,
    pub phase: DispatchPhase,
}

impl View for DispatchRun {
    type V = DispatchRunModel;

    open spec fn view(&self) -> DispatchRunModel {
        DispatchRunModel {
            id: self.id.deep_view(),
            body: self.body.deep_view(),
            route: self.route.deep_view(),
            certificate: self.certificate.deep_view(),
            phase: self.phase,
        }
    }
}

impl DeepView for DispatchRun {
    type V = DispatchRunModel;

    open spec fn deep_view(&self) -> DispatchRunModel {
        self@
    }
}

/// What came of a call to the machine.
#[derive(Debug)]
pub enum DispatchEvent {
    /// The call did not get through, or was refused.
    Failed(ClixError),
    /// The answer holds no such job.
    Unknown,
    /// The job as the machine tells it.
    Told(Job),
    /// The job as the machine signed it.
    Proved(Published),
}

/// What a `DispatchEvent` says.
#[verifier::ext_equal]
pub enum DispatchEventModel {
    Failed(ErrorModel),
    Unknown,
    Told(JobModel),
    Proved(PublishedModel),
}

impl View for DispatchEvent {
    type V = DispatchEventModel;

    open spec fn view(&self) -> DispatchEventModel {
        match self {
            DispatchEvent::Failed(x0) => DispatchEventModel::Failed(x0@),
            DispatchEvent::Unknown => DispatchEventModel::Unknown,
            DispatchEvent::Told(x0) => DispatchEventModel::Told(x0.deep_view()),
            DispatchEvent::Proved(x0) => DispatchEventModel::Proved(x0.deep_view()),
        }
    }
}

impl DeepView for DispatchEvent {
    type V = DispatchEventModel;

    open spec fn deep_view(&self) -> DispatchEventModel {
        self@
    }
}

/// The certificate of a job that was admitted with one.
pub open spec fn certificate_for(s: StoreModel, job: JobModel) -> Option<CertificateModel> {
    match merge::entry_for(s, job) {
        Some(entry) => Some(entry.record.certificate),
        None => None,
    }
}

pub open spec fn dispatch_start(s: StoreModel, job: JobModel) -> Outcome<DispatchRunModel> {
    match request::route(s, job.body) {
        Err(e) => Err(e),
        Ok(route) => Ok(
            DispatchRunModel {
                id: job.id,
                body: job.body,
                route,
                certificate: certificate_for(s, job),
                phase: DispatchPhase::Asking,
            },
        ),
    }
}

/// The state after an event, and how far the delivery has then come. A known job
/// is never sent, and an answer that cannot be accepted settles the attempt.
pub open spec fn dispatched(s: StoreModel, run: DispatchRunModel, event: DispatchEventModel) -> (
    StoreModel,
    DispatchPhase,
) {
    match event {
        DispatchEventModel::Failed(e) => (
            job::dispatch_settled(s, run.id, e),
            DispatchPhase::Settled,
        ),
        DispatchEventModel::Unknown => if run.phase == DispatchPhase::Asking {
            (s, DispatchPhase::Sending)
        } else {
            (job::dispatch_settled(s, run.id, missing_job()), DispatchPhase::Settled)
        },
        DispatchEventModel::Told(job) => if run.certificate is Some {
            (job::dispatch_settled(s, run.id, missing_job()), DispatchPhase::Settled)
        } else {
            match job::peer_result(s, run.body, job) {
                Err(e) => (job::dispatch_settled(s, run.id, e), DispatchPhase::Settled),
                Ok(Some((job, true))) => (
                    StoreModel { jobs: store::with_job(s.jobs, job), ..s },
                    DispatchPhase::Settled,
                ),
                Ok(_) => (s, DispatchPhase::Settled),
            }
        },
        DispatchEventModel::Proved(p) => match merge::answered(s, run.body, p) {
            (_, Err(e)) => (job::dispatch_settled(s, run.id, e), DispatchPhase::Settled),
            (next, Ok(_)) => (next, DispatchPhase::Settled),
        },
    }
}

pub open spec fn missing_job() -> ErrorModel {
    ErrorModel::Protocol("peer response is missing its job"@)
}

impl DispatchRun {
    /// Begin to deliver a job, or say why it cannot be delivered now.
    pub fn start(store: &Store, job: &Job) -> (result: Result<DispatchRun>)
        ensures
            error::outcome(result) == dispatch_start(store@, job@),
    {
        let route = match find_route(store, &job.body.0) {
            Ok(route) => route,
            Err(e) => return Err(e),
        };
        let certificate: Option<Certificate> = match for_job(store, job) {
            Some(entry) => Some(entry.record.certificate.dup()),
            None => None,
        };
        Ok(
            DispatchRun {
                id: job.id.dup(),
                body: job.body.dup(),
                route,
                certificate,
                phase: DispatchPhase::Asking,
            },
        )
    }

    /// Take in what came of the last call.
    pub fn advance(&mut self, store: &mut Store, event: &DispatchEvent)
        ensures
            (final(store)@, final(self).phase) == dispatched(old(store)@, old(self)@, event@),
            final(self)@ == (DispatchRunModel { phase: final(self).phase, ..old(self)@ }),
    {
        let asking = self.phase == DispatchPhase::Asking;
        self.phase = DispatchPhase::Settled;
        match event {
            DispatchEvent::Failed(e) => {
                settle_dispatch(store, &self.id, e);
            },
            DispatchEvent::Unknown => {
                if asking {
                    self.phase = DispatchPhase::Sending;
                } else {
                    let e = protocol("peer response is missing its job");
                    settle_dispatch(store, &self.id, &e);
                }
            },
            DispatchEvent::Told(job) => {
                if self.certificate.is_some() {
                    let e = protocol("peer response is missing its job");
                    settle_dispatch(store, &self.id, &e);
                } else if let Err(e) = apply_peer_result(store, &self.body, job) {
                    settle_dispatch(store, &self.id, &e);
                }
            },
            DispatchEvent::Proved(published) => {
                if let Err(e) = accept_runner_reply(store, &self.body, published) {
                    settle_dispatch(store, &self.id, &e);
                }
            },
        }
    }
}

/// Delivering a job that the other machine already has, or has just taken, never
/// starts it again: every answer but "unknown" ends the attempt.
pub proof fn law_answered_job_is_not_sent(
    s: StoreModel,
    run: DispatchRunModel,
    event: DispatchEventModel,
)
    requires
        event !is Unknown,
    ensures
        dispatched(s, run, event).1 == DispatchPhase::Settled,
{
}

/// Work past a limit keeps its job and waits: whatever the attempt, no other job
/// changes, and this one neither finishes nor disappears.
pub proof fn law_capacity_waits(s: StoreModel, run: DispatchRunModel, reason: Seq<char>, i: int)
    requires
        0 <= i < s.jobs.len(),
    ensures
        ({
            let next = dispatched(s, run, DispatchEventModel::Failed(ErrorModel::Capacity(reason))).0;
            &&& next.jobs.len() == s.jobs.len()
            &&& next.jobs[i].id == s.jobs[i].id
            &&& next.jobs[i].argv == s.jobs[i].argv
            &&& !job::terminal(s.jobs[i].status) ==> !job::terminal(next.jobs[i].status)
            &&& s.jobs[i].id != run.id ==> next.jobs[i] == s.jobs[i]
        }),
{
    crate::search::lemma_first(s.jobs, job::job_with_id(run.id));
}

} // verus!
