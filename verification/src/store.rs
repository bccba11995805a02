//! The sidecar's state, and when a change to it counts.

use vstd::prelude::*;

use crate::data::{bytes_dup, Data};
use crate::error;
use crate::error::{ClixError, ErrorModel, Outcome, Result};
use crate::history::{normalize_output, refresh_owned, History, HistoryModel};
use crate::history::merge;
use crate::history::publish;
use crate::job;
use crate::job::find_job;
use crate::search;
use crate::storage;
use crate::storage::{check_encoded, prepare, reserve_completion, STATE_BYTES};
use crate::table::Table;
use crate::text::{bytes_same, cat3, owned};
use crate::types::{
    Grant, GrantModel, Job, JobModel, OutboundRequest, OutboundRequestModel, Peer, PeerModel,
    JobStatus, JobStatusModel, Request, RequestModel, RequestReceipt, RequestReceiptModel,
};

verus! {

/// A file version: the digest of its bytes and its permission bits.
#[derive(Debug, Clone, PartialEq, Eq)]
pub struct Fingerprint {
    pub hash: String,
    pub mode: u32,
}

/// What a `Fingerprint` says.
#[verifier::ext_equal]
pub struct FingerprintModel {
    pub hash: Seq<char>,
    pub mode: u32,
}

impl View for Fingerprint {
    type V = FingerprintModel;

    open spec fn view(&self) -> FingerprintModel {
        FingerprintModel {
            hash: self.hash.deep_view(),
            mode: self.mode,
        }
    }
}

impl DeepView for Fingerprint {
    type V = FingerprintModel;

    open spec fn deep_view(&self) -> FingerprintModel {
        self@
    }
}

impl Data for Fingerprint {
    fn dup(&self) -> (copy: Self) {
        Fingerprint {
            hash: self.hash.dup(),
            mode: self.mode,
        }
    }

    fn same(&self, other: &Self) -> (equal: bool) {
        self.hash.same(&other.hash)
            && self.mode == other.mode
    }
}

/// Last successful pin sync: content hashes plus when that sync finished.
#[derive(Debug, Clone, PartialEq, Eq)]
pub struct PinIndex {
    /// For each machine, the versions both sides held after their last sync.
    pub peers: Table<Table<Fingerprint>>,
    /// Unix milliseconds of last successful pin sync.
    pub last_sync: Option<u64>,
    /// Relative path to digest at last successful sync.
    pub hashes: Table<String>,
    /// Set on pin conflict; cleared only after a successful sync.
    pub last_error: Option<String>,
}

/// What a `PinIndex` says.
#[verifier::ext_equal]
pub struct PinIndexModel {
    pub peers: Seq<(Seq<char>, Seq<(Seq<char>, FingerprintModel)>)>,
    pub last_sync: Option<u64>,
    pub hashes: Seq<(Seq<char>, Seq<char>)>,
    pub last_error: Option<Seq<char>>,
}

impl View for PinIndex {
    type V = PinIndexModel;

    open spec fn view(&self) -> PinIndexModel {
        PinIndexModel {
            peers: self.peers.deep_view(),
            last_sync: self.last_sync.deep_view(),
            hashes: self.hashes.deep_view(),
            last_error: self.last_error.deep_view(),
        }
    }
}

impl DeepView for PinIndex {
    type V = PinIndexModel;

    open spec fn deep_view(&self) -> PinIndexModel {
        self@
    }
}

impl Data for PinIndex {
    fn dup(&self) -> (copy: Self) {
        PinIndex {
            peers: self.peers.dup(),
            last_sync: self.last_sync.dup(),
            hashes: self.hashes.dup(),
            last_error: self.last_error.dup(),
        }
    }

    fn same(&self, other: &Self) -> (equal: bool) {
        self.peers.same(&other.peers)
            && self.last_sync.same(&other.last_sync)
            && self.hashes.same(&other.hashes)
            && self.last_error.same(&other.last_error)
    }
}

/// Everything this machine keeps.
#[derive(Debug, Clone, PartialEq, Eq)]
pub struct Store {
    pub dir: String,
    /// Why nothing may be written any more.
    pub write_error: Option<String>,
    pub body_name: String,
    pub owner_sk: Vec<u8>,
    pub peers: Vec<Peer>,
    pub grants: Vec<Grant>,
    pub jobs: Vec<Job>,
    pub requests: Vec<Request>,
    pub outbound_requests: Vec<OutboundRequest>,
    pub request_receipts: Vec<RequestReceipt>,
    pub pin_index: PinIndex,
    pub pin_enabled: bool,
    /// The pin tree, where it is not the default one.
    pub pin_dir: Option<String>,
    pub history: History,
    /// The invocation that each admitted job is bound to.
    pub job_certificates: Table<String>,
    pub retry_links: Table<String>,
    pub legacy_jobs: Table<()>,
    pub output_pruned: Table<()>,
    pub history_pruned: Table<()>,
}

/// What a `Store` says.
#[verifier::ext_equal]
pub struct StoreModel {
    pub dir: Seq<char>,
    pub write_error: Option<Seq<char>>,
    pub body_name: Seq<char>,
    pub owner_sk: Seq<u8>,
    pub peers: Seq<PeerModel>,
    pub grants: Seq<GrantModel>,
    pub jobs: Seq<JobModel>,
    pub requests: Seq<RequestModel>,
    pub outbound_requests: Seq<OutboundRequestModel>,
    pub request_receipts: Seq<RequestReceiptModel>,
    pub pin_index: PinIndexModel,
    pub pin_enabled: bool,
    pub pin_dir: Option<Seq<char>>,
    pub history: HistoryModel,
    pub job_certificates: Seq<(Seq<char>, Seq<char>)>,
    pub retry_links: Seq<(Seq<char>, Seq<char>)>,
    pub legacy_jobs: Seq<(Seq<char>, ())>,
    pub output_pruned: Seq<(Seq<char>, ())>,
    pub history_pruned: Seq<(Seq<char>, ())>,
}

impl View for Store {
    type V = StoreModel;

    open spec fn view(&self) -> StoreModel {
        StoreModel {
            dir: self.dir.deep_view(),
            write_error: self.write_error.deep_view(),
            body_name: self.body_name.deep_view(),
            owner_sk: self.owner_sk@,
            peers: self.peers.deep_view(),
            grants: self.grants.deep_view(),
            jobs: self.jobs.deep_view(),
            requests: self.requests.deep_view(),
            outbound_requests: self.outbound_requests.deep_view(),
            request_receipts: self.request_receipts.deep_view(),
            pin_index: self.pin_index.deep_view(),
            pin_enabled: self.pin_enabled,
            pin_dir: self.pin_dir.deep_view(),
            history: self.history.deep_view(),
            job_certificates: self.job_certificates.deep_view(),
            retry_links: self.retry_links.deep_view(),
            legacy_jobs: self.legacy_jobs.deep_view(),
            output_pruned: self.output_pruned.deep_view(),
            history_pruned: self.history_pruned.deep_view(),
        }
    }
}

impl DeepView for Store {
    type V = StoreModel;

    open spec fn deep_view(&self) -> StoreModel {
        self@
    }
}

impl Data for Store {
    fn dup(&self) -> (copy: Self) {
        Store {
            dir: self.dir.dup(),
            write_error: self.write_error.dup(),
            body_name: self.body_name.dup(),
            owner_sk: bytes_dup(&self.owner_sk),
            peers: self.peers.dup(),
            grants: self.grants.dup(),
            jobs: self.jobs.dup(),
            requests: self.requests.dup(),
            outbound_requests: self.outbound_requests.dup(),
            request_receipts: self.request_receipts.dup(),
            pin_index: self.pin_index.dup(),
            pin_enabled: self.pin_enabled,
            pin_dir: self.pin_dir.dup(),
            history: self.history.dup(),
            job_certificates: self.job_certificates.dup(),
            retry_links: self.retry_links.dup(),
            legacy_jobs: self.legacy_jobs.dup(),
            output_pruned: self.output_pruned.dup(),
            history_pruned: self.history_pruned.dup(),
        }
    }

    fn same(&self, other: &Self) -> (equal: bool) {
        self.dir.same(&other.dir)
            && self.write_error.same(&other.write_error)
            && self.body_name.same(&other.body_name)
            && bytes_same(&self.owner_sk, &other.owner_sk)
            && self.peers.same(&other.peers)
            && self.grants.same(&other.grants)
            && self.jobs.same(&other.jobs)
            && self.requests.same(&other.requests)
            && self.outbound_requests.same(&other.outbound_requests)
            && self.request_receipts.same(&other.request_receipts)
            && self.pin_index.same(&other.pin_index)
            && self.pin_enabled == other.pin_enabled
            && self.pin_dir.same(&other.pin_dir)
            && self.history.same(&other.history)
            && self.job_certificates.same(&other.job_certificates)
            && self.retry_links.same(&other.retry_links)
            && self.legacy_jobs.same(&other.legacy_jobs)
            && self.output_pruned.same(&other.output_pruned)
            && self.history_pruned.same(&other.history_pruned)
    }
}

/// A state about to replace another: published, normalized and within its limits.
pub open spec fn replacement(s: StoreModel, next: StoreModel, fresh_epoch: Seq<char>) -> Outcome<
    StoreModel,
> {
    let (published, step) = publish::refreshed(next, Some(s), fresh_epoch);
    match step {
        Err(e) => Err(e),
        Ok(_) => {
            let (ready, fits) = storage::prepared(merge::normalized(published), s);
            match fits {
                Err(e) => Err(e),
                Ok(_) => Ok(ready),
            }
        },
    }
}

/// Whether a prepared state may be written, given the sizes of both encodings.
pub open spec fn admission(s: StoreModel, next: StoreModel, encoded: usize, old_encoded: usize) -> Outcome<
    (),
> {
    if encoded > STATE_BYTES {
        Err(ErrorModel::Capacity("Clix state exceeds 128 MiB; new work is refused"@))
    } else if storage::charge(next, encoded as nat) > STATE_BYTES && storage::clamp(
        storage::charge(next, encoded as nat) as int,
    ) > storage::clamp(storage::charge(s, old_encoded as nat) as int) {
        Err(
            ErrorModel::Capacity(
                "state capacity is reserved for admitted job outcomes; new work is refused"@,
            ),
        )
    } else {
        Ok(())
    }
}

/// The state after a save.
pub open spec fn settled(s: StoreModel, next: StoreModel, saved: Outcome<()>) -> StoreModel {
    match saved {
        Ok(_) => next,
        Err(e) => StoreModel { write_error: Some(e.message()), ..s },
    }
}

pub open spec fn restart_reason() -> Seq<char> {
    "sidecar restarted during execution; the command may have taken effect. Not rerunning."@
}

/// A job as a restart leaves it: what was running here has an unknown outcome.
pub open spec fn recovered_job(body_name: Seq<char>, job: JobModel) -> JobModel {
    if job.body == body_name && job.status is Running {
        JobModel { status: JobStatusModel::Uncertain { reason: restart_reason() }, ..job }
    } else {
        job
    }
}

pub open spec fn recovered_jobs(body_name: Seq<char>, jobs: Seq<JobModel>) -> Seq<JobModel> {
    Seq::new(jobs.len(), |i: int| recovered_job(body_name, jobs[i]))
}

/// The jobs with one more, or with the one of the same ID replaced.
pub open spec fn with_job(jobs: Seq<JobModel>, job: JobModel) -> Seq<JobModel> {
    match search::first(jobs, job::job_with_id(job.id)) {
        Some(at) => jobs.update(at, job),
        None => jobs.push(job),
    }
}

pub open spec fn unavailable(reason: Seq<char>) -> ErrorModel {
    ErrorModel::Io(
        "Clix storage is unavailable: "@ + reason
            + ". Repair storage and restart the sidecar."@,
    )
}

/// Nothing may change once a save has failed.
pub open spec fn writable_outcome(s: StoreModel) -> Outcome<()> {
    match s.write_error {
        Some(reason) => Err(unavailable(reason)),
        None => Ok(()),
    }
}

impl Store {
    /// A machine that has kept nothing yet.
    pub fn fresh(dir: String, body_name: String, owner_sk: Vec<u8>) -> (store: Store)
        ensures
            store@ == (StoreModel {
                dir: dir@,
                write_error: None,
                body_name: body_name@,
                owner_sk: owner_sk@,
                peers: Seq::empty(),
                grants: Seq::empty(),
                jobs: Seq::empty(),
                requests: Seq::empty(),
                outbound_requests: Seq::empty(),
                request_receipts: Seq::empty(),
                pin_index: PinIndexModel {
                    peers: Seq::empty(),
                    last_sync: None,
                    hashes: Seq::empty(),
                    last_error: None,
                },
                pin_enabled: false,
                pin_dir: None,
                history: HistoryModel {
                    initialized: false,
                    epoch: ""@,
                    clock: 0,
                    trust: ""@,
                    entries: Seq::empty(),
                    peers: Seq::empty(),
                },
                job_certificates: Seq::empty(),
                retry_links: Seq::empty(),
                legacy_jobs: Seq::empty(),
                output_pruned: Seq::empty(),
                history_pruned: Seq::empty(),
            }),
    {
        let store = Store {
            dir,
            write_error: None,
            body_name,
            owner_sk,
            peers: Vec::new(),
            grants: Vec::new(),
            jobs: Vec::new(),
            requests: Vec::new(),
            outbound_requests: Vec::new(),
            request_receipts: Vec::new(),
            pin_index: PinIndex {
                peers: Table::new(),
                last_sync: None,
                hashes: Table::new(),
                last_error: None,
            },
            pin_enabled: false,
            pin_dir: None,
            history: History {
                initialized: false,
                epoch: owned(""),
                clock: 0,
                trust: owned(""),
                entries: Table::new(),
                peers: Table::new(),
            },
            job_certificates: Table::new(),
            retry_links: Table::new(),
            legacy_jobs: Table::new(),
            output_pruned: Table::new(),
            history_pruned: Table::new(),
        };
        assert(store.peers.deep_view() =~= Seq::empty());
        assert(store.grants.deep_view() =~= Seq::empty());
        assert(store.jobs.deep_view() =~= Seq::empty());
        assert(store.requests.deep_view() =~= Seq::empty());
        assert(store.outbound_requests.deep_view() =~= Seq::empty());
        assert(store.request_receipts.deep_view() =~= Seq::empty());
        store
    }

    /// Whether a loaded state still lacks the name of its machine.
    pub fn lacks_name(&self) -> (yes: bool)
        ensures
            yes == (self@.body_name.len() == 0 && self@.peers.len() == 0 && self@.jobs.len() == 0
                && self@.grants.len() == 0),
    {
        self.body_name.as_str().is_empty() && self.peers.len() == 0 && self.jobs.len() == 0
            && self.grants.len() == 0
    }

    pub fn storage_error(&self) -> (reason: Option<String>)
        ensures
            reason.deep_view() == self@.write_error,
    {
        self.write_error.dup()
    }

    pub fn ensure_writable(&self) -> (result: Result<()>)
        ensures
            error::outcome(result) == writable_outcome(self@),
    {
        match &self.write_error {
            Some(reason) => Err(
                ClixError::Io(
                    cat3(
                        "Clix storage is unavailable: ",
                        reason,
                        ". Repair storage and restart the sidecar.",
                    ),
                ),
            ),
            None => Ok(()),
        }
    }

    /// What an edited copy becomes before it is saved. This state stays as it is.
    pub fn prepare_update(&self, next: Store, fresh_epoch: String) -> (result: Result<Store>)
        ensures
            error::outcome(result) == replacement(self@, next@, fresh_epoch@),
    {
        let mut next = next;
        if let Err(e) = refresh_owned(&mut next, Some(self), fresh_epoch) {
            return Err(e);
        }
        normalize_output(&mut next);
        if let Err(e) = prepare(&mut next, self) {
            return Err(e);
        }
        Ok(next)
    }

    /// Whether a prepared state may be written, given the sizes of both encodings.
    pub fn admit_encoded(&self, next: &Store, encoded: usize, old_encoded: usize) -> (result:
        Result<()>)
        ensures
            error::outcome(result) == admission(self@, next@, encoded, old_encoded),
    {
        if let Err(e) = check_encoded(encoded) {
            return Err(e);
        }
        reserve_completion(next, self, encoded, old_encoded)
    }

    /// Publish a state only after its durable replacement succeeded. A failed
    /// save keeps this state and refuses every later change.
    pub fn finish_update(&mut self, next: Store, saved: Result<()>) -> (result: Result<()>)
        ensures
            error::outcome(result) == error::outcome(saved),
            final(self)@ == settled(old(self)@, next@, error::outcome(saved)),
    {
        match saved {
            Ok(_) => {
                *self = next;
                Ok(())
            },
            Err(e) => {
                self.write_error = Some(e.message());
                Err(e)
            },
        }
    }

    /// What a restart makes of jobs that were running here.
    pub fn recover_jobs(&mut self)
        ensures
            final(self)@ == (StoreModel {
                jobs: recovered_jobs(old(self)@.body_name, old(self)@.jobs),
                ..old(self)@
            }),
    {
        let ghost start = self@;
        let ghost goal = recovered_jobs(start.body_name, start.jobs);
        let mut i: usize = 0;
        assert(start.jobs =~= goal.take(0) + start.jobs.skip(0));
        while i < self.jobs.len()
            invariant
                i <= self@.jobs.len(),
                self@.jobs.len() == start.jobs.len(),
                goal == recovered_jobs(start.body_name, start.jobs),
                self@ == (StoreModel { jobs: self@.jobs, ..start }),
                self@.jobs == goal.take(i as int) + start.jobs.skip(i as int),
            decreases self@.jobs.len() - i,
        {
            let ghost here = self@.jobs;
            assert(here[i as int] == start.jobs[i as int]);
            assert(here[i as int] == self.jobs@[i as int]@);
            let running: bool = match &self.jobs[i].status {
                JobStatus::Running => true,
                _ => false,
            };
            if running && self.jobs[i].body.0.same(&self.body_name) {
                let mut job = self.jobs[i].dup();
                job.status = JobStatus::Uncertain {
                    reason: owned(
                        "sidecar restarted during execution; the command may have taken effect. Not rerunning.",
                    ),
                };
                let ghost changed = job@;
                self.jobs[i] = job;
                assert(self.jobs.deep_view() =~= here.update(i as int, changed));
            }
            assert(self@.jobs =~= goal.take(i + 1) + start.jobs.skip(i + 1));
            i += 1;
        }
        assert(self@.jobs =~= goal);
    }

    /// Record a job, replacing the one with its ID.
    pub fn put_job(&mut self, job: Job)
        ensures
            final(self)@ == (StoreModel { jobs: with_job(old(self)@.jobs, job@), ..old(self)@ }),
    {
        let ghost start = self@;
        let ghost item = job@;
        match find_job(&self.jobs, &job.id) {
            Some(at) => {
                self.jobs[at] = job;
                assert(self.jobs.deep_view() =~= start.jobs.update(at as int, item));
            },
            None => {
                self.jobs.push(job);
                assert(self.jobs.deep_view() =~= start.jobs.push(item));
            },
        }
    }

    pub fn append_job(&mut self, job: Job)
        ensures
            final(self)@ == (StoreModel { jobs: with_job(old(self)@.jobs, job@), ..old(self)@ }),
    {
        self.put_job(job)
    }
}

} // verus!
