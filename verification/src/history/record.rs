//! The records that machines sign and exchange.

use vstd::prelude::*;

use crate::data::{bytes_dup, Data};
use crate::table::Table;
use crate::text::bytes_same;
use crate::types::{BodyId, Job, JobModel, JobStatus, JobStatusModel};

verus! {

#[derive(Debug, Clone, PartialEq, Eq)]
pub struct Invocation {
    pub id: String,
    pub from: BodyId,
    pub origin_key: Vec<u8>,
    pub body: BodyId,
    pub runner_key: Vec<u8>,
    pub argv: Vec<String>,
    pub retry_of: Option<String>,
    /// The named machine observes its own pre-upgrade record. It does not
    /// authenticate the other participant's historical decision.
    pub legacy_observer: Option<BodyId>,
}

/// What a `Invocation` says.
#[verifier::ext_equal]
pub struct InvocationModel {
    pub id: Seq<char>,
    pub from: Seq<char>,
    pub origin_key: Seq<u8>,
    pub body: Seq<char>,
    pub runner_key: Seq<u8>,
    pub argv: Seq<Seq<char>>,
    pub retry_of: Option<Seq<char>>,
    pub legacy_observer: Option<Seq<char>>,
}

impl View for Invocation {
    type V = InvocationModel;

    open spec fn view(&self) -> InvocationModel {
        InvocationModel {
            id: self.id.deep_view(),
            from: self.from.deep_view(),
            origin_key: self.origin_key@,
            body: self.body.deep_view(),
            runner_key: self.runner_key@,
            argv: self.argv.deep_view(),
            retry_of: self.retry_of.deep_view(),
            legacy_observer: self.legacy_observer.deep_view(),
        }
    }
}

impl DeepView for Invocation {
    type V = InvocationModel;

    open spec fn deep_view(&self) -> InvocationModel {
        self@
    }
}

impl Data for Invocation {
    fn dup(&self) -> (copy: Self) {
        Invocation {
            id: self.id.dup(),
            from: self.from.dup(),
            origin_key: bytes_dup(&self.origin_key),
            body: self.body.dup(),
            runner_key: bytes_dup(&self.runner_key),
            argv: self.argv.dup(),
            retry_of: self.retry_of.dup(),
            legacy_observer: self.legacy_observer.dup(),
        }
    }

    fn same(&self, other: &Self) -> (equal: bool) {
        self.id.same(&other.id)
            && self.from.same(&other.from)
            && bytes_same(&self.origin_key, &other.origin_key)
            && self.body.same(&other.body)
            && bytes_same(&self.runner_key, &other.runner_key)
            && self.argv.same(&other.argv)
            && self.retry_of.same(&other.retry_of)
            && self.legacy_observer.same(&other.legacy_observer)
    }
}

#[derive(Debug, Clone, PartialEq, Eq)]
pub struct Certificate {
    pub invocation: Invocation,
    pub signature: Vec<u8>,
}

/// What a `Certificate` says.
#[verifier::ext_equal]
pub struct CertificateModel {
    pub invocation: InvocationModel,
    pub signature: Seq<u8>,
}

impl View for Certificate {
    type V = CertificateModel;

    open spec fn view(&self) -> CertificateModel {
        CertificateModel {
            invocation: self.invocation.deep_view(),
            signature: self.signature@,
        }
    }
}

impl DeepView for Certificate {
    type V = CertificateModel;

    open spec fn deep_view(&self) -> CertificateModel {
        self@
    }
}

impl Data for Certificate {
    fn dup(&self) -> (copy: Self) {
        Certificate {
            invocation: self.invocation.dup(),
            signature: bytes_dup(&self.signature),
        }
    }

    fn same(&self, other: &Self) -> (equal: bool) {
        self.invocation.same(&other.invocation)
            && bytes_same(&self.signature, &other.signature)
    }
}

#[derive(Debug, Clone, Copy, PartialEq, Eq, Structural)]
pub enum Role {
    Origin,
    Runner,
    LegacyObserver,
}

impl DeepView for Role {
    type V = Role;

    open spec fn deep_view(&self) -> Role {
        *self
    }
}

impl Data for Role {
    fn dup(&self) -> (copy: Self) {
        *self
    }

    fn same(&self, other: &Self) -> (equal: bool) {
        *self == *other
    }
}

#[derive(Debug, Clone, PartialEq, Eq)]
pub struct OutputRef {
    pub bytes: usize,
    pub sha256: String,
}

/// What a `OutputRef` says.
#[verifier::ext_equal]
pub struct OutputRefModel {
    pub bytes: usize,
    pub sha256: Seq<char>,
}

impl View for OutputRef {
    type V = OutputRefModel;

    open spec fn view(&self) -> OutputRefModel {
        OutputRefModel {
            bytes: self.bytes,
            sha256: self.sha256.deep_view(),
        }
    }
}

impl DeepView for OutputRef {
    type V = OutputRefModel;

    open spec fn deep_view(&self) -> OutputRefModel {
        self@
    }
}

impl Data for OutputRef {
    fn dup(&self) -> (copy: Self) {
        OutputRef {
            bytes: self.bytes,
            sha256: self.sha256.dup(),
        }
    }

    fn same(&self, other: &Self) -> (equal: bool) {
        self.bytes == other.bytes
            && self.sha256.same(&other.sha256)
    }
}

#[derive(Debug, Clone, PartialEq, Eq)]
pub struct Fact {
    pub invocation: String,
    pub role: Role,
    pub revision: u64,
    pub status: JobStatus,
    pub stdout: OutputRef,
    pub stderr: OutputRef,
}

/// What a `Fact` says.
#[verifier::ext_equal]
pub struct FactModel {
    pub invocation: Seq<char>,
    pub role: Role,
    pub revision: u64,
    pub status: JobStatusModel,
    pub stdout: OutputRefModel,
    pub stderr: OutputRefModel,
}

impl View for Fact {
    type V = FactModel;

    open spec fn view(&self) -> FactModel {
        FactModel {
            invocation: self.invocation.deep_view(),
            role: self.role,
            revision: self.revision,
            status: self.status.deep_view(),
            stdout: self.stdout.deep_view(),
            stderr: self.stderr.deep_view(),
        }
    }
}

impl DeepView for Fact {
    type V = FactModel;

    open spec fn deep_view(&self) -> FactModel {
        self@
    }
}

impl Data for Fact {
    fn dup(&self) -> (copy: Self) {
        Fact {
            invocation: self.invocation.dup(),
            role: self.role,
            revision: self.revision,
            status: self.status.dup(),
            stdout: self.stdout.dup(),
            stderr: self.stderr.dup(),
        }
    }

    fn same(&self, other: &Self) -> (equal: bool) {
        self.invocation.same(&other.invocation)
            && self.role == other.role
            && self.revision == other.revision
            && self.status.same(&other.status)
            && self.stdout.same(&other.stdout)
            && self.stderr.same(&other.stderr)
    }
}

#[derive(Debug, Clone, PartialEq, Eq)]
pub struct SignedFact {
    pub fact: Fact,
    pub signature: Vec<u8>,
}

/// What a `SignedFact` says.
#[verifier::ext_equal]
pub struct SignedFactModel {
    pub fact: FactModel,
    pub signature: Seq<u8>,
}

impl View for SignedFact {
    type V = SignedFactModel;

    open spec fn view(&self) -> SignedFactModel {
        SignedFactModel {
            fact: self.fact.deep_view(),
            signature: self.signature@,
        }
    }
}

impl DeepView for SignedFact {
    type V = SignedFactModel;

    open spec fn deep_view(&self) -> SignedFactModel {
        self@
    }
}

impl Data for SignedFact {
    fn dup(&self) -> (copy: Self) {
        SignedFact {
            fact: self.fact.dup(),
            signature: bytes_dup(&self.signature),
        }
    }

    fn same(&self, other: &Self) -> (equal: bool) {
        self.fact.same(&other.fact)
            && bytes_same(&self.signature, &other.signature)
    }
}

#[derive(Debug, Clone, PartialEq, Eq)]
pub struct Record {
    pub certificate: Certificate,
    pub origin: Option<SignedFact>,
    pub runner: Option<SignedFact>,
}

/// What a `Record` says.
#[verifier::ext_equal]
pub struct RecordModel {
    pub certificate: CertificateModel,
    pub origin: Option<SignedFactModel>,
    pub runner: Option<SignedFactModel>,
}

impl View for Record {
    type V = RecordModel;

    open spec fn view(&self) -> RecordModel {
        RecordModel {
            certificate: self.certificate.deep_view(),
            origin: self.origin.deep_view(),
            runner: self.runner.deep_view(),
        }
    }
}

impl DeepView for Record {
    type V = RecordModel;

    open spec fn deep_view(&self) -> RecordModel {
        self@
    }
}

impl Data for Record {
    fn dup(&self) -> (copy: Self) {
        Record {
            certificate: self.certificate.dup(),
            origin: self.origin.dup(),
            runner: self.runner.dup(),
        }
    }

    fn same(&self, other: &Self) -> (equal: bool) {
        self.certificate.same(&other.certificate)
            && self.origin.same(&other.origin)
            && self.runner.same(&other.runner)
    }
}

#[derive(Debug, Clone, PartialEq, Eq)]
pub struct CapturedOutput {
    pub stdout: Vec<u8>,
    pub stderr: Vec<u8>,
}

/// What a `CapturedOutput` says.
#[verifier::ext_equal]
pub struct CapturedOutputModel {
    pub stdout: Seq<u8>,
    pub stderr: Seq<u8>,
}

impl View for CapturedOutput {
    type V = CapturedOutputModel;

    open spec fn view(&self) -> CapturedOutputModel {
        CapturedOutputModel {
            stdout: self.stdout@,
            stderr: self.stderr@,
        }
    }
}

impl DeepView for CapturedOutput {
    type V = CapturedOutputModel;

    open spec fn deep_view(&self) -> CapturedOutputModel {
        self@
    }
}

impl Data for CapturedOutput {
    fn dup(&self) -> (copy: Self) {
        CapturedOutput {
            stdout: bytes_dup(&self.stdout),
            stderr: bytes_dup(&self.stderr),
        }
    }

    fn same(&self, other: &Self) -> (equal: bool) {
        bytes_same(&self.stdout, &other.stdout)
            && bytes_same(&self.stderr, &other.stderr)
    }
}

#[derive(Debug, Clone, PartialEq, Eq)]
pub struct Entry {
    pub record: Record,
    pub change: u64,
    /// Locally admitted jobs already own their output in `Store::jobs`. Only
    /// replicas need another payload. Hashes remain after explicit pruning.
    pub output: Option<CapturedOutput>,
}

/// What a `Entry` says.
#[verifier::ext_equal]
pub struct EntryModel {
    pub record: RecordModel,
    pub change: u64,
    pub output: Option<CapturedOutputModel>,
}

impl View for Entry {
    type V = EntryModel;

    open spec fn view(&self) -> EntryModel {
        EntryModel {
            record: self.record.deep_view(),
            change: self.change,
            output: self.output.deep_view(),
        }
    }
}

impl DeepView for Entry {
    type V = EntryModel;

    open spec fn deep_view(&self) -> EntryModel {
        self@
    }
}

impl Data for Entry {
    fn dup(&self) -> (copy: Self) {
        Entry {
            record: self.record.dup(),
            change: self.change,
            output: self.output.dup(),
        }
    }

    fn same(&self, other: &Self) -> (equal: bool) {
        self.record.same(&other.record)
            && self.change == other.change
            && self.output.same(&other.output)
    }
}

#[derive(Debug, Clone, PartialEq, Eq)]
pub struct Progress {
    pub epoch: String,
    pub cursor: u64,
    pub high: u64,
    pub complete: bool,
    pub unknown_authors: bool,
    pub last_contact: Option<u64>,
    pub error: Option<String>,
}

/// What a `Progress` says.
#[verifier::ext_equal]
pub struct ProgressModel {
    pub epoch: Seq<char>,
    pub cursor: u64,
    pub high: u64,
    pub complete: bool,
    pub unknown_authors: bool,
    pub last_contact: Option<u64>,
    pub error: Option<Seq<char>>,
}

impl View for Progress {
    type V = ProgressModel;

    open spec fn view(&self) -> ProgressModel {
        ProgressModel {
            epoch: self.epoch.deep_view(),
            cursor: self.cursor,
            high: self.high,
            complete: self.complete,
            unknown_authors: self.unknown_authors,
            last_contact: self.last_contact.deep_view(),
            error: self.error.deep_view(),
        }
    }
}

impl DeepView for Progress {
    type V = ProgressModel;

    open spec fn deep_view(&self) -> ProgressModel {
        self@
    }
}

impl Data for Progress {
    fn dup(&self) -> (copy: Self) {
        Progress {
            epoch: self.epoch.dup(),
            cursor: self.cursor,
            high: self.high,
            complete: self.complete,
            unknown_authors: self.unknown_authors,
            last_contact: self.last_contact.dup(),
            error: self.error.dup(),
        }
    }

    fn same(&self, other: &Self) -> (equal: bool) {
        self.epoch.same(&other.epoch)
            && self.cursor == other.cursor
            && self.high == other.high
            && self.complete == other.complete
            && self.unknown_authors == other.unknown_authors
            && self.last_contact.same(&other.last_contact)
            && self.error.same(&other.error)
    }
}

#[derive(Debug, Clone, PartialEq, Eq)]
pub struct History {
    pub initialized: bool,
    pub epoch: String,
    pub clock: u64,
    pub trust: String,
    pub entries: Table<Entry>,
    pub peers: Table<Progress>,
}

/// What a `History` says.
#[verifier::ext_equal]
pub struct HistoryModel {
    pub initialized: bool,
    pub epoch: Seq<char>,
    pub clock: u64,
    pub trust: Seq<char>,
    pub entries: Seq<(Seq<char>, EntryModel)>,
    pub peers: Seq<(Seq<char>, ProgressModel)>,
}

impl View for History {
    type V = HistoryModel;

    open spec fn view(&self) -> HistoryModel {
        HistoryModel {
            initialized: self.initialized,
            epoch: self.epoch.deep_view(),
            clock: self.clock,
            trust: self.trust.deep_view(),
            entries: self.entries.deep_view(),
            peers: self.peers.deep_view(),
        }
    }
}

impl DeepView for History {
    type V = HistoryModel;

    open spec fn deep_view(&self) -> HistoryModel {
        self@
    }
}

impl Data for History {
    fn dup(&self) -> (copy: Self) {
        History {
            initialized: self.initialized,
            epoch: self.epoch.dup(),
            clock: self.clock,
            trust: self.trust.dup(),
            entries: self.entries.dup(),
            peers: self.peers.dup(),
        }
    }

    fn same(&self, other: &Self) -> (equal: bool) {
        self.initialized == other.initialized
            && self.epoch.same(&other.epoch)
            && self.clock == other.clock
            && self.trust.same(&other.trust)
            && self.entries.same(&other.entries)
            && self.peers.same(&other.peers)
    }
}

#[derive(Debug, Clone, PartialEq, Eq)]
pub struct Published {
    pub record: Record,
    pub output: Option<CapturedOutput>,
    pub change: u64,
}

/// What a `Published` says.
#[verifier::ext_equal]
pub struct PublishedModel {
    pub record: RecordModel,
    pub output: Option<CapturedOutputModel>,
    pub change: u64,
}

impl View for Published {
    type V = PublishedModel;

    open spec fn view(&self) -> PublishedModel {
        PublishedModel {
            record: self.record.deep_view(),
            output: self.output.deep_view(),
            change: self.change,
        }
    }
}

impl DeepView for Published {
    type V = PublishedModel;

    open spec fn deep_view(&self) -> PublishedModel {
        self@
    }
}

impl Data for Published {
    fn dup(&self) -> (copy: Self) {
        Published {
            record: self.record.dup(),
            output: self.output.dup(),
            change: self.change,
        }
    }

    fn same(&self, other: &Self) -> (equal: bool) {
        self.record.same(&other.record)
            && self.output.same(&other.output)
            && self.change == other.change
    }
}

#[derive(Debug, Clone, PartialEq, Eq)]
pub struct Page {
    pub epoch: String,
    pub reset: bool,
    pub high: u64,
    pub next: u64,
    pub complete: bool,
    pub entries: Vec<Published>,
}

/// What a `Page` says.
#[verifier::ext_equal]
pub struct PageModel {
    pub epoch: Seq<char>,
    pub reset: bool,
    pub high: u64,
    pub next: u64,
    pub complete: bool,
    pub entries: Seq<PublishedModel>,
}

impl View for Page {
    type V = PageModel;

    open spec fn view(&self) -> PageModel {
        PageModel {
            epoch: self.epoch.deep_view(),
            reset: self.reset,
            high: self.high,
            next: self.next,
            complete: self.complete,
            entries: self.entries.deep_view(),
        }
    }
}

impl DeepView for Page {
    type V = PageModel;

    open spec fn deep_view(&self) -> PageModel {
        self@
    }
}

impl Data for Page {
    fn dup(&self) -> (copy: Self) {
        Page {
            epoch: self.epoch.dup(),
            reset: self.reset,
            high: self.high,
            next: self.next,
            complete: self.complete,
            entries: self.entries.dup(),
        }
    }

    fn same(&self, other: &Self) -> (equal: bool) {
        self.epoch.same(&other.epoch)
            && self.reset == other.reset
            && self.high == other.high
            && self.next == other.next
            && self.complete == other.complete
            && self.entries.same(&other.entries)
    }
}

#[derive(Debug, Clone, PartialEq, Eq)]
pub struct Observation {
    pub invocation: String,
    pub role: Role,
    pub legacy_observer: Option<BodyId>,
    pub status: JobStatus,
}

/// What a `Observation` says.
#[verifier::ext_equal]
pub struct ObservationModel {
    pub invocation: Seq<char>,
    pub role: Role,
    pub legacy_observer: Option<Seq<char>>,
    pub status: JobStatusModel,
}

impl View for Observation {
    type V = ObservationModel;

    open spec fn view(&self) -> ObservationModel {
        ObservationModel {
            invocation: self.invocation.deep_view(),
            role: self.role,
            legacy_observer: self.legacy_observer.deep_view(),
            status: self.status.deep_view(),
        }
    }
}

impl DeepView for Observation {
    type V = ObservationModel;

    open spec fn deep_view(&self) -> ObservationModel {
        self@
    }
}

impl Data for Observation {
    fn dup(&self) -> (copy: Self) {
        Observation {
            invocation: self.invocation.dup(),
            role: self.role,
            legacy_observer: self.legacy_observer.dup(),
            status: self.status.dup(),
        }
    }

    fn same(&self, other: &Self) -> (equal: bool) {
        self.invocation.same(&other.invocation)
            && self.role == other.role
            && self.legacy_observer.same(&other.legacy_observer)
            && self.status.same(&other.status)
    }
}

/// What this machine shows of one job.
#[derive(Debug, Clone, PartialEq, Eq)]
pub struct JobView {
    pub job: Job,
    pub invocation: Option<String>,
    pub retry_of: Option<String>,
    pub provenance: String,
    pub output_available: bool,
    pub stdout: OutputRef,
    pub stderr: OutputRef,
    pub observations: Vec<Observation>,
    /// This process's unsaved diagnostic, distinct from signed durable facts.
    pub local_warning: Option<String>,
}

/// What a `JobView` says.
#[verifier::ext_equal]
pub struct JobViewModel {
    pub job: JobModel,
    pub invocation: Option<Seq<char>>,
    pub retry_of: Option<Seq<char>>,
    pub provenance: Seq<char>,
    pub output_available: bool,
    pub stdout: OutputRefModel,
    pub stderr: OutputRefModel,
    pub observations: Seq<ObservationModel>,
    pub local_warning: Option<Seq<char>>,
}

impl View for JobView {
    type V = JobViewModel;

    open spec fn view(&self) -> JobViewModel {
        JobViewModel {
            job: self.job.deep_view(),
            invocation: self.invocation.deep_view(),
            retry_of: self.retry_of.deep_view(),
            provenance: self.provenance.deep_view(),
            output_available: self.output_available,
            stdout: self.stdout.deep_view(),
            stderr: self.stderr.deep_view(),
            observations: self.observations.deep_view(),
            local_warning: self.local_warning.deep_view(),
        }
    }
}

impl DeepView for JobView {
    type V = JobViewModel;

    open spec fn deep_view(&self) -> JobViewModel {
        self@
    }
}

impl Data for JobView {
    fn dup(&self) -> (copy: Self) {
        JobView {
            job: self.job.dup(),
            invocation: self.invocation.dup(),
            retry_of: self.retry_of.dup(),
            provenance: self.provenance.dup(),
            output_available: self.output_available,
            stdout: self.stdout.dup(),
            stderr: self.stderr.dup(),
            observations: self.observations.dup(),
            local_warning: self.local_warning.dup(),
        }
    }

    fn same(&self, other: &Self) -> (equal: bool) {
        self.job.same(&other.job)
            && self.invocation.same(&other.invocation)
            && self.retry_of.same(&other.retry_of)
            && self.provenance.same(&other.provenance)
            && self.output_available == other.output_available
            && self.stdout.same(&other.stdout)
            && self.stderr.same(&other.stderr)
            && self.observations.same(&other.observations)
            && self.local_warning.same(&other.local_warning)
    }
}

} // verus!
