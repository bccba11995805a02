//! What the shared directory and its recovery store hold.

use vstd::prelude::*;

use crate::data::{bytes_dup, Data};
use crate::store::{Fingerprint, FingerprintModel};
use crate::table::Table;
use crate::text::bytes_same;

verus! {

/// One file to bring from one machine to the other.
#[derive(Debug, Clone, PartialEq, Eq)]
pub struct Change {
    pub path: String,
    /// The version that the change replaces.
    pub expected: Option<Fingerprint>,
    /// The version that the change brings.
    pub new: Option<Fingerprint>,
    pub to_remote: bool,
}

/// What a `Change` says.
#[verifier::ext_equal]
pub struct ChangeModel {
    pub path: Seq<char>,
    pub expected: Option<FingerprintModel>,
    pub new: Option<FingerprintModel>,
    pub to_remote: bool,
}

impl View for Change {
    type V = ChangeModel;

    open spec fn view(&self) -> ChangeModel {
        ChangeModel {
            path: self.path.deep_view(),
            expected: self.expected.deep_view(),
            new: self.new.deep_view(),
            to_remote: self.to_remote,
        }
    }
}

impl DeepView for Change {
    type V = ChangeModel;

    open spec fn deep_view(&self) -> ChangeModel {
        self@
    }
}

impl Data for Change {
    fn dup(&self) -> (copy: Self) {
        Change {
            path: self.path.dup(),
            expected: self.expected.dup(),
            new: self.new.dup(),
            to_remote: self.to_remote,
        }
    }

    fn same(&self, other: &Self) -> (equal: bool) {
        self.path.same(&other.path)
            && self.expected.same(&other.expected)
            && self.new.same(&other.new)
            && self.to_remote == other.to_remote
    }
}

/// A peer's files, and those at the last synchronization.
#[derive(Debug, Clone, PartialEq, Eq)]
pub struct Listing {
    pub files: Table<Fingerprint>,
    pub baseline: Table<Fingerprint>,
}

/// What a `Listing` says.
#[verifier::ext_equal]
pub struct ListingModel {
    pub files: Seq<(Seq<char>, FingerprintModel)>,
    pub baseline: Seq<(Seq<char>, FingerprintModel)>,
}

impl View for Listing {
    type V = ListingModel;

    open spec fn view(&self) -> ListingModel {
        ListingModel {
            files: self.files.deep_view(),
            baseline: self.baseline.deep_view(),
        }
    }
}

impl DeepView for Listing {
    type V = ListingModel;

    open spec fn deep_view(&self) -> ListingModel {
        self@
    }
}

impl Data for Listing {
    fn dup(&self) -> (copy: Self) {
        Listing {
            files: self.files.dup(),
            baseline: self.baseline.dup(),
        }
    }

    fn same(&self, other: &Self) -> (equal: bool) {
        self.files.same(&other.files)
            && self.baseline.same(&other.baseline)
    }
}

/// How far a publication and its review have come.
#[derive(Debug, Clone, Copy, PartialEq, Eq, Structural)]
pub enum RecoveryState {
    Pending,
    Retained,
    Resolved,
    Discarding,
}

impl DeepView for RecoveryState {
    type V = RecoveryState;

    open spec fn deep_view(&self) -> RecoveryState {
        *self
    }
}

impl Data for RecoveryState {
    fn dup(&self) -> (copy: Self) {
        *self
    }

    fn same(&self, other: &Self) -> (equal: bool) {
        *self == *other
    }
}

/// The journal of one publication.
#[derive(Debug, Clone, PartialEq, Eq)]
pub struct RecoveryReceipt {
    pub path: String,
    pub expected: Option<Fingerprint>,
    pub replacement: Option<Fingerprint>,
    pub version: String,
    pub state: RecoveryState,
    pub source_receipt: Option<String>,
    pub discard_token: Option<String>,
}

/// What a `RecoveryReceipt` says.
#[verifier::ext_equal]
pub struct RecoveryReceiptModel {
    pub path: Seq<char>,
    pub expected: Option<FingerprintModel>,
    pub replacement: Option<FingerprintModel>,
    pub version: Seq<char>,
    pub state: RecoveryState,
    pub source_receipt: Option<Seq<char>>,
    pub discard_token: Option<Seq<char>>,
}

impl View for RecoveryReceipt {
    type V = RecoveryReceiptModel;

    open spec fn view(&self) -> RecoveryReceiptModel {
        RecoveryReceiptModel {
            path: self.path.deep_view(),
            expected: self.expected.deep_view(),
            replacement: self.replacement.deep_view(),
            version: self.version.deep_view(),
            state: self.state,
            source_receipt: self.source_receipt.deep_view(),
            discard_token: self.discard_token.deep_view(),
        }
    }
}

impl DeepView for RecoveryReceipt {
    type V = RecoveryReceiptModel;

    open spec fn deep_view(&self) -> RecoveryReceiptModel {
        self@
    }
}

impl Data for RecoveryReceipt {
    fn dup(&self) -> (copy: Self) {
        RecoveryReceipt {
            path: self.path.dup(),
            expected: self.expected.dup(),
            replacement: self.replacement.dup(),
            version: self.version.dup(),
            state: self.state,
            source_receipt: self.source_receipt.dup(),
            discard_token: self.discard_token.dup(),
        }
    }

    fn same(&self, other: &Self) -> (equal: bool) {
        self.path.same(&other.path)
            && self.expected.same(&other.expected)
            && self.replacement.same(&other.replacement)
            && self.version.same(&other.version)
            && self.state == other.state
            && self.source_receipt.same(&other.source_receipt)
            && self.discard_token.same(&other.discard_token)
    }
}

/// One file as it was seen.
#[derive(Debug, Clone, PartialEq, Eq)]
pub struct RecoveryVersion {
    pub fingerprint: Fingerprint,
    pub bytes: u64,
    pub device: u64,
    pub inode: u64,
    pub modified_seconds: i64,
    pub modified_nanoseconds: i64,
    pub changed_seconds: i64,
    pub changed_nanoseconds: i64,
}

/// What a `RecoveryVersion` says.
#[verifier::ext_equal]
pub struct RecoveryVersionModel {
    pub fingerprint: FingerprintModel,
    pub bytes: u64,
    pub device: u64,
    pub inode: u64,
    pub modified_seconds: i64,
    pub modified_nanoseconds: i64,
    pub changed_seconds: i64,
    pub changed_nanoseconds: i64,
}

impl View for RecoveryVersion {
    type V = RecoveryVersionModel;

    open spec fn view(&self) -> RecoveryVersionModel {
        RecoveryVersionModel {
            fingerprint: self.fingerprint.deep_view(),
            bytes: self.bytes,
            device: self.device,
            inode: self.inode,
            modified_seconds: self.modified_seconds,
            modified_nanoseconds: self.modified_nanoseconds,
            changed_seconds: self.changed_seconds,
            changed_nanoseconds: self.changed_nanoseconds,
        }
    }
}

impl DeepView for RecoveryVersion {
    type V = RecoveryVersionModel;

    open spec fn deep_view(&self) -> RecoveryVersionModel {
        self@
    }
}

impl Data for RecoveryVersion {
    fn dup(&self) -> (copy: Self) {
        RecoveryVersion {
            fingerprint: self.fingerprint.dup(),
            bytes: self.bytes,
            device: self.device,
            inode: self.inode,
            modified_seconds: self.modified_seconds,
            modified_nanoseconds: self.modified_nanoseconds,
            changed_seconds: self.changed_seconds,
            changed_nanoseconds: self.changed_nanoseconds,
        }
    }

    fn same(&self, other: &Self) -> (equal: bool) {
        self.fingerprint.same(&other.fingerprint)
            && self.bytes == other.bytes
            && self.device == other.device
            && self.inode == other.inode
            && self.modified_seconds == other.modified_seconds
            && self.modified_nanoseconds == other.modified_nanoseconds
            && self.changed_seconds == other.changed_seconds
            && self.changed_nanoseconds == other.changed_nanoseconds
    }
}

/// What the file system says of a file.
#[derive(Debug, Clone, PartialEq, Eq)]
pub struct FileMeta {
    pub regular: bool,
    pub device: u64,
    pub inode: u64,
    pub bytes: u64,
    pub mode: u32,
    pub modified_seconds: i64,
    pub modified_nanoseconds: i64,
    pub changed_seconds: i64,
    pub changed_nanoseconds: i64,
}

/// What a `FileMeta` says.
#[verifier::ext_equal]
pub struct FileMetaModel {
    pub regular: bool,
    pub device: u64,
    pub inode: u64,
    pub bytes: u64,
    pub mode: u32,
    pub modified_seconds: i64,
    pub modified_nanoseconds: i64,
    pub changed_seconds: i64,
    pub changed_nanoseconds: i64,
}

impl View for FileMeta {
    type V = FileMetaModel;

    open spec fn view(&self) -> FileMetaModel {
        FileMetaModel {
            regular: self.regular,
            device: self.device,
            inode: self.inode,
            bytes: self.bytes,
            mode: self.mode,
            modified_seconds: self.modified_seconds,
            modified_nanoseconds: self.modified_nanoseconds,
            changed_seconds: self.changed_seconds,
            changed_nanoseconds: self.changed_nanoseconds,
        }
    }
}

impl DeepView for FileMeta {
    type V = FileMetaModel;

    open spec fn deep_view(&self) -> FileMetaModel {
        self@
    }
}

impl Data for FileMeta {
    fn dup(&self) -> (copy: Self) {
        FileMeta {
            regular: self.regular,
            device: self.device,
            inode: self.inode,
            bytes: self.bytes,
            mode: self.mode,
            modified_seconds: self.modified_seconds,
            modified_nanoseconds: self.modified_nanoseconds,
            changed_seconds: self.changed_seconds,
            changed_nanoseconds: self.changed_nanoseconds,
        }
    }

    fn same(&self, other: &Self) -> (equal: bool) {
        self.regular == other.regular
            && self.device == other.device
            && self.inode == other.inode
            && self.bytes == other.bytes
            && self.mode == other.mode
            && self.modified_seconds == other.modified_seconds
            && self.modified_nanoseconds == other.modified_nanoseconds
            && self.changed_seconds == other.changed_seconds
            && self.changed_nanoseconds == other.changed_nanoseconds
    }
}

/// A receipt and the versions it speaks of, as they stand.
#[derive(Debug, Clone, PartialEq, Eq)]
pub struct RecoveryInspection {
    pub id: String,
    pub recorded: bool,
    pub receipt: RecoveryReceipt,
    pub live: Option<RecoveryVersion>,
    pub retained: Option<RecoveryVersion>,
    pub token: String,
    /// Pending publication is never assumed to have completed from the receipt alone.
    pub explanation: String,
}

/// What a `RecoveryInspection` says.
#[verifier::ext_equal]
pub struct RecoveryInspectionModel {
    pub id: Seq<char>,
    pub recorded: bool,
    pub receipt: RecoveryReceiptModel,
    pub live: Option<RecoveryVersionModel>,
    pub retained: Option<RecoveryVersionModel>,
    pub token: Seq<char>,
    pub explanation: Seq<char>,
}

impl View for RecoveryInspection {
    type V = RecoveryInspectionModel;

    open spec fn view(&self) -> RecoveryInspectionModel {
        RecoveryInspectionModel {
            id: self.id.deep_view(),
            recorded: self.recorded,
            receipt: self.receipt.deep_view(),
            live: self.live.deep_view(),
            retained: self.retained.deep_view(),
            token: self.token.deep_view(),
            explanation: self.explanation.deep_view(),
        }
    }
}

impl DeepView for RecoveryInspection {
    type V = RecoveryInspectionModel;

    open spec fn deep_view(&self) -> RecoveryInspectionModel {
        self@
    }
}

impl Data for RecoveryInspection {
    fn dup(&self) -> (copy: Self) {
        RecoveryInspection {
            id: self.id.dup(),
            recorded: self.recorded,
            receipt: self.receipt.dup(),
            live: self.live.dup(),
            retained: self.retained.dup(),
            token: self.token.dup(),
            explanation: self.explanation.dup(),
        }
    }

    fn same(&self, other: &Self) -> (equal: bool) {
        self.id.same(&other.id)
            && self.recorded == other.recorded
            && self.receipt.same(&other.receipt)
            && self.live.same(&other.live)
            && self.retained.same(&other.retained)
            && self.token.same(&other.token)
            && self.explanation.same(&other.explanation)
    }
}

/// One row of a recovery listing.
#[derive(Debug, Clone, PartialEq, Eq)]
pub struct RecoveryEntry {
    pub id: String,
    pub path: Option<String>,
    pub state: String,
    pub problem: Option<String>,
}

/// What a `RecoveryEntry` says.
#[verifier::ext_equal]
pub struct RecoveryEntryModel {
    pub id: Seq<char>,
    pub path: Option<Seq<char>>,
    pub state: Seq<char>,
    pub problem: Option<Seq<char>>,
}

impl View for RecoveryEntry {
    type V = RecoveryEntryModel;

    open spec fn view(&self) -> RecoveryEntryModel {
        RecoveryEntryModel {
            id: self.id.deep_view(),
            path: self.path.deep_view(),
            state: self.state.deep_view(),
            problem: self.problem.deep_view(),
        }
    }
}

impl DeepView for RecoveryEntry {
    type V = RecoveryEntryModel;

    open spec fn deep_view(&self) -> RecoveryEntryModel {
        self@
    }
}

impl Data for RecoveryEntry {
    fn dup(&self) -> (copy: Self) {
        RecoveryEntry {
            id: self.id.dup(),
            path: self.path.dup(),
            state: self.state.dup(),
            problem: self.problem.dup(),
        }
    }

    fn same(&self, other: &Self) -> (equal: bool) {
        self.id.same(&other.id)
            && self.path.same(&other.path)
            && self.state.same(&other.state)
            && self.problem.same(&other.problem)
    }
}

/// How much the recovery store holds.
#[derive(Debug, Clone, PartialEq, Eq)]
pub struct RecoveryUsage {
    pub bytes: u64,
    pub entries: u64,
    pub limit_bytes: u64,
    pub limit_entries: u64,
    pub admission_blocked: bool,
}

/// What a `RecoveryUsage` says.
#[verifier::ext_equal]
pub struct RecoveryUsageModel {
    pub bytes: u64,
    pub entries: u64,
    pub limit_bytes: u64,
    pub limit_entries: u64,
    pub admission_blocked: bool,
}

impl View for RecoveryUsage {
    type V = RecoveryUsageModel;

    open spec fn view(&self) -> RecoveryUsageModel {
        RecoveryUsageModel {
            bytes: self.bytes,
            entries: self.entries,
            limit_bytes: self.limit_bytes,
            limit_entries: self.limit_entries,
            admission_blocked: self.admission_blocked,
        }
    }
}

impl DeepView for RecoveryUsage {
    type V = RecoveryUsageModel;

    open spec fn deep_view(&self) -> RecoveryUsageModel {
        self@
    }
}

impl Data for RecoveryUsage {
    fn dup(&self) -> (copy: Self) {
        RecoveryUsage {
            bytes: self.bytes,
            entries: self.entries,
            limit_bytes: self.limit_bytes,
            limit_entries: self.limit_entries,
            admission_blocked: self.admission_blocked,
        }
    }

    fn same(&self, other: &Self) -> (equal: bool) {
        self.bytes == other.bytes
            && self.entries == other.entries
            && self.limit_bytes == other.limit_bytes
            && self.limit_entries == other.limit_entries
            && self.admission_blocked == other.admission_blocked
    }
}

/// A page of the recovery store.
#[derive(Debug, Clone, PartialEq, Eq)]
pub struct RecoveryList {
    pub body: String,
    pub usage: RecoveryUsage,
    pub blocked: bool,
    pub entries: Vec<RecoveryEntry>,
    pub next_cursor: Option<String>,
}

/// What a `RecoveryList` says.
#[verifier::ext_equal]
pub struct RecoveryListModel {
    pub body: Seq<char>,
    pub usage: RecoveryUsageModel,
    pub blocked: bool,
    pub entries: Seq<RecoveryEntryModel>,
    pub next_cursor: Option<Seq<char>>,
}

impl View for RecoveryList {
    type V = RecoveryListModel;

    open spec fn view(&self) -> RecoveryListModel {
        RecoveryListModel {
            body: self.body.deep_view(),
            usage: self.usage.deep_view(),
            blocked: self.blocked,
            entries: self.entries.deep_view(),
            next_cursor: self.next_cursor.deep_view(),
        }
    }
}

impl DeepView for RecoveryList {
    type V = RecoveryListModel;

    open spec fn deep_view(&self) -> RecoveryListModel {
        self@
    }
}

impl Data for RecoveryList {
    fn dup(&self) -> (copy: Self) {
        RecoveryList {
            body: self.body.dup(),
            usage: self.usage.dup(),
            blocked: self.blocked,
            entries: self.entries.dup(),
            next_cursor: self.next_cursor.dup(),
        }
    }

    fn same(&self, other: &Self) -> (equal: bool) {
        self.body.same(&other.body)
            && self.usage.same(&other.usage)
            && self.blocked == other.blocked
            && self.entries.same(&other.entries)
            && self.next_cursor.same(&other.next_cursor)
    }
}

/// Which version the owner keeps.
#[derive(Debug, Clone, Copy, PartialEq, Eq, Structural)]
pub enum RecoveryChoice {
    KeepLive,
    RestoreRetained,
}

impl DeepView for RecoveryChoice {
    type V = RecoveryChoice;

    open spec fn deep_view(&self) -> RecoveryChoice {
        *self
    }
}

impl Data for RecoveryChoice {
    fn dup(&self) -> (copy: Self) {
        *self
    }

    fn same(&self, other: &Self) -> (equal: bool) {
        *self == *other
    }
}

/// Which version the owner reads.
#[derive(Debug, Clone, Copy, PartialEq, Eq, Structural)]
pub enum RecoveryRead {
    Receipt,
    Live,
    Retained,
}

impl DeepView for RecoveryRead {
    type V = RecoveryRead;

    open spec fn deep_view(&self) -> RecoveryRead {
        *self
    }
}

impl Data for RecoveryRead {
    fn dup(&self) -> (copy: Self) {
        *self
    }

    fn same(&self, other: &Self) -> (equal: bool) {
        *self == *other
    }
}

/// A path that both machines changed.
#[derive(Debug, Clone, PartialEq, Eq)]
pub struct PinConflictSnapshot {
    pub peer: String,
    pub peer_key: String,
    pub path: String,
    pub local: Option<Fingerprint>,
    pub remote: Option<Fingerprint>,
    pub local_baseline: Option<Fingerprint>,
    pub remote_baseline: Option<Fingerprint>,
    pub token: String,
}

/// What a `PinConflictSnapshot` says.
#[verifier::ext_equal]
pub struct PinConflictSnapshotModel {
    pub peer: Seq<char>,
    pub peer_key: Seq<char>,
    pub path: Seq<char>,
    pub local: Option<FingerprintModel>,
    pub remote: Option<FingerprintModel>,
    pub local_baseline: Option<FingerprintModel>,
    pub remote_baseline: Option<FingerprintModel>,
    pub token: Seq<char>,
}

impl View for PinConflictSnapshot {
    type V = PinConflictSnapshotModel;

    open spec fn view(&self) -> PinConflictSnapshotModel {
        PinConflictSnapshotModel {
            peer: self.peer.deep_view(),
            peer_key: self.peer_key.deep_view(),
            path: self.path.deep_view(),
            local: self.local.deep_view(),
            remote: self.remote.deep_view(),
            local_baseline: self.local_baseline.deep_view(),
            remote_baseline: self.remote_baseline.deep_view(),
            token: self.token.deep_view(),
        }
    }
}

impl DeepView for PinConflictSnapshot {
    type V = PinConflictSnapshotModel;

    open spec fn deep_view(&self) -> PinConflictSnapshotModel {
        self@
    }
}

impl Data for PinConflictSnapshot {
    fn dup(&self) -> (copy: Self) {
        PinConflictSnapshot {
            peer: self.peer.dup(),
            peer_key: self.peer_key.dup(),
            path: self.path.dup(),
            local: self.local.dup(),
            remote: self.remote.dup(),
            local_baseline: self.local_baseline.dup(),
            remote_baseline: self.remote_baseline.dup(),
            token: self.token.dup(),
        }
    }

    fn same(&self, other: &Self) -> (equal: bool) {
        self.peer.same(&other.peer)
            && self.peer_key.same(&other.peer_key)
            && self.path.same(&other.path)
            && self.local.same(&other.local)
            && self.remote.same(&other.remote)
            && self.local_baseline.same(&other.local_baseline)
            && self.remote_baseline.same(&other.remote_baseline)
            && self.token.same(&other.token)
    }
}

/// The conflicts with one peer.
#[derive(Debug, Clone, PartialEq, Eq)]
pub struct PinConflictReport {
    pub peer: String,
    pub baseline_mismatch: bool,
    pub conflicts: Vec<PinConflictSnapshot>,
}

/// What a `PinConflictReport` says.
#[verifier::ext_equal]
pub struct PinConflictReportModel {
    pub peer: Seq<char>,
    pub baseline_mismatch: bool,
    pub conflicts: Seq<PinConflictSnapshotModel>,
}

impl View for PinConflictReport {
    type V = PinConflictReportModel;

    open spec fn view(&self) -> PinConflictReportModel {
        PinConflictReportModel {
            peer: self.peer.deep_view(),
            baseline_mismatch: self.baseline_mismatch,
            conflicts: self.conflicts.deep_view(),
        }
    }
}

impl DeepView for PinConflictReport {
    type V = PinConflictReportModel;

    open spec fn deep_view(&self) -> PinConflictReportModel {
        self@
    }
}

impl Data for PinConflictReport {
    fn dup(&self) -> (copy: Self) {
        PinConflictReport {
            peer: self.peer.dup(),
            baseline_mismatch: self.baseline_mismatch,
            conflicts: self.conflicts.dup(),
        }
    }

    fn same(&self, other: &Self) -> (equal: bool) {
        self.peer.same(&other.peer)
            && self.baseline_mismatch == other.baseline_mismatch
            && self.conflicts.same(&other.conflicts)
    }
}

/// How a synchronization went.
#[derive(Debug, Clone, PartialEq, Eq)]
pub struct PinSyncStatus {
    pub peer: String,
    pub synced: bool,
    pub error: Option<String>,
}

/// What a `PinSyncStatus` says.
#[verifier::ext_equal]
pub struct PinSyncStatusModel {
    pub peer: Seq<char>,
    pub synced: bool,
    pub error: Option<Seq<char>>,
}

impl View for PinSyncStatus {
    type V = PinSyncStatusModel;

    open spec fn view(&self) -> PinSyncStatusModel {
        PinSyncStatusModel {
            peer: self.peer.deep_view(),
            synced: self.synced,
            error: self.error.deep_view(),
        }
    }
}

impl DeepView for PinSyncStatus {
    type V = PinSyncStatusModel;

    open spec fn deep_view(&self) -> PinSyncStatusModel {
        self@
    }
}

impl Data for PinSyncStatus {
    fn dup(&self) -> (copy: Self) {
        PinSyncStatus {
            peer: self.peer.dup(),
            synced: self.synced,
            error: self.error.dup(),
        }
    }

    fn same(&self, other: &Self) -> (equal: bool) {
        self.peer.same(&other.peer)
            && self.synced == other.synced
            && self.error.same(&other.error)
    }
}

/// A piece of an exported version.
#[derive(Debug, Clone, PartialEq, Eq)]
pub struct RecoveryChunk {
    pub offset: u64,
    pub total_bytes: u64,
    pub bytes: Vec<u8>,
    /// True only after the complete stream's hash and version checks pass.
    pub eof: bool,
}

/// What a `RecoveryChunk` says.
#[verifier::ext_equal]
pub struct RecoveryChunkModel {
    pub offset: u64,
    pub total_bytes: u64,
    pub bytes: Seq<u8>,
    pub eof: bool,
}

impl View for RecoveryChunk {
    type V = RecoveryChunkModel;

    open spec fn view(&self) -> RecoveryChunkModel {
        RecoveryChunkModel {
            offset: self.offset,
            total_bytes: self.total_bytes,
            bytes: self.bytes@,
            eof: self.eof,
        }
    }
}

impl DeepView for RecoveryChunk {
    type V = RecoveryChunkModel;

    open spec fn deep_view(&self) -> RecoveryChunkModel {
        self@
    }
}

impl Data for RecoveryChunk {
    fn dup(&self) -> (copy: Self) {
        RecoveryChunk {
            offset: self.offset,
            total_bytes: self.total_bytes,
            bytes: bytes_dup(&self.bytes),
            eof: self.eof,
        }
    }

    fn same(&self, other: &Self) -> (equal: bool) {
        self.offset == other.offset
            && self.total_bytes == other.total_bytes
            && bytes_same(&self.bytes, &other.bytes)
            && self.eof == other.eof
    }
}

/// Read-only owner snapshot. Capturing it requires only a short look at the store;
/// it carries no mutation authority.
#[derive(Debug, Clone, PartialEq, Eq)]
pub struct RecoveryContext {
    pub root: String,
    pub body: String,
}

/// What a `RecoveryContext` says.
#[verifier::ext_equal]
pub struct RecoveryContextModel {
    pub root: Seq<char>,
    pub body: Seq<char>,
}

impl View for RecoveryContext {
    type V = RecoveryContextModel;

    open spec fn view(&self) -> RecoveryContextModel {
        RecoveryContextModel {
            root: self.root.deep_view(),
            body: self.body.deep_view(),
        }
    }
}

impl DeepView for RecoveryContext {
    type V = RecoveryContextModel;

    open spec fn deep_view(&self) -> RecoveryContextModel {
        self@
    }
}

impl Data for RecoveryContext {
    fn dup(&self) -> (copy: Self) {
        RecoveryContext {
            root: self.root.dup(),
            body: self.body.dup(),
        }
    }

    fn same(&self, other: &Self) -> (equal: bool) {
        self.root.same(&other.root)
            && self.body.same(&other.body)
    }
}

} // verus!
