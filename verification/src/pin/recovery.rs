//! The recovery store: what it may hold, and whether it stands in the way.

use vstd::prelude::*;

use crate::crypto;
use crate::crypto::Hasher;
use crate::data::Data;
use crate::error;
use crate::error::{protocol, usage, ClixError, ErrorModel, Outcome, Result};
use crate::order;
use crate::pin::content;
use crate::pin::content::MAX_FILE;
use crate::pin::path;
use crate::pin::path::{valid_path, valid_recovery_name, excluded};
use crate::pin::plan;
use crate::pin::plan::{changed, MAX_PIN_ENTRIES};
use crate::pin::record::{
    FileMeta, FileMetaModel, RecoveryReceipt, RecoveryReceiptModel, RecoveryState, RecoveryUsage,
    RecoveryUsageModel, RecoveryVersion, RecoveryVersionModel,
};
use crate::scan;
use crate::scan::before_suffix;
use crate::store::{Fingerprint, FingerprintModel};
use crate::table;
use crate::table::Table;
use crate::text;
use crate::text::{cat2, cat3, cat4, cat5, decimal_text, owned, split, text_same};

verus! {

/// The largest receipt that is read.
pub const MAX_RECEIPT: u64 = 64 * 1024;

pub const MAX_RECOVERY_BYTES: u64 = 256 * 1024 * 1024;

pub const MAX_RECOVERY_ENTRIES: u64 = 4096;

/// Room that is kept for the recovery records themselves.
pub const RECOVERY_RESERVE: u64 = 1024 * 1024;

pub open spec fn capped(n: int) -> u64 {
    if n > u64::MAX {
        u64::MAX
    } else {
        n as u64
    }
}

fn plus(a: u64, b: u64) -> (sum: u64)
    ensures
        sum == capped(a + b),
{
    if a > u64::MAX - b {
        u64::MAX
    } else {
        a + b
    }
}

pub open spec fn usage_for(bytes: u64, entries: u64) -> RecoveryUsageModel {
    RecoveryUsageModel {
        bytes,
        entries,
        limit_bytes: MAX_RECOVERY_BYTES,
        limit_entries: MAX_RECOVERY_ENTRIES,
        admission_blocked: bytes + RECOVERY_RESERVE >= MAX_RECOVERY_BYTES || entries + 8
            >= MAX_RECOVERY_ENTRIES,
    }
}

pub fn usage_from_totals(bytes: u64, entries: u64) -> (report: RecoveryUsage)
    ensures
        report@ == usage_for(bytes, entries),
{
    RecoveryUsage {
        bytes,
        entries,
        limit_bytes: MAX_RECOVERY_BYTES,
        limit_entries: MAX_RECOVERY_ENTRIES,
        admission_blocked: plus(bytes, RECOVERY_RESERVE) >= MAX_RECOVERY_BYTES || plus(entries, 8)
            >= MAX_RECOVERY_ENTRIES,
    }
}

/// Sizes added up; a size below zero counts as none.
pub open spec fn total_size(sizes: Seq<i64>) -> nat
    decreases sizes.len(),
{
    if sizes.len() == 0 {
        0
    } else {
        total_size(sizes.drop_last()) + if sizes.last() > 0 {
            sizes.last() as nat
        } else {
            0
        }
    }
}

pub open spec fn usage_of(sizes: Seq<i64>) -> RecoveryUsageModel {
    usage_for(capped(total_size(sizes) as int), capped(sizes.len() as int))
}

/// How much the files of a recovery store take, from their sizes.
pub fn recovery_usage(sizes: &Vec<i64>) -> (report: RecoveryUsage)
    ensures
        report@ == usage_of(sizes@),
{
    let mut bytes: u64 = 0;
    let mut i: usize = 0;
    assert(sizes@.take(0) =~= Seq::<i64>::empty());
    while i < sizes.len()
        invariant
            i <= sizes.len(),
            bytes == capped(total_size(sizes@.take(i as int)) as int),
        decreases sizes.len() - i,
    {
        assert(sizes@.take(i + 1).drop_last() =~= sizes@.take(i as int));
        assert(sizes@.take(i + 1).last() == sizes@[i as int]);
        let size: u64 = if sizes[i] > 0 {
            sizes[i] as u64
        } else {
            0
        };
        bytes = plus(bytes, size);
        i += 1;
    }
    assert(sizes@.take(i as int) =~= sizes@);
    usage_from_totals(bytes, sizes.len() as u64)
}

pub open spec fn full_error(report: RecoveryUsageModel) -> ErrorModel {
    ErrorModel::Usage(
        "pin recovery capacity reached ("@ + text::decimal(report.bytes as nat) + " bytes, "@ + text::decimal(
            report.entries as nat,
        ) + " entries); review retained versions before syncing"@,
    )
}

pub open spec fn admission_outcome(
    report: RecoveryUsageModel,
    extra_bytes: u64,
    extra_entries: u64,
) -> Outcome<()> {
    if report.bytes + extra_bytes + RECOVERY_RESERVE > MAX_RECOVERY_BYTES || report.entries
        + extra_entries + 8 > MAX_RECOVERY_ENTRIES {
        Err(full_error(report))
    } else {
        Ok(())
    }
}

/// Whether a publication may add so much to the recovery store.
pub fn admit_recovery(report: &RecoveryUsage, extra_bytes: u64, extra_entries: u64) -> (result:
    Result<()>)
    ensures
        error::outcome(result) == admission_outcome(report@, extra_bytes, extra_entries),
{
    if plus(plus(report.bytes, extra_bytes), RECOVERY_RESERVE) > MAX_RECOVERY_BYTES || plus(
        plus(report.entries, extra_entries),
        8,
    ) > MAX_RECOVERY_ENTRIES {
        return Err(
            ClixError::Usage(
                cat5(
                    "pin recovery capacity reached (",
                    decimal_text(report.bytes).as_str(),
                    " bytes, ",
                    decimal_text(report.entries).as_str(),
                    " entries); review retained versions before syncing",
                ),
            ),
        );
    }
    Ok(())
}

/// The file permissions in a mode.
pub open spec fn permissions(mode: u32) -> u32 {
    mode & 0o777
}

pub fn same_metadata(a: &FileMeta, b: &FileMeta) -> (yes: bool)
    ensures
        yes == (a@ == FileMetaModel { regular: a@.regular, ..b@ }),
{
    a.device == b.device && a.inode == b.inode && a.bytes == b.bytes && a.mode == b.mode
        && a.modified_seconds == b.modified_seconds && a.modified_nanoseconds
        == b.modified_nanoseconds && a.changed_seconds == b.changed_seconds
        && a.changed_nanoseconds == b.changed_nanoseconds
}

/// A file as its metadata and its content's hash give it.
pub open spec fn version_of(meta: FileMetaModel, hash: Seq<char>) -> RecoveryVersionModel {
    RecoveryVersionModel {
        fingerprint: FingerprintModel { hash, mode: permissions(meta.mode) },
        bytes: meta.bytes,
        device: meta.device,
        inode: meta.inode,
        modified_seconds: meta.modified_seconds,
        modified_nanoseconds: meta.modified_nanoseconds,
        changed_seconds: meta.changed_seconds,
        changed_nanoseconds: meta.changed_nanoseconds,
    }
}

pub fn version_from_metadata(meta: &FileMeta, hash: String) -> (version: RecoveryVersion)
    ensures
        version@ == version_of(meta@, hash@),
{
    RecoveryVersion {
        fingerprint: Fingerprint { hash, mode: meta.mode & 0o777 },
        bytes: meta.bytes,
        device: meta.device,
        inode: meta.inode,
        modified_seconds: meta.modified_seconds,
        modified_nanoseconds: meta.modified_nanoseconds,
        changed_seconds: meta.changed_seconds,
        changed_nanoseconds: meta.changed_nanoseconds,
    }
}

/// Metadata that shows an inspected version, unless its content was rewritten
/// behind the file system's back.
pub open spec fn shows(meta: FileMetaModel, version: RecoveryVersionModel) -> bool {
    meta.regular && version_of(meta, version.fingerprint.hash) == version
}

pub fn matches_version(meta: &FileMeta, version: &RecoveryVersion) -> (yes: bool)
    ensures
        yes == shows(meta@, version@),
{
    meta.regular && meta.device == version.device && meta.inode == version.inode && meta.bytes
        == version.bytes && meta.mode & 0o777 == version.fingerprint.mode && meta.modified_seconds
        == version.modified_seconds && meta.modified_nanoseconds == version.modified_nanoseconds
        && meta.changed_seconds == version.changed_seconds && meta.changed_nanoseconds
        == version.changed_nanoseconds
}

/// Whether a file is still the version that was seen, or still missing.
pub open spec fn unchanged(
    meta: Option<FileMetaModel>,
    version: Option<RecoveryVersionModel>,
) -> bool {
    match (meta, version) {
        (Some(m), Some(v)) => shows(m, v),
        (None, None) => true,
        _ => false,
    }
}

pub fn is_unchanged(meta: &Option<FileMeta>, version: &Option<RecoveryVersion>) -> (yes: bool)
    ensures
        yes == unchanged(meta.deep_view(), version.deep_view()),
{
    match (meta, version) {
        (Some(m), Some(v)) => matches_version(m, v),
        (None, None) => true,
        _ => false,
    }
}

/// What a complete read of a file found: its metadata before and after, how
/// much was read, and the hash of that.
pub open spec fn snapshot_outcome(
    before: FileMetaModel,
    after: FileMetaModel,
    complete: bool,
    hash: Seq<char>,
) -> Outcome<RecoveryVersionModel> {
    if !before.regular {
        Err(ErrorModel::Protocol("recovery supports regular files only"@))
    } else if !complete || before != (FileMetaModel { regular: before.regular, ..after }) {
        Err(plan::changed_error("recovery version changed while inspecting"@))
    } else {
        Ok(version_of(after, hash))
    }
}

pub fn snapshot(before: &FileMeta, after: &FileMeta, complete: bool, hasher: &Hasher) -> (result:
    Result<RecoveryVersion>)
    ensures
        error::outcome(result) == snapshot_outcome(
            before@,
            after@,
            complete,
            crypto::digest_text(crypto::hashed(*hasher)),
        ),
{
    if !before.regular {
        return Err(protocol("recovery supports regular files only"));
    }
    if !complete || !same_metadata(before, after) {
        return Err(changed("recovery version changed while inspecting"));
    }
    Ok(version_from_metadata(after, hasher.text()))
}

/// The most that is read of a file at once.
pub const READ_BYTES: usize = 65536;

/// A file that is read through once, in constant memory, up to the size that it
/// had when it was opened, even if it keeps growing.
pub struct FileReading {
    before: FileMeta,
    remaining: u64,
    hasher: Hasher,
}

#[verifier::ext_equal]
pub struct FileReadingModel {
    pub before: FileMetaModel,
    /// How much is still to be read.
    pub remaining: u64,
    /// What was read.
    pub content: Seq<u8>,
}

impl View for FileReading {
    type V = FileReadingModel;

    closed spec fn view(&self) -> FileReadingModel {
        FileReadingModel {
            before: self.before@,
            remaining: self.remaining,
            content: crypto::hashed(self.hasher),
        }
    }
}

impl FileReadingModel {
    /// What was read and what is left make up the file as it was opened.
    pub open spec fn in_step(self) -> bool {
        self.before.regular ==> self.content.len() + self.remaining == self.before.bytes
    }
}

impl FileReading {
    pub fn start(before: FileMeta) -> (reading: FileReading)
        ensures
            reading@ == (FileReadingModel {
                before: before@,
                remaining: if before@.regular {
                    before@.bytes
                } else {
                    0
                },
                content: Seq::empty(),
            }),
            reading@.in_step(),
    {
        let remaining: u64 = if before.regular {
            before.bytes
        } else {
            0
        };
        FileReading { before, remaining, hasher: Hasher::start() }
    }

    /// How many bytes to ask for next; none when the file is read through.
    pub fn wanted(&self) -> (n: usize)
        ensures
            n == if self@.remaining < READ_BYTES {
                self@.remaining as int
            } else {
                READ_BYTES as int
            },
    {
        if self.remaining < READ_BYTES as u64 {
            self.remaining as usize
        } else {
            READ_BYTES
        }
    }

    /// Take in what was read next.
    pub fn take(&mut self, bytes: &[u8])
        requires
            bytes@.len() <= old(self)@.remaining,
        ensures
            final(self)@ == (FileReadingModel {
                remaining: (old(self)@.remaining - bytes@.len()) as u64,
                content: old(self)@.content + bytes@,
                ..old(self)@
            }),
            old(self)@.in_step() ==> final(self)@.in_step(),
    {
        self.hasher.update(bytes);
        self.remaining = self.remaining - bytes.len() as u64;
    }

    /// The version that was read. A file that ended early has changed.
    pub fn finish(&self, after: &FileMeta) -> (result: Result<RecoveryVersion>)
        ensures
            error::outcome(result) == snapshot_outcome(
                self@.before,
                after@,
                self@.remaining == 0,
                crypto::digest_text(self@.content),
            ),
    {
        snapshot(&self.before, after, self.remaining == 0, &self.hasher)
    }
}

/// Whether a file that was read for sharing may be shared: a regular file, not
/// too large, and not changed while it was read.
pub fn check_read(path: &str, before: &FileMeta, after: &FileMeta, read: u64) -> (result: Result<()>)
    ensures
        error::outcome(result) == if !before@.regular {
            Err::<(), ErrorModel>(
                ErrorModel::Protocol("pin supports regular files only: "@ + path@),
            )
        } else if read > MAX_FILE {
            Err::<(), ErrorModel>(ErrorModel::Protocol("pin file exceeds 16 MiB: "@ + path@))
        } else if before@.bytes != after@.bytes || before@.modified_seconds
            != after@.modified_seconds || before@.modified_nanoseconds
            != after@.modified_nanoseconds {
            Err::<(), ErrorModel>(plan::changed_error(path@))
        } else {
            Ok::<(), ErrorModel>(())
        },
{
    if !before.regular {
        return Err(ClixError::Protocol(cat2("pin supports regular files only: ", path)));
    }
    if read > MAX_FILE {
        return Err(ClixError::Protocol(cat2("pin file exceeds 16 MiB: ", path)));
    }
    if before.bytes != after.bytes || before.modified_seconds != after.modified_seconds
        || before.modified_nanoseconds != after.modified_nanoseconds {
        return Err(changed(path));
    }
    Ok(())
}

/// What a directory entry is.
#[derive(Debug, Clone, Copy, PartialEq, Eq, Structural)]
pub enum EntryKind {
    Directory,
    File,
    Other,
}

/// What a scan does with a directory entry.
#[derive(Debug, Clone, PartialEq, Eq)]
pub enum ScanStep {
    Skip,
    Descend(String),
    Read(String),
}

#[verifier::ext_equal]
pub enum ScanStepModel {
    Skip,
    Descend(Seq<char>),
    Read(Seq<char>),
}

impl View for ScanStep {
    type V = ScanStepModel;

    open spec fn view(&self) -> ScanStepModel {
        match self {
            ScanStep::Skip => ScanStepModel::Skip,
            ScanStep::Descend(path) => ScanStepModel::Descend(path@),
            ScanStep::Read(path) => ScanStepModel::Read(path@),
        }
    }
}

impl DeepView for ScanStep {
    type V = ScanStepModel;

    open spec fn deep_view(&self) -> ScanStepModel {
        self@
    }
}

/// An entry that a scan does not even count.
pub open spec fn passed_over(prefix: Seq<char>, name: Seq<char>) -> bool {
    name == "."@ || name == ".."@ || (prefix.len() == 0 && name == ".clix-recovery"@)
}

pub open spec fn below(prefix: Seq<char>, name: Seq<char>) -> Seq<char> {
    if prefix.len() == 0 {
        name
    } else {
        prefix + "/"@ + name
    }
}

/// One entry of a scan: what is done with it, and how many were counted then.
pub open spec fn scan_outcome(
    prefix: Seq<char>,
    name: Option<Seq<char>>,
    kind: EntryKind,
    count: usize,
) -> (usize, Outcome<ScanStepModel>) {
    match name {
        None => (count, Err(ErrorModel::Protocol("pin requires UTF-8 filenames"@))),
        Some(name) => if passed_over(prefix, name) {
            (count, Ok(ScanStepModel::Skip))
        } else {
            let counted = (count + 1) as usize;
            let path = below(prefix, name);
            (
                counted,
                if counted > MAX_PIN_ENTRIES || (prefix.len() > 0 && text::pieces(prefix, '/').len()
                    >= 64) {
                    Err(
                        ErrorModel::Usage(
                            "pin tree exceeds 4096 entries or 64 directories of depth"@,
                        ),
                    )
                } else if path::excluded_path(path) {
                    Ok(ScanStepModel::Skip)
                } else {
                    match kind {
                        EntryKind::Directory => Ok(ScanStepModel::Descend(path)),
                        EntryKind::File => Ok(ScanStepModel::Read(path)),
                        EntryKind::Other => Err(
                            ErrorModel::Protocol(
                                "unsupported pin entry (symlink or special file): "@ + path,
                            ),
                        ),
                    }
                },
            )
        },
    }
}

/// Decide what a scan does with the next entry of a directory.
pub fn scan_entry(prefix: &str, name: Option<&str>, kind: EntryKind, count: &mut usize) -> (result:
    Result<ScanStep>)
    requires
        *old(count) <= MAX_PIN_ENTRIES,
    ensures
        (*final(count), error::outcome(result)) == scan_outcome(
            prefix@,
            match name {
                Some(name) => Some(name@),
                None => None,
            },
            kind,
            *old(count),
        ),
        result is Ok ==> *final(count) <= MAX_PIN_ENTRIES,
{
    let name = match name {
        Some(name) => name,
        None => return Err(protocol("pin requires UTF-8 filenames")),
    };
    if text_same(name, ".") || text_same(name, "..") || (prefix.is_empty() && text_same(
        name,
        ".clix-recovery",
    )) {
        return Ok(ScanStep::Skip);
    }
    *count = *count + 1;
    if *count > MAX_PIN_ENTRIES || (!prefix.is_empty() && split(prefix, '/').len() >= 64) {
        return Err(usage("pin tree exceeds 4096 entries or 64 directories of depth"));
    }
    let path = if prefix.is_empty() {
        owned(name)
    } else {
        cat3(prefix, "/", name)
    };
    if excluded(&path) {
        return Ok(ScanStep::Skip);
    }
    match kind {
        EntryKind::Directory => Ok(ScanStep::Descend(path)),
        EntryKind::File => Ok(ScanStep::Read(path)),
        EntryKind::Other => Err(
            ClixError::Protocol(
                cat2("unsupported pin entry (symlink or special file): ", &path),
            ),
        ),
    }
}

pub open spec fn is_json(name: Seq<char>) -> bool {
    scan::ends(name, ".json"@)
}

pub fn has_json_name(name: &str) -> (yes: bool)
    ensures
        yes == is_json(name@),
{
    before_suffix(name, ".json").is_some()
}

fn has_temp_name(name: &str) -> (yes: bool)
    ensures
        yes == scan::ends(name@, ".tmp"@),
{
    before_suffix(name, ".tmp").is_some()
}

/// A receipt speaks of an acceptable path and names a data file.
pub open spec fn receipt_outcome(r: RecoveryReceiptModel) -> Outcome<()> {
    let discarding = r.state == RecoveryState::Discarding;
    if (r.path.len() > 0 || !discarding) && path::path_outcome(r.path) is Err {
        path::path_outcome(r.path)
    } else if path::recovery_name_outcome(r.version) is Err {
        path::recovery_name_outcome(r.version)
    } else if (is_json(r.version) && !(discarding && r.path.len() == 0)) || (scan::ends(
        r.version,
        ".tmp"@,
    ) && !discarding) {
        Err(ErrorModel::Protocol("recovery version must name a data file"@))
    } else {
        Ok(())
    }
}

pub fn validate_receipt(r: &RecoveryReceipt) -> (result: Result<()>)
    ensures
        error::outcome(result) == receipt_outcome(r@),
{
    let discarding = r.state == RecoveryState::Discarding;
    let pathless = r.path.as_str().is_empty();
    if !pathless || !discarding {
        if let Err(e) = valid_path(&r.path) {
            return Err(e);
        }
    }
    if let Err(e) = valid_recovery_name(&r.version) {
        return Err(e);
    }
    if (has_json_name(&r.version) && !(discarding && pathless)) || (has_temp_name(&r.version)
        && !discarding) {
        return Err(protocol("recovery version must name a data file"));
    }
    Ok(())
}

/// What was read of a receipt file.
#[derive(Debug)]
pub enum ReceiptRead {
    /// The file could not be read, or is no JSON.
    Broken(ClixError),
    /// A JSON value: its `path` and `state` where they are texts, and what it
    /// says as a receipt, if it is one.
    Value {
        path: Option<String>,
        state: Option<String>,
        receipt: Result<RecoveryReceipt>,
        /// The fingerprint of the version that the receipt names, as it stands.
        retained: Result<Option<Fingerprint>>,
    },
}

#[verifier::ext_equal]
pub enum ReceiptReadModel {
    Broken(ErrorModel),
    Value {
        path: Option<Seq<char>>,
        state: Option<Seq<char>>,
        receipt: Outcome<RecoveryReceiptModel>,
        retained: Outcome<Option<FingerprintModel>>,
    },
}

impl View for ReceiptRead {
    type V = ReceiptReadModel;

    open spec fn view(&self) -> ReceiptReadModel {
        match self {
            ReceiptRead::Broken(e) => ReceiptReadModel::Broken(e@),
            ReceiptRead::Value { path, state, receipt, retained } => ReceiptReadModel::Value {
                path: path.deep_view(),
                state: state.deep_view(),
                receipt: error::outcome(*receipt),
                retained: error::outcome(*retained),
            },
        }
    }
}

/// A file in the recovery store; receipts come with what was read of them.
#[derive(Debug)]
pub struct RecoveryFile {
    pub name: String,
    pub receipt: Option<ReceiptRead>,
}

#[verifier::ext_equal]
pub struct RecoveryFileModel {
    pub name: Seq<char>,
    pub receipt: Option<ReceiptReadModel>,
}

impl View for RecoveryFile {
    type V = RecoveryFileModel;

    open spec fn view(&self) -> RecoveryFileModel {
        RecoveryFileModel {
            name: self.name@,
            receipt: match self.receipt {
                Some(read) => Some(read@),
                None => None,
            },
        }
    }
}

impl DeepView for RecoveryFile {
    type V = RecoveryFileModel;

    open spec fn deep_view(&self) -> RecoveryFileModel {
        self@
    }
}

pub open spec fn review_error(path: Seq<char>, name: Seq<char>) -> ErrorModel {
    plan::changed_error(
        path + "; owner must review .clix-recovery/"@ + name + " before syncing"@,
    )
}

pub open spec fn moved_error(path: Seq<char>, name: Seq<char>) -> ErrorModel {
    plan::changed_error(path + "; retained version changed, review .clix-recovery/"@ + name)
}

/// Whether one receipt lets synchronization go on: it is settled, and the version
/// that it retains is the one that it recorded.
pub open spec fn settled_outcome(name: Seq<char>, read: ReceiptReadModel) -> Outcome<Seq<char>> {
    match read {
        ReceiptReadModel::Broken(e) => Err(e),
        ReceiptReadModel::Value { path, state, receipt, retained } => {
            let shown = match path {
                Some(p) => p,
                None => "unknown path"@,
            };
            if state != Some("retained"@) && state != Some("resolved"@) {
                Err(review_error(shown, name))
            } else {
                match receipt {
                    Err(e) => Err(e),
                    Ok(r) => if receipt_outcome(r) is Err {
                        Err(receipt_outcome(r)->Err_0)
                    } else {
                        match retained {
                            Err(e) => Err(e),
                            Ok(print) => if print != r.expected {
                                Err(moved_error(shown, name))
                            } else {
                                Ok(r.version)
                            },
                        }
                    },
                }
            }
        },
    }
}

/// The versions that settled receipts refer to, from `i` on.
pub open spec fn referenced(
    files: Seq<RecoveryFileModel>,
    ignored: Seq<Seq<char>>,
    i: int,
    versions: Seq<Seq<char>>,
) -> Outcome<Seq<Seq<char>>>
    decreases files.len() - i,
{
    if i >= files.len() {
        Ok(versions)
    } else if !is_json(files[i].name) || ignored.contains(files[i].name) {
        referenced(files, ignored, i + 1, versions)
    } else {
        match files[i].receipt {
            None => Err(ErrorModel::Usage("recovery version is absent"@)),
            Some(read) => match settled_outcome(files[i].name, read) {
                Err(e) => Err(e),
                Ok(version) => referenced(files, ignored, i + 1, versions.push(version)),
            },
        }
    }
}

/// An ignored receipt can own a staged file during explicit recovery.
pub open spec fn owned_by_ignored(
    files: Seq<RecoveryFileModel>,
    ignored: Seq<Seq<char>>,
    name: Seq<char>,
) -> bool {
    exists|i: int|
        0 <= i < files.len() && ignored.contains((#[trigger] files[i]).name) && names_version(
            files[i],
            name,
        )
}

/// A receipt that can be read and names a version.
pub open spec fn names_version(file: RecoveryFileModel, version: Seq<char>) -> bool {
    match file.receipt {
        Some(ReceiptReadModel::Value { receipt: Ok(r), .. }) => receipt_outcome(r) is Ok
            && r.version == version,
        _ => false,
    }
}

/// Data that no receipt accounts for.
pub open spec fn stray(
    files: Seq<RecoveryFileModel>,
    ignored: Seq<Seq<char>>,
    versions: Seq<Seq<char>>,
    i: int,
) -> Option<Seq<char>>
    decreases files.len() - i,
{
    if i >= files.len() {
        None
    } else if !is_json(files[i].name) && !versions.contains(files[i].name) && !owned_by_ignored(
        files,
        ignored,
        files[i].name,
    ) {
        Some(files[i].name)
    } else {
        stray(files, ignored, versions, i + 1)
    }
}

/// Whether synchronization may go on past the recovery store.
pub open spec fn recovery_outcome(
    report: RecoveryUsageModel,
    files: Seq<RecoveryFileModel>,
    ignored: Seq<Seq<char>>,
) -> Outcome<()> {
    if report.bytes > MAX_RECOVERY_BYTES || report.entries > MAX_RECOVERY_ENTRIES {
        Err(
            ErrorModel::Usage(
                "pin recovery storage is over its limit; use clix pin list and review retained versions"@,
            ),
        )
    } else {
        match referenced(files, ignored, 0, Seq::empty()) {
            Err(e) => Err(e),
            Ok(versions) => match stray(files, ignored, versions, 0) {
                Some(name) => Err(
                    plan::changed_error(
                        "unreferenced recovery data "@ + name + "; inspect it before syncing"@,
                    ),
                ),
                None => Ok(()),
            },
        }
    }
}

pub(crate) fn contains_text(list: &Vec<String>, wanted: &str) -> (yes: bool)
    ensures
        yes == list.deep_view().contains(wanted@),
{
    let ghost view = list.deep_view();
    let mut i: usize = 0;
    while i < list.len()
        invariant
            i <= list.len(),
            view == list.deep_view(),
            forall|j: int| 0 <= j < i ==> view[j] != wanted@,
        decreases list.len() - i,
    {
        assert(view[i as int] == list@[i as int]@);
        if text_same(&list[i], wanted) {
            assert(view.contains(wanted@));
            return true;
        }
        i += 1;
    }
    false
}

fn check_settled(name: &str, read: &ReceiptRead) -> (result: Result<String>)
    ensures
        error::outcome(result) == settled_outcome(name@, read@),
{
    match read {
        ReceiptRead::Broken(e) => Err(e.dup()),
        ReceiptRead::Value { path, state, receipt, retained } => {
            let shown = match path {
                Some(p) => p.dup(),
                None => owned("unknown path"),
            };
            let settled: bool = match state {
                Some(word) => text_same(word, "retained") || text_same(word, "resolved"),
                None => false,
            };
            if !settled {
                return Err(
                    changed(
                        cat4(
                            &shown,
                            "; owner must review .clix-recovery/",
                            name,
                            " before syncing",
                        ).as_str(),
                    ),
                );
            }
            let r = match receipt {
                Ok(r) => r,
                Err(e) => return Err(e.dup()),
            };
            if let Err(e) = validate_receipt(r) {
                return Err(e);
            }
            let print = match retained {
                Ok(print) => print,
                Err(e) => return Err(e.dup()),
            };
            if !print.same(&r.expected) {
                return Err(
                    changed(
                        cat3(
                            &shown,
                            "; retained version changed, review .clix-recovery/",
                            name,
                        ).as_str(),
                    ),
                );
            }
            Ok(r.version.dup())
        },
    }
}

pub(crate) fn file_names_version(file: &RecoveryFile, version: &str) -> (yes: bool)
    ensures
        yes == names_version(file@, version@),
{
    match &file.receipt {
        Some(ReceiptRead::Value { path: _, state: _, receipt, retained: _ }) => match receipt {
            Ok(r) => validate_receipt(r).is_ok() && text_same(&r.version, version),
            Err(_) => false,
        },
        _ => false,
    }
}

fn is_owned_by_ignored(files: &Vec<RecoveryFile>, ignored: &Vec<String>, name: &str) -> (yes: bool)
    ensures
        yes == owned_by_ignored(files.deep_view(), ignored.deep_view(), name@),
{
    let ghost view = files.deep_view();
    let mut i: usize = 0;
    while i < files.len()
        invariant
            i <= files.len(),
            view == files.deep_view(),
            forall|j: int|
                0 <= j < i ==> !(ignored.deep_view().contains((#[trigger] view[j]).name)
                    && names_version(view[j], name@)),
        decreases files.len() - i,
    {
        assert(view[i as int] == files@[i as int]@);
        if contains_text(ignored, &files[i].name) && file_names_version(&files[i], name) {
            assert(ignored.deep_view().contains(view[i as int].name));
            return true;
        }
        i += 1;
    }
    false
}

/// Whether synchronization may go on: the recovery store is within its limits,
/// every receipt is settled and true, and nothing lies there unaccounted for.
/// `files` come in the order of their names.
pub fn check_recovery_except(
    report: &RecoveryUsage,
    files: &Vec<RecoveryFile>,
    ignored: &Vec<String>,
) -> (result: Result<()>)
    ensures
        error::outcome(result) == recovery_outcome(report@, files.deep_view(), ignored.deep_view()),
{
    if report.bytes > MAX_RECOVERY_BYTES || report.entries > MAX_RECOVERY_ENTRIES {
        return Err(
            usage(
                "pin recovery storage is over its limit; use clix pin list and review retained versions",
            ),
        );
    }
    let ghost view = files.deep_view();
    let ghost skip = ignored.deep_view();
    let mut versions: Vec<String> = Vec::new();
    let mut i: usize = 0;
    assert(versions.deep_view() =~= Seq::<Seq<char>>::empty());
    while i < files.len()
        invariant
            i <= files.len(),
            view == files.deep_view(),
            skip == ignored.deep_view(),
            report@.bytes <= MAX_RECOVERY_BYTES && report@.entries <= MAX_RECOVERY_ENTRIES,
            referenced(view, skip, 0, Seq::empty()) == referenced(
                view,
                skip,
                i as int,
                versions.deep_view(),
            ),
        decreases files.len() - i,
    {
        let file = &files[i];
        let ghost before = versions.deep_view();
        assert(view[i as int] == files@[i as int]@);
        if has_json_name(&file.name) && !contains_text(ignored, &file.name) {
            match &file.receipt {
                None => return Err(usage("recovery version is absent")),
                Some(read) => match check_settled(&file.name, read) {
                    Ok(version) => {
                        let ghost item = version@;
                        versions.push(version);
                        assert(versions.deep_view() =~= before.push(item));
                    },
                    Err(e) => return Err(e),
                },
            }
        }
        i += 1;
    }
    let mut k: usize = 0;
    while k < files.len()
        invariant
            k <= files.len(),
            view == files.deep_view(),
            skip == ignored.deep_view(),
            report@.bytes <= MAX_RECOVERY_BYTES && report@.entries <= MAX_RECOVERY_ENTRIES,
            referenced(view, skip, 0, Seq::empty()) == Ok::<Seq<Seq<char>>, ErrorModel>(
                versions.deep_view(),
            ),
            stray(view, skip, versions.deep_view(), 0) == stray(
                view,
                skip,
                versions.deep_view(),
                k as int,
            ),
        decreases files.len() - k,
    {
        let file = &files[k];
        assert(view[k as int] == files@[k as int]@);
        if !has_json_name(&file.name) && !contains_text(&versions, &file.name)
            && !is_owned_by_ignored(files, ignored, &file.name) {
            return Err(
                changed(
                    cat3(
                        "unreferenced recovery data ",
                        &file.name,
                        "; inspect it before syncing",
                    ).as_str(),
                ),
            );
        }
        k += 1;
    }
    Ok(())
}

/// Names that are no entries of the recovery store.
pub open spec fn fixture(name: Seq<char>) -> bool {
    name == "."@ || name == ".."@ || name == ".lock"@
}

pub fn is_fixture(name: &str) -> (yes: bool)
    ensures
        yes == fixture(name@),
{
    text_same(name, ".") || text_same(name, "..") || text_same(name, ".lock")
}

/// The entries among the names of a directory, in order.
pub open spec fn entry_names(names: Seq<Seq<char>>, i: int, rows: Seq<(Seq<char>, ())>) -> Seq<
    (Seq<char>, ()),
>
    decreases names.len() - i,
{
    if i >= names.len() {
        rows
    } else if fixture(names[i]) {
        entry_names(names, i + 1, rows)
    } else {
        entry_names(names, i + 1, table::stored(rows, names[i], ()))
    }
}

/// The entries of a recovery store in the order of their names. Everything is
/// preserved, but a directory that some other program filled without bound is
/// refused.
pub fn recovery_names(names: &Vec<String>) -> (result: Result<Table<()>>)
    ensures
        error::outcome(result) == {
            let rows = entry_names(names.deep_view(), 0, Seq::empty());
            if rows.len() > MAX_RECOVERY_ENTRIES + 16 {
                Err::<Seq<(Seq<char>, ())>, ErrorModel>(
                    ErrorModel::Usage(
                        "recovery directory exceeds its entry limit; no data was deleted"@,
                    ),
                )
            } else {
                Ok::<Seq<(Seq<char>, ())>, ErrorModel>(rows)
            }
        },
{
    let ghost view = names.deep_view();
    let mut rows: Table<()> = Table::new();
    let mut i: usize = 0;
    while i < names.len()
        invariant
            i <= names.len(),
            view == names.deep_view(),
            entry_names(view, 0, Seq::empty()) == entry_names(view, i as int, rows.deep_view()),
        decreases names.len() - i,
    {
        assert(view[i as int] == names@[i as int]@);
        if !is_fixture(&names[i]) {
            rows.put(names[i].dup(), ());
        }
        i += 1;
    }
    if rows.len() as u64 > MAX_RECOVERY_ENTRIES + 16 {
        return Err(usage("recovery directory exceeds its entry limit; no data was deleted"));
    }
    Ok(rows)
}

} // verus!
