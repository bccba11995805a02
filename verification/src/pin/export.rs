//! Export of an inspected version, piece by piece.

use vstd::prelude::*;

use crate::crypto;
use crate::crypto::{hash, Hasher};
use crate::data::Data;
use crate::error;
use crate::error::{protocol, usage, ErrorModel, Outcome, Result};
use crate::history::wire;
use crate::pin::plan;
use crate::pin::plan::changed;
use crate::pin::record::{
    FileMeta, FileMetaModel, RecoveryChunk, RecoveryChunkModel, RecoveryInspection,
    RecoveryInspectionModel, RecoveryRead, RecoveryReceipt, RecoveryReceiptModel, RecoveryVersion,
    RecoveryVersionModel,
};
use crate::pin::recovery;
use crate::pin::recovery::{
    is_unchanged, matches_version, same_metadata, version_from_metadata, MAX_RECEIPT,
};
use crate::text::text_same;

verus! {

/// The largest piece of an export.
pub const CHUNK_BYTES: usize = 65536;

/// A receipt that was read once more for an export: not too large, unchanged
/// while it was read, and the one that was inspected.
pub open spec fn receipt_version(
    view: RecoveryInspectionModel,
    before: FileMetaModel,
    after: FileMetaModel,
    bytes: Seq<u8>,
    receipt: Outcome<RecoveryReceiptModel>,
) -> Outcome<RecoveryVersionModel> {
    let moved = Err(plan::changed_error("recovery receipt changed while opening export"@));
    if bytes.len() > MAX_RECEIPT || before != (FileMetaModel { regular: before.regular, ..after }) {
        moved
    } else {
        match receipt {
            Err(e) => Err(e),
            Ok(r) => if r != view.receipt {
                moved
            } else {
                Ok(recovery::version_of(after, crypto::digest_text(bytes)))
            },
        }
    }
}

pub fn reread_receipt(
    view: &RecoveryInspection,
    before: &FileMeta,
    after: &FileMeta,
    bytes: &Vec<u8>,
    receipt: &Result<RecoveryReceipt>,
) -> (result: Result<RecoveryVersion>)
    ensures
        error::outcome(result) == receipt_version(
            view@,
            before@,
            after@,
            bytes@,
            error::outcome(*receipt),
        ),
{
    if bytes.len() as u64 > MAX_RECEIPT || !same_metadata(before, after) {
        return Err(changed("recovery receipt changed while opening export"));
    }
    match receipt {
        Err(e) => Err(e.dup()),
        Ok(r) => if !r.same(&view.receipt) {
            Err(changed("recovery receipt changed while opening export"))
        } else {
            Ok(version_from_metadata(after, hash(bytes)))
        },
    }
}

pub open spec fn absent(which: RecoveryRead) -> ErrorModel {
    match which {
        RecoveryRead::Receipt => ErrorModel::Usage("recovery receipt is absent"@),
        RecoveryRead::Retained => ErrorModel::Usage("retained version is absent"@),
        RecoveryRead::Live => ErrorModel::Usage("live version is absent"@),
    }
}

/// The version that an export streams; it must have been seen and must open.
pub open spec fn export_source(
    view: RecoveryInspectionModel,
    which: RecoveryRead,
    receipt: Option<RecoveryVersionModel>,
    opened: bool,
) -> Outcome<RecoveryVersionModel> {
    let version = match which {
        RecoveryRead::Receipt => receipt,
        RecoveryRead::Retained => view.retained,
        RecoveryRead::Live => view.live,
    };
    match version {
        Some(v) if opened => Ok(v),
        _ => Err(absent(which)),
    }
}

pub fn select_source(
    view: &RecoveryInspection,
    which: RecoveryRead,
    receipt: &Option<RecoveryVersion>,
    opened: bool,
) -> (result: Result<RecoveryVersion>)
    ensures
        error::outcome(result) == export_source(view@, which, receipt.deep_view(), opened),
{
    let version: &Option<RecoveryVersion> = match which {
        RecoveryRead::Receipt => receipt,
        RecoveryRead::Retained => &view.retained,
        RecoveryRead::Live => &view.live,
    };
    if opened {
        if let Some(v) = version {
            return Ok(v.dup());
        }
    }
    Err(
        match which {
            RecoveryRead::Receipt => usage("recovery receipt is absent"),
            RecoveryRead::Retained => usage("retained version is absent"),
            RecoveryRead::Live => usage("live version is absent"),
        },
    )
}

/// What the file system shows while an export runs.
#[derive(Debug)]
pub struct ExportSight {
    /// The root is still the directory that was opened.
    pub same_root: bool,
    /// The recovery directory by its path, as it was opened, and at the start.
    pub directory: Option<FileMeta>,
    pub opened_directory: FileMeta,
    pub first_directory: FileMeta,
    pub source: FileMeta,
    pub receipt: Option<FileMeta>,
    pub live: Option<FileMeta>,
    pub retained: Option<FileMeta>,
}

#[verifier::ext_equal]
pub struct ExportSightModel {
    pub same_root: bool,
    pub directory: Option<FileMetaModel>,
    pub opened_directory: FileMetaModel,
    pub first_directory: FileMetaModel,
    pub source: FileMetaModel,
    pub receipt: Option<FileMetaModel>,
    pub live: Option<FileMetaModel>,
    pub retained: Option<FileMetaModel>,
}

impl View for ExportSight {
    type V = ExportSightModel;

    open spec fn view(&self) -> ExportSightModel {
        ExportSightModel {
            same_root: self.same_root,
            directory: self.directory.deep_view(),
            opened_directory: self.opened_directory@,
            first_directory: self.first_directory@,
            source: self.source@,
            receipt: self.receipt.deep_view(),
            live: self.live.deep_view(),
            retained: self.retained.deep_view(),
        }
    }
}

pub open spec fn same_file(a: FileMetaModel, b: FileMetaModel) -> bool {
    a == FileMetaModel { regular: a.regular, ..b }
}

/// Whether everything that was inspected is still as it was.
pub open spec fn versions_outcome(
    view: RecoveryInspectionModel,
    expected: RecoveryVersionModel,
    receipt: Option<RecoveryVersionModel>,
    sight: ExportSightModel,
) -> Outcome<()> {
    let inspected = Err(plan::changed_error("inspected version changed during recovery export"@));
    if !sight.same_root {
        Err(plan::changed_error("pin root moved during recovery export"@))
    } else if sight.directory is None {
        Err(plan::changed_error("recovery directory disappeared during export"@))
    } else if !same_file(sight.directory->0, sight.first_directory) || !same_file(
        sight.opened_directory,
        sight.first_directory,
    ) || !recovery::shows(sight.source, expected) {
        Err(plan::changed_error("recovery version changed during export"@))
    } else if view.recorded && !recovery::unchanged(sight.receipt, receipt) {
        inspected
    } else if view.receipt.path.len() > 0 && !recovery::unchanged(sight.live, view.live) {
        inspected
    } else if !recovery::unchanged(sight.retained, view.retained) {
        inspected
    } else {
        Ok(())
    }
}

pub fn check_versions(
    view: &RecoveryInspection,
    expected: &RecoveryVersion,
    receipt: &Option<RecoveryVersion>,
    sight: &ExportSight,
) -> (result: Result<()>)
    ensures
        error::outcome(result) == versions_outcome(view@, expected@, receipt.deep_view(), sight@),
{
    if !sight.same_root {
        return Err(changed("pin root moved during recovery export"));
    }
    let directory = match &sight.directory {
        Some(directory) => directory,
        None => return Err(changed("recovery directory disappeared during export")),
    };
    if !same_metadata(directory, &sight.first_directory) || !same_metadata(
        &sight.opened_directory,
        &sight.first_directory,
    ) || !matches_version(&sight.source, expected) {
        return Err(changed("recovery version changed during export"));
    }
    if (view.recorded && !is_unchanged(&sight.receipt, receipt)) || (
    !view.receipt.path.as_str().is_empty() && !is_unchanged(&sight.live, &view.live))
        || !is_unchanged(&sight.retained, &view.retained) {
        return Err(changed("inspected version changed during recovery export"));
    }
    Ok(())
}

/// One owner export. It counts as done only after `finish` succeeded; a dropped
/// or partly consumed stream has never completed.
pub struct RecoveryExport {
    pub expected: RecoveryVersion,
    offset: u64,
    hasher: Hasher,
    complete: bool,
    failed: bool,
}

#[verifier::ext_equal]
pub struct RecoveryExportModel {
    pub expected: RecoveryVersionModel,
    pub offset: u64,
    /// Everything that was read.
    pub content: Seq<u8>,
    pub complete: bool,
    pub failed: bool,
}

impl RecoveryExport {
    pub closed spec fn state(self) -> RecoveryExportModel {
        RecoveryExportModel {
            expected: self.expected@,
            offset: self.offset,
            content: crypto::hashed(self.hasher),
            complete: self.complete,
            failed: self.failed,
        }
    }

    /// An export never gets past the end of the inspected version, and is
    /// complete only with content of the inspected digest.
    pub open spec fn well_formed(self) -> bool {
        let x = self.state();
        &&& x.offset == x.content.len()
        &&& x.offset <= x.expected.bytes
        &&& x.complete ==> x.whole()
    }

    pub fn start(expected: RecoveryVersion) -> (export: RecoveryExport)
        ensures
            export.state() == (RecoveryExportModel {
                expected: expected@,
                offset: 0,
                content: Seq::empty(),
                complete: false,
                failed: false,
            }),
            export.well_formed(),
    {
        RecoveryExport {
            expected,
            offset: 0,
            hasher: Hasher::start(),
            complete: false,
            failed: false,
        }
    }

    pub fn total_bytes(&self) -> (n: u64)
        ensures
            n == self.state().expected.bytes,
    {
        self.expected.bytes
    }

    /// How many bytes to read next, if the versions still hold.
    pub fn begin_chunk(&mut self, length: usize, versions: Result<()>) -> (result: Result<usize>)
        requires
            old(self).well_formed(),
        ensures
            error::outcome(result) == chunk_length(old(self).state(), length, error::outcome(versions)),
            final(self).state() == (RecoveryExportModel {
                failed: old(self).state().failed || result is Err,
                ..old(self).state()
            }),
            final(self).well_formed(),
    {
        if self.failed {
            return Err(changed("recovery export already failed; inspect again"));
        }
        if length == 0 || length > CHUNK_BYTES || self.complete {
            self.failed = true;
            return Err(
                usage("recovery chunks require 1 through 65536 bytes and an unfinished export"),
            );
        }
        if let Err(e) = versions {
            self.failed = true;
            return Err(e);
        }
        let left: u64 = self.expected.bytes - self.offset;
        if left < length as u64 {
            Ok(left as usize)
        } else {
            Ok(length)
        }
    }

    /// Take in one piece, if it could be read. `versions` is what was checked
    /// after the read, and `last` once more at the end.
    pub fn end_chunk(&mut self, read: Result<Vec<u8>>, versions: Result<()>, last: Result<()>) -> (result:
        Result<RecoveryChunk>)
        requires
            old(self).well_formed(),
            read matches Ok(bytes) ==> bytes@.len() <= old(self).state().expected.bytes - old(
                self,
            ).state().offset,
        ensures
            error::outcome(result) == chunk_outcome(
                old(self).state(),
                wire::bytes_outcome(read),
                error::outcome(versions),
                error::outcome(last),
            ),
            final(self).state() == chunk_state(
                old(self).state(),
                wire::bytes_outcome(read),
                error::outcome(versions),
                error::outcome(last),
            ),
            final(self).well_formed(),
            result matches Ok(chunk) ==> chunk@.eof ==> final(self).state().whole(),
    {
        if self.failed || self.complete {
            self.failed = true;
            return Err(changed("recovery export already failed; inspect again"));
        }
        let bytes = match read {
            Ok(bytes) => bytes,
            Err(e) => {
                self.failed = true;
                return Err(e);
            },
        };
        if let Err(e) = versions {
            self.failed = true;
            return Err(e);
        }
        let offset: u64 = self.offset;
        let total: u64 = self.expected.bytes;
        self.hasher.update(&bytes);
        self.offset = offset + bytes.len() as u64;
        let eof = self.offset == total;
        if eof {
            if !text_same(self.hasher.text().as_str(), &self.expected.fingerprint.hash) {
                self.failed = true;
                return Err(changed("exported content did not match the inspected hash"));
            }
            if let Err(e) = last {
                self.failed = true;
                return Err(e);
            }
            self.complete = true;
        }
        Ok(RecoveryChunk { offset, total_bytes: total, bytes, eof })
    }

    /// Call this before a stream is reported as complete. Then all of it was
    /// read, and it has the inspected digest.
    pub fn finish(&mut self, versions: Result<()>) -> (result: Result<()>)
        ensures
            old(self).well_formed() && result is Ok ==> final(self).state().whole(),
            error::outcome(result) == if old(self).state().failed || !old(self).state().complete {
                Err::<(), ErrorModel>(plan::changed_error("recovery export is incomplete or failed"@))
            } else {
                error::outcome(versions)
            },
            final(self).state() == (RecoveryExportModel {
                failed: old(self).state().failed || (old(self).state().complete && result is Err),
                ..old(self).state()
            }),
    {
        if self.failed || !self.complete {
            return Err(changed("recovery export is incomplete or failed"));
        }
        if versions.is_err() {
            self.failed = true;
        }
        versions
    }
}

pub open spec fn chunk_length(x: RecoveryExportModel, length: usize, versions: Outcome<()>) -> Outcome<
    usize,
> {
    if x.failed {
        Err(plan::changed_error("recovery export already failed; inspect again"@))
    } else if length == 0 || length > CHUNK_BYTES || x.complete {
        Err(
            ErrorModel::Usage(
                "recovery chunks require 1 through 65536 bytes and an unfinished export"@,
            ),
        )
    } else if versions is Err {
        Err(versions->Err_0)
    } else if x.expected.bytes - x.offset < length {
        Ok((x.expected.bytes - x.offset) as usize)
    } else {
        Ok(length)
    }
}

impl RecoveryExportModel {
    /// All of the inspected version, and nothing else: its length and its digest.
    pub open spec fn whole(self) -> bool {
        self.content.len() == self.expected.bytes && crypto::digest_text(self.content)
            == self.expected.fingerprint.hash
    }
}

pub open spec fn chunk_outcome(
    x: RecoveryExportModel,
    read: Outcome<Seq<u8>>,
    versions: Outcome<()>,
    last: Outcome<()>,
) -> Outcome<RecoveryChunkModel> {
    if x.failed || x.complete {
        Err(plan::changed_error("recovery export already failed; inspect again"@))
    } else {
        match read {
            Err(e) => Err(e),
            Ok(bytes) => {
                let eof = x.offset + bytes.len() == x.expected.bytes;
                if versions is Err {
                    Err(versions->Err_0)
                } else if eof && crypto::digest_text(x.content + bytes)
                    != x.expected.fingerprint.hash {
                    Err(plan::changed_error("exported content did not match the inspected hash"@))
                } else if eof && last is Err {
                    Err(last->Err_0)
                } else {
                    Ok(
                        RecoveryChunkModel {
                            offset: x.offset,
                            total_bytes: x.expected.bytes,
                            bytes,
                            eof,
                        },
                    )
                }
            },
        }
    }
}

/// An export after a piece. What was read counts as read even where the whole
/// then proves wrong.
pub open spec fn chunk_state(
    x: RecoveryExportModel,
    read: Outcome<Seq<u8>>,
    versions: Outcome<()>,
    last: Outcome<()>,
) -> RecoveryExportModel {
    let outcome = chunk_outcome(x, read, versions, last);
    if x.failed || x.complete || read is Err || versions is Err {
        RecoveryExportModel { failed: true, ..x }
    } else {
        RecoveryExportModel {
            offset: (x.offset + read->Ok_0.len()) as u64,
            content: x.content + read->Ok_0,
            complete: outcome is Ok && outcome->Ok_0.eof,
            failed: outcome is Err,
            ..x
        }
    }
}

/// What a client has received of an export.
#[derive(Debug)]
pub struct ExportClient {
    pub offset: u64,
    pub total: Option<u64>,
}

/// Whether a piece continues the stream: the offset and the total, or the error.
pub open spec fn received(offset: u64, total: Option<u64>, chunk: RecoveryChunkModel) -> Outcome<
    u64,
> {
    if chunk.offset != offset || chunk.bytes.len() > CHUNK_BYTES || (total is Some && total->0
        != chunk.total_bytes) {
        Err(ErrorModel::Protocol("pin export stream boundary changed"@))
    } else if offset + chunk.bytes.len() > u64::MAX {
        Err(ErrorModel::Protocol("pin export size overflow"@))
    } else if offset + chunk.bytes.len() > chunk.total_bytes || (chunk.eof && offset
        + chunk.bytes.len() != chunk.total_bytes) || (!chunk.eof && chunk.bytes.len() == 0) {
        Err(ErrorModel::Protocol("pin export stream length is inconsistent"@))
    } else {
        Ok((offset + chunk.bytes.len()) as u64)
    }
}

impl ExportClient {
    pub fn new() -> (client: ExportClient)
        ensures
            client.offset == 0,
            client.total is None,
    {
        ExportClient { offset: 0, total: None }
    }

    /// Take in a piece. True means that the stream is complete.
    pub fn accept(&mut self, chunk: &RecoveryChunk) -> (result: Result<bool>)
        ensures
            (match received(old(self).offset, old(self).total, chunk@) {
                Ok(offset) => error::outcome(result) == Ok::<bool, ErrorModel>(chunk@.eof)
                    && final(self).offset == offset && final(self).total == Some(
                    chunk@.total_bytes,
                ),
                Err(e) => error::outcome(result) == Err::<bool, ErrorModel>(e) && *final(self) == *old(
                    self,
                ),
            }),
    {
        let other: bool = match self.total {
            Some(total) => total != chunk.total_bytes,
            None => false,
        };
        if chunk.offset != self.offset || chunk.bytes.len() > CHUNK_BYTES || other {
            return Err(protocol("pin export stream boundary changed"));
        }
        let offset: u64 = match self.offset.checked_add(chunk.bytes.len() as u64) {
            Some(offset) => offset,
            None => return Err(protocol("pin export size overflow")),
        };
        if offset > chunk.total_bytes || (chunk.eof && offset != chunk.total_bytes) || (!chunk.eof
            && chunk.bytes.len() == 0) {
            return Err(protocol("pin export stream length is inconsistent"));
        }
        self.offset = offset;
        self.total = Some(chunk.total_bytes);
        Ok(chunk.eof)
    }
}

} // verus!
