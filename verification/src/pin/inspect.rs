//! What the owner sees of a retained version.

use vstd::prelude::*;

use crate::data::Data;
use crate::error;
use crate::error::{usage, ClixError, ErrorModel, Outcome, Result};
use crate::json;
use crate::json::json_string;
use crate::pin::content;
use crate::pin::content::{receipt_text, token, version_text};
use crate::pin::path;
use crate::pin::path::valid_recovery_name;
use crate::pin::record::{
    RecoveryContext, RecoveryInspection, RecoveryInspectionModel, RecoveryReceipt,
    RecoveryReceiptModel, RecoveryState, RecoveryVersion, RecoveryVersionModel,
};
use crate::pin::recovery;
use crate::pin::recovery::{
    has_json_name, validate_receipt, ReceiptRead, ReceiptReadModel, RecoveryFile,
    RecoveryFileModel,
};
use crate::pin::sync;
use crate::pin::sync::pin_root;
use crate::store::{Fingerprint, FingerprintModel, Store};
use crate::text::{cat2, cat3, owned, text_same};

verus! {

/// What stands under an ID in the recovery store.
#[derive(Debug)]
pub enum Sighting {
    /// No such file.
    Absent,
    /// A receipt too large to read.
    Oversized,
    /// A receipt that was read, or why it could not be.
    Receipt(Result<RecoveryReceipt>),
    /// The file could not be opened.
    Failed(ClixError),
}

#[verifier::ext_equal]
pub enum SightingModel {
    Absent,
    Oversized,
    Receipt(Outcome<RecoveryReceiptModel>),
    Failed(ErrorModel),
}

impl View for Sighting {
    type V = SightingModel;

    open spec fn view(&self) -> SightingModel {
        match self {
            Sighting::Absent => SightingModel::Absent,
            Sighting::Oversized => SightingModel::Oversized,
            Sighting::Receipt(read) => SightingModel::Receipt(error::outcome(*read)),
            Sighting::Failed(e) => SightingModel::Failed(e@),
        }
    }
}

/// What was found of one entry: the file itself, the live file at the path of
/// its receipt, and the version that the receipt retains. For an entry that is
/// no readable receipt, `retained` is the entry itself.
#[derive(Debug)]
pub struct Evidence {
    pub sighting: Sighting,
    pub live: Result<Option<RecoveryVersion>>,
    pub retained: Result<Option<RecoveryVersion>>,
}

#[verifier::ext_equal]
pub struct EvidenceModel {
    pub sighting: SightingModel,
    pub live: Outcome<Option<RecoveryVersionModel>>,
    pub retained: Outcome<Option<RecoveryVersionModel>>,
}

impl View for Evidence {
    type V = EvidenceModel;

    open spec fn view(&self) -> EvidenceModel {
        EvidenceModel {
            sighting: self.sighting@,
            live: error::outcome(self.live),
            retained: error::outcome(self.retained),
        }
    }
}

/// What a file says as a receipt.
pub open spec fn as_receipt(file: RecoveryFileModel) -> Outcome<RecoveryReceiptModel> {
    match file.receipt {
        None => Err(ErrorModel::Usage("recovery version is absent"@)),
        Some(ReceiptReadModel::Broken(e)) => Err(e),
        Some(ReceiptReadModel::Value { receipt, .. }) => match receipt {
            Err(e) => Err(e),
            Ok(r) => match recovery::receipt_outcome(r) {
                Err(e) => Err(e),
                Ok(_) => Ok(r),
            },
        },
    }
}

/// Why an entry cannot be looked at on its own: a receipt owns it, or some
/// receipt that might is unreadable.
pub open spec fn ownership(files: Seq<RecoveryFileModel>, id: Seq<char>, i: int) -> Option<
    ErrorModel,
>
    decreases files.len() - i,
{
    if i >= files.len() {
        None
    } else if files[i].name == id || !recovery::is_json(files[i].name) {
        ownership(files, id, i + 1)
    } else {
        match as_receipt(files[i]) {
            Ok(r) => if r.version == id {
                Some(
                    ErrorModel::Usage(
                        "this version belongs to receipt "@ + files[i].name + "; inspect that ID"@,
                    ),
                )
            } else {
                ownership(files, id, i + 1)
            },
            Err(e) => if !recovery::is_json(id) {
                Some(e)
            } else {
                ownership(files, id, i + 1)
            },
        }
    }
}

/// An entry without a receipt of its own.
pub open spec fn artifact(
    id: Seq<char>,
    files: Seq<RecoveryFileModel>,
    retained: Outcome<Option<RecoveryVersionModel>>,
    explanation: Seq<char>,
) -> Outcome<RecoveryInspectionModel> {
    match ownership(files, id, 0) {
        Some(e) => Err(e),
        None => match retained {
            Err(e) => Err(e),
            Ok(None) => Err(ErrorModel::Usage("recovery artifact is absent"@)),
            Ok(Some(version)) => Ok(
                RecoveryInspectionModel {
                    id,
                    recorded: false,
                    receipt: RecoveryReceiptModel {
                        path: Seq::empty(),
                        expected: Some(version.fingerprint),
                        replacement: None,
                        version: id,
                        state: RecoveryState::Resolved,
                        source_receipt: None,
                        discard_token: None,
                    },
                    live: None,
                    retained: Some(version),
                    token: content::token_of(
                        "["@ + json::json_string_text(id) + ","@ + content::version_json(Some(version)) + "]"@,
                    ),
                    explanation: explanation
                        + "; export retained bytes or explicitly discard only this artifact"@,
                },
            ),
        },
    }
}

pub open spec fn print_of_version(version: Option<RecoveryVersionModel>) -> Option<
    FingerprintModel,
> {
    match version {
        Some(v) => Some(v.fingerprint),
        None => None,
    }
}

/// What the versions suggest. A pending publication is never assumed to have
/// completed from the receipt alone.
pub open spec fn explained(
    r: RecoveryReceiptModel,
    live: Option<FingerprintModel>,
    retained: Option<FingerprintModel>,
) -> Seq<char> {
    match r.state {
        RecoveryState::Pending => if live == r.expected && (retained == r.replacement
            || retained is None) {
            "publication may be staged or not started; live and saved versions require an owner choice"@
        } else if live == r.replacement && retained == r.expected {
            "publication appears applied but completion was not recorded; review both versions"@
        } else {
            "interrupted publication is ambiguous; no version is chosen automatically"@
        },
        RecoveryState::Discarding =>
            "an explicit discard was interrupted; repeat discard with the recorded or current token"@,
        _ => if retained != r.expected {
            "retained inode changed after publication or review; data is preserved"@
        } else {
            "retained version is available for owner inspection"@
        },
    }
}

/// The token of a receipt and its versions: any change of them changes it.
pub open spec fn inspection_token(
    r: RecoveryReceiptModel,
    live: Option<RecoveryVersionModel>,
    retained: Option<RecoveryVersionModel>,
    id: Seq<char>,
) -> Seq<char> {
    content::token_of(inspection_text(r, live, retained, id))
}

/// What the token of an inspection is the digest of.
pub open spec fn inspection_text(
    r: RecoveryReceiptModel,
    live: Option<RecoveryVersionModel>,
    retained: Option<RecoveryVersionModel>,
    id: Seq<char>,
) -> Seq<char> {
    "["@ + content::receipt_json(r) + ","@ + content::version_json(live) + ","@ + content::version_json(
        retained,
    ) + ","@ + json::json_string_text(id) + "]"@
}

pub open spec fn receipt_inspection(
    id: Seq<char>,
    r: RecoveryReceiptModel,
    evidence: EvidenceModel,
) -> Outcome<RecoveryInspectionModel> {
    let live = if r.path.len() == 0 {
        Ok(None)
    } else {
        evidence.live
    };
    if live is Err {
        Err(live->Err_0)
    } else if evidence.retained is Err {
        Err(evidence.retained->Err_0)
    } else {
        let l = live->Ok_0;
        let k = evidence.retained->Ok_0;
        Ok(
            RecoveryInspectionModel {
                id,
                recorded: true,
                receipt: r,
                live: l,
                retained: k,
                token: inspection_token(r, l, k, id),
                explanation: explained(r, print_of_version(l), print_of_version(k)),
            },
        )
    }
}

/// What the owner is shown of an entry.
pub open spec fn inspection_outcome(
    id: Seq<char>,
    files: Seq<RecoveryFileModel>,
    evidence: EvidenceModel,
) -> Outcome<RecoveryInspectionModel> {
    if path::recovery_name_outcome(id) is Err {
        Err(path::recovery_name_outcome(id)->Err_0)
    } else if !recovery::is_json(id) {
        artifact(
            id,
            files,
            evidence.retained,
            "unreferenced saved or staged data; no original path is inferred"@,
        )
    } else {
        match evidence.sighting {
            SightingModel::Absent => Err(ErrorModel::Usage("recovery receipt is absent"@)),
            SightingModel::Failed(e) => Err(e),
            SightingModel::Oversized => artifact(
                id,
                files,
                evidence.retained,
                "receipt exceeds 64 KiB; raw metadata only, no original path is inferred"@,
            ),
            SightingModel::Receipt(read) => match read {
                Ok(r) if recovery::receipt_outcome(r) is Ok => receipt_inspection(id, r, evidence),
                _ => artifact(
                    id,
                    files,
                    evidence.retained,
                    "malformed receipt; raw metadata only, no original path is inferred"@,
                ),
            },
        }
    }
}

fn receipt_in(file: &RecoveryFile) -> (result: Result<RecoveryReceipt>)
    ensures
        error::outcome(result) == as_receipt(file@),
{
    match &file.receipt {
        None => Err(usage("recovery version is absent")),
        Some(ReceiptRead::Broken(e)) => Err(e.dup()),
        Some(ReceiptRead::Value { path: _, state: _, receipt, retained: _ }) => match receipt {
            Err(e) => Err(e.dup()),
            Ok(r) => match validate_receipt(r) {
                Err(e) => Err(e),
                Ok(_) => Ok(r.dup()),
            },
        },
    }
}

fn find_owner(files: &Vec<RecoveryFile>, id: &str) -> (error: Option<ClixError>)
    ensures
        (match error {
            Some(e) => ownership(files.deep_view(), id@, 0) == Some(e@),
            None => ownership(files.deep_view(), id@, 0) is None,
        }),
{
    let ghost view = files.deep_view();
    let mut i: usize = 0;
    while i < files.len()
        invariant
            i <= files.len(),
            view == files.deep_view(),
            ownership(view, id@, 0) == ownership(view, id@, i as int),
        decreases files.len() - i,
    {
        let file = &files[i];
        assert(view[i as int] == files@[i as int]@);
        if !text_same(&file.name, id) && has_json_name(&file.name) {
            match receipt_in(file) {
                Ok(r) => if text_same(&r.version, id) {
                    return Some(
                        ClixError::Usage(
                            cat3(
                                "this version belongs to receipt ",
                                &file.name,
                                "; inspect that ID",
                            ),
                        ),
                    );
                },
                Err(e) => if !has_json_name(id) {
                    return Some(e);
                },
            }
        }
        i += 1;
    }
    None
}

fn artifact_inspection(
    id: &str,
    files: &Vec<RecoveryFile>,
    retained: &Result<Option<RecoveryVersion>>,
    explanation: &str,
) -> (result: Result<RecoveryInspection>)
    ensures
        error::outcome(result) == artifact(id@, files.deep_view(), error::outcome(*retained), explanation@),
{
    if let Some(e) = find_owner(files, id) {
        return Err(e);
    }
    let version = match retained {
        Err(e) => return Err(e.dup()),
        Ok(None) => return Err(usage("recovery artifact is absent")),
        Ok(Some(version)) => version.dup(),
    };
    let kept = Some(version.dup());
    let mut json = owned("[");
    json.append(json_string(id).as_str());
    json.append(",");
    json.append(version_text(&kept).as_str());
    json.append("]");
    let path = String::new();
    assert(path@ =~= Seq::<char>::empty());
    Ok(
        RecoveryInspection {
            id: owned(id),
            recorded: false,
            receipt: RecoveryReceipt {
                path,
                expected: Some(version.fingerprint.dup()),
                replacement: None,
                version: owned(id),
                state: RecoveryState::Resolved,
                source_receipt: None,
                discard_token: None,
            },
            live: None,
            retained: kept,
            token: token(&json),
            explanation: cat2(
                explanation,
                "; export retained bytes or explicitly discard only this artifact",
            ),
        },
    )
}

pub(crate) fn version_print(version: &Option<RecoveryVersion>) -> (print: Option<Fingerprint>)
    ensures
        print.deep_view() == print_of_version(version.deep_view()),
{
    match version {
        Some(v) => Some(v.fingerprint.dup()),
        None => None,
    }
}

fn explain(r: &RecoveryReceipt, live: &Option<Fingerprint>, retained: &Option<Fingerprint>) -> (
    text: String)
    ensures
        text@ == explained(r@, live.deep_view(), retained.deep_view()),
{
    match r.state {
        RecoveryState::Pending => if live.same(&r.expected) && (retained.same(&r.replacement)
            || retained.is_none()) {
            owned(
                "publication may be staged or not started; live and saved versions require an owner choice",
            )
        } else if live.same(&r.replacement) && retained.same(&r.expected) {
            owned(
                "publication appears applied but completion was not recorded; review both versions",
            )
        } else {
            owned("interrupted publication is ambiguous; no version is chosen automatically")
        },
        RecoveryState::Discarding => owned(
            "an explicit discard was interrupted; repeat discard with the recorded or current token",
        ),
        _ => if !retained.same(&r.expected) {
            owned("retained inode changed after publication or review; data is preserved")
        } else {
            owned("retained version is available for owner inspection")
        },
    }
}

fn inspect_receipt(id: &str, r: &RecoveryReceipt, evidence: &Evidence) -> (result: Result<
    RecoveryInspection,
>)
    ensures
        error::outcome(result) == receipt_inspection(id@, r@, evidence@),
{
    let live: Option<RecoveryVersion> = if r.path.as_str().is_empty() {
        None
    } else {
        match &evidence.live {
            Ok(live) => live.dup(),
            Err(e) => return Err(e.dup()),
        }
    };
    let retained: Option<RecoveryVersion> = match &evidence.retained {
        Ok(retained) => retained.dup(),
        Err(e) => return Err(e.dup()),
    };
    let mut json = owned("[");
    json.append(receipt_text(r).as_str());
    json.append(",");
    json.append(version_text(&live).as_str());
    json.append(",");
    json.append(version_text(&retained).as_str());
    json.append(",");
    json.append(json_string(id).as_str());
    json.append("]");
    let explanation = explain(r, &version_print(&live), &version_print(&retained));
    Ok(
        RecoveryInspection {
            id: owned(id),
            recorded: true,
            receipt: r.dup(),
            live,
            retained,
            token: token(&json),
            explanation,
        },
    )
}

/// What the owner is shown of an entry, from what was found of it. `files` are
/// the entries of the recovery store.
pub fn inspection(id: &str, files: &Vec<RecoveryFile>, evidence: &Evidence) -> (result: Result<
    RecoveryInspection,
>)
    ensures
        error::outcome(result) == inspection_outcome(id@, files.deep_view(), evidence@),
{
    if let Err(e) = valid_recovery_name(id) {
        return Err(e);
    }
    if !has_json_name(id) {
        return artifact_inspection(
            id,
            files,
            &evidence.retained,
            "unreferenced saved or staged data; no original path is inferred",
        );
    }
    match &evidence.sighting {
        Sighting::Absent => Err(usage("recovery receipt is absent")),
        Sighting::Failed(e) => Err(e.dup()),
        Sighting::Oversized => artifact_inspection(
            id,
            files,
            &evidence.retained,
            "receipt exceeds 64 KiB; raw metadata only, no original path is inferred",
        ),
        Sighting::Receipt(read) => {
            if let Ok(r) = read {
                if validate_receipt(r).is_ok() {
                    return inspect_receipt(id, r, evidence);
                }
            }
            artifact_inspection(
                id,
                files,
                &evidence.retained,
                "malformed receipt; raw metadata only, no original path is inferred",
            )
        },
    }
}

impl RecoveryContext {
    /// What the owner may look at; `usual` is the root where a store names none.
    pub fn from_store(store: &Store, usual: &str) -> (context: RecoveryContext)
        ensures
            context@.root == sync::root_of(store@, usual@),
            context@.body == store@.body_name,
    {
        RecoveryContext { root: pin_root(store, usual), body: store.body_name.dup() }
    }

    /// Show one entry of the recovery store.
    pub fn inspect(&self, id: &str, files: &Vec<RecoveryFile>, evidence: &Evidence) -> (result:
        Result<RecoveryInspection>)
        ensures
            error::outcome(result) == inspection_outcome(id@, files.deep_view(), evidence@),
    {
        inspection(id, files, evidence)
    }
}

} // verus!
