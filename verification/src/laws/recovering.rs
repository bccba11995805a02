//! What is put aside for recovery: what its names may be, when it is in order, and
//! what a receipt that is read again must be.

use vstd::prelude::*;

use crate::crypto;
use crate::error::{ErrorModel, Outcome};
use crate::pin::export;
use crate::pin::inspect;
use crate::pin::listing;
use crate::pin::path;
use crate::pin::record::{
    FileMetaModel, RecoveryEntryModel, RecoveryInspectionModel, RecoveryReceiptModel, RecoveryState,
    RecoveryUsageModel,
};
use crate::pin::recovery;
use crate::pin::recovery::{ReceiptReadModel, RecoveryFileModel};
use crate::pin::sync;
use crate::store::FingerprintModel;
use crate::text;
use crate::types::PeerModel;

verus! {

/// A name of recovery data is one name of at most 200 bytes, and not one that the
/// directory itself needs.
pub proof fn law_recovery_data_names(name: Seq<char>)
    ensures
        name.len() > 0 && !name.contains('/') && name != "."@ && name != ".."@ && name != ".lock"@
            && text::byte_len(name) <= 200 ==> path::recovery_name_outcome(name) is Ok,
        text::byte_len(name) > 200 || name == ".lock"@ || (!name.contains('/') && (name.len() == 0
            || name == "."@ || name == ".."@)) ==> path::recovery_name_outcome(name) is Err,
        name.len() > 0 && name[0] == '/' ==> path::recovery_name_outcome(name) is Err,
{
    let none = Seq::<char>::empty();
    reveal_strlit("");
    if !name.contains('/') {
        text::lemma_pieces_word(none, name, '/');
        assert(none + name =~= name);
        assert(text::pieces(name, '/') =~= seq![name]);
        if name.len() == 0 {
            assert(name =~= ""@);
        }
    }
    if name.len() > 0 && name[0] == '/' {
        lemma_starts_empty(name);
        assert(text::pieces(name, '/')[0] =~= ""@);
    }
}

proof fn lemma_starts_empty(s: Seq<char>)
    requires
        s.len() > 0,
        s[0] == '/',
    ensures
        text::pieces(s, '/').len() > 1,
        text::pieces(s, '/')[0].len() == 0,
    decreases s.len(),
{
    if s.len() == 1 {
        assert(s.drop_last() =~= Seq::empty());
        assert(text::pieces(s.drop_last(), '/').len() == 1);
    } else {
        lemma_starts_empty(s.drop_last());
    }
}

/// A receipt that was read is in order where it is retained or resolved, is sound, and
/// what is retained is what it expects. It then stands for its version.
pub proof fn law_receipt_in_order(
    name: Seq<char>,
    path: Option<Seq<char>>,
    state: Option<Seq<char>>,
    receipt: Outcome<RecoveryReceiptModel>,
    retained: Outcome<Option<FingerprintModel>>,
    error: ErrorModel,
)
    ensures
        ({
            let read = ReceiptReadModel::Value { path, state, receipt, retained };
            let sound = (state == Some("retained"@) || state == Some("resolved"@)) && receipt is Ok
                && recovery::receipt_outcome(receipt->Ok_0) is Ok && retained == Ok::<
                Option<FingerprintModel>,
                ErrorModel,
            >(receipt->Ok_0.expected);
            &&& sound ==> recovery::settled_outcome(name, read) == Ok::<Seq<char>, ErrorModel>(
                receipt->Ok_0.version,
            )
            &&& !sound ==> recovery::settled_outcome(name, read) is Err
        }),
        recovery::settled_outcome(name, ReceiptReadModel::Broken(error)) == Err::<
            Seq<char>,
            ErrorModel,
        >(error),
{
}

/// A receipt that is not passed over, and is in order with the given version.
pub open spec fn settled_with(
    files: Seq<RecoveryFileModel>,
    ignored: Seq<Seq<char>>,
    j: int,
    version: Seq<char>,
) -> bool {
    recovery::is_json(files[j].name) && !ignored.contains(files[j].name) && files[j].receipt is Some
        && recovery::settled_outcome(files[j].name, files[j].receipt->0) == Ok::<
        Seq<char>,
        ErrorModel,
    >(version)
}

/// A receipt that is passed over, or is in order.
pub open spec fn in_order(
    files: Seq<RecoveryFileModel>,
    ignored: Seq<Seq<char>>,
    j: int,
) -> bool {
    !recovery::is_json(files[j].name) || ignored.contains(files[j].name) || (files[j].receipt
        is Some && recovery::settled_outcome(files[j].name, files[j].receipt->0) is Ok)
}

proof fn lemma_referenced(
    files: Seq<RecoveryFileModel>,
    ignored: Seq<Seq<char>>,
    i: int,
    versions: Seq<Seq<char>>,
    version: Seq<char>,
)
    requires
        0 <= i,
    ensures
        recovery::referenced(files, ignored, i, versions) is Ok <==> forall|j: int|
            i <= j < files.len() ==> #[trigger] in_order(files, ignored, j),
        recovery::referenced(files, ignored, i, versions) is Ok
            ==> (recovery::referenced(files, ignored, i, versions)->Ok_0.contains(version)
            <==> versions.contains(version) || exists|j: int|
            i <= j < files.len() && #[trigger] settled_with(files, ignored, j, version)),
    decreases files.len() - i,
{
    if i < files.len() {
        let here = in_order(files, ignored, i);
        if !recovery::is_json(files[i].name) || ignored.contains(files[i].name) {
            lemma_referenced(files, ignored, i + 1, versions, version);
            assert(here);
            assert(!settled_with(files, ignored, i, version));
        } else if files[i].receipt is Some && recovery::settled_outcome(
            files[i].name,
            files[i].receipt->0,
        ) is Ok {
            let own = recovery::settled_outcome(files[i].name, files[i].receipt->0)->Ok_0;
            let more = versions.push(own);
            lemma_referenced(files, ignored, i + 1, more, version);
            assert(here);
            assert(settled_with(files, ignored, i, own));
            assert(more[versions.len() as int] == own);
            if versions.contains(version) {
                let k = choose|k: int| 0 <= k < versions.len() && versions[k] == version;
                assert(more[k] == version);
            }
            if more.contains(version) && version != own {
                let k = choose|k: int| 0 <= k < more.len() && more[k] == version;
                assert(versions[k] == version);
            }
            if settled_with(files, ignored, i, version) {
                assert(version == own);
                assert(more.contains(own));
            }
        } else {
            assert(!here);
        }
    }
}

proof fn lemma_stray(
    files: Seq<RecoveryFileModel>,
    ignored: Seq<Seq<char>>,
    versions: Seq<Seq<char>>,
    i: int,
)
    requires
        0 <= i,
    ensures
        recovery::stray(files, ignored, versions, i) is None <==> forall|j: int|
            i <= j < files.len() ==> recovery::is_json((#[trigger] files[j]).name)
                || versions.contains(files[j].name) || recovery::owned_by_ignored(
                files,
                ignored,
                files[j].name,
            ),
    decreases files.len() - i,
{
    if i < files.len() {
        lemma_stray(files, ignored, versions, i + 1);
        assert(files[i] == files[i]);
    }
}

/// Some receipt accounts for the data: one that is in order, or one that is passed over
/// and names it.
pub open spec fn accounted_for(
    files: Seq<RecoveryFileModel>,
    ignored: Seq<Seq<char>>,
    name: Seq<char>,
) -> bool {
    (exists|j: int| 0 <= j < files.len() && #[trigger] settled_with(files, ignored, j, name)) || (
    exists|j: int|
        0 <= j < files.len() && ignored.contains((#[trigger] files[j]).name)
            && recovery::names_version(files[j], name))
}

/// Sharing goes on only over a recovery directory within its limits, in which every
/// receipt is in order and some receipt accounts for all data.
pub proof fn law_recovery_in_order(
    report: RecoveryUsageModel,
    files: Seq<RecoveryFileModel>,
    ignored: Seq<Seq<char>>,
)
    ensures
        recovery::recovery_outcome(report, files, ignored) is Ok <==> {
            &&& report.bytes <= recovery::MAX_RECOVERY_BYTES
            &&& report.entries <= recovery::MAX_RECOVERY_ENTRIES
            &&& forall|j: int| 0 <= j < files.len() ==> #[trigger] in_order(files, ignored, j)
            &&& forall|j: int|
                0 <= j < files.len() && !recovery::is_json((#[trigger] files[j]).name)
                    ==> accounted_for(files, ignored, files[j].name)
        },
{
    let none = Seq::<Seq<char>>::empty();
    let read = recovery::referenced(files, ignored, 0, none);
    lemma_referenced(files, ignored, 0, none, ""@);
    if read is Ok {
        let versions = read->Ok_0;
        lemma_stray(files, ignored, versions, 0);
        assert forall|j: int| 0 <= j < files.len() implies (versions.contains(
            (#[trigger] files[j]).name,
        ) || recovery::owned_by_ignored(files, ignored, files[j].name)) == accounted_for(
            files,
            ignored,
            files[j].name,
        ) by {
            lemma_referenced(files, ignored, 0, none, files[j].name);
        }
    }
}

/// Data is linked where some receipt that can be read names it.
pub proof fn law_linked_data(files: Seq<RecoveryFileModel>, version: Seq<char>, i: int)
    ensures
        0 <= i < files.len() && recovery::is_json(files[i].name) && (files[i].receipt matches Some(
            ReceiptReadModel::Value { receipt: Ok(r), .. },
        ) && recovery::receipt_outcome(r) is Ok && r.version == version) ==> listing::linked(
            files,
            version,
        ),
        listing::linked(files, version) ==> exists|k: int|
            0 <= k < files.len() && recovery::is_json((#[trigger] files[k]).name)
                && files[k].receipt is Some && (files[k].receipt->0 matches ReceiptReadModel::Value {
                receipt: Ok(r),
                ..
            } && r.version == version),
{
}

/// A receipt is exported as it was inspected: one that changed meanwhile is not.
pub proof fn law_receipt_is_reread(
    view: RecoveryInspectionModel,
    before: FileMetaModel,
    after: FileMetaModel,
    bytes: Seq<u8>,
    receipt: Outcome<RecoveryReceiptModel>,
)
    ensures
        ({
            let result = export::receipt_version(view, before, after, bytes, receipt);
            let still = before.bytes == after.bytes && before.device == after.device
                && before.inode == after.inode && before.mode == after.mode
                && before.modified_seconds == after.modified_seconds && before.modified_nanoseconds
                == after.modified_nanoseconds && before.changed_seconds == after.changed_seconds
                && before.changed_nanoseconds == after.changed_nanoseconds;
            &&& result matches Ok(version) ==> still && receipt == Ok::<
                RecoveryReceiptModel,
                ErrorModel,
            >(view.receipt) && version.fingerprint.hash == crypto::digest_text(bytes)
                && version.bytes == after.bytes && version.inode == after.inode && version.device
                == after.device
            &&& !still || (receipt matches Ok(r) && r != view.receipt) || receipt is Err
                ==> result is Err
        }),
{
}

/// The status of a peer says whether it was brought up to date, and else why not.
pub proof fn law_sync_status(name: Seq<char>, result: Outcome<()>)
    ensures
        ({
            let told = sync::sync_status(name, result);
            &&& told.peer == name
            &&& told.synced <==> result is Ok
            &&& result is Ok ==> told.error is None
            &&& result matches Err(e) ==> told.error == Some(e.message())
        }),
{
}

/// A conflict's token is made from all that the conflict shows, so that it stands for
/// this conflict alone.
pub proof fn law_conflict_token(
    peer: PeerModel,
    path: Seq<char>,
    local: Option<FingerprintModel>,
    remote: Option<FingerprintModel>,
    local_baseline: Option<FingerprintModel>,
    remote_baseline: Option<FingerprintModel>,
)
    ensures
        ({
            let shown = sync::snapshot_of(
                peer,
                path,
                local,
                remote,
                local_baseline,
                remote_baseline,
            );
            &&& shown.peer == peer.name
            &&& shown.peer_key == text::hex(peer.owner_pk)
            &&& shown.path == path
            &&& shown.local == local
            &&& shown.remote == remote
            &&& shown.local_baseline == local_baseline
            &&& shown.remote_baseline == remote_baseline
            &&& shown.token == crypto::digest_text(
                vstd::utf8::encode_utf8(sync::conflict_json(shown)),
            )
        }),
{
}

/// What an inspection says of what is retained: that it is as it was put aside, or that
/// it changed since.
pub proof fn law_inspection_explains(
    r: RecoveryReceiptModel,
    live: Option<FingerprintModel>,
    retained: Option<FingerprintModel>,
)
    ensures
        r.state != RecoveryState::Pending && r.state != RecoveryState::Discarding && retained
            == r.expected ==> inspect::explained(r, live, retained)
            == "retained version is available for owner inspection"@,
        r.state != RecoveryState::Pending && r.state != RecoveryState::Discarding && retained
            != r.expected ==> inspect::explained(r, live, retained)
            == "retained inode changed after publication or review; data is preserved"@,
        r.state == RecoveryState::Discarding ==> inspect::explained(r, live, retained)
            == "an explicit discard was interrupted; repeat discard with the recorded or current token"@,
        r.state == RecoveryState::Pending && live == r.expected && retained is None
            ==> inspect::explained(r, live, retained)
            == "publication may be staged or not started; live and saved versions require an owner choice"@,
        r.state == RecoveryState::Pending && live == r.replacement && live != r.expected && retained
            == r.expected ==> inspect::explained(r, live, retained)
            == "publication appears applied but completion was not recorded; review both versions"@,
        r.state == RecoveryState::Pending && live != r.expected && live != r.replacement
            ==> inspect::explained(r, live, retained)
            == "interrupted publication is ambiguous; no version is chosen automatically"@,
{
}

/// A scan passes over the directory itself and the one above it, wherever it is, and
/// over the recovery directory at the root alone.
pub proof fn law_scan_passes_over(prefix: Seq<char>, name: Seq<char>)
    ensures
        recovery::passed_over(prefix, "."@),
        recovery::passed_over(prefix, ".."@),
        prefix.len() == 0 ==> recovery::passed_over(prefix, ".clix-recovery"@),
        recovery::passed_over(prefix, name) ==> name == "."@ || name == ".."@ || (prefix.len() == 0
            && name == ".clix-recovery"@),
{
}

/// A page of the listing has a problem where a row of it has one.
pub proof fn law_problem_of_a_page(rows: Seq<RecoveryEntryModel>, i: int)
    ensures
        0 <= i < rows.len() && rows[i].problem is Some ==> listing::any_problem(rows),
        (forall|k: int| 0 <= k < rows.len() ==> (#[trigger] rows[k]).problem is None)
            ==> !listing::any_problem(rows),
{
}

/// A file is still the same where its size, place, permissions and times are.
pub proof fn law_same_file(a: FileMetaModel, b: FileMetaModel)
    ensures
        export::same_file(a, b) <==> a.bytes == b.bytes && a.device == b.device && a.inode
            == b.inode && a.mode == b.mode && a.modified_seconds == b.modified_seconds
            && a.modified_nanoseconds == b.modified_nanoseconds && a.changed_seconds
            == b.changed_seconds && a.changed_nanoseconds == b.changed_nanoseconds,
{
}

} // verus!
