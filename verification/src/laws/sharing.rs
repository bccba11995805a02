//! A shared directory, change by change: what a peer may do, what the owner is shown
//! and decides, and that nothing of a version is lost on the way.

use vstd::prelude::*;

use crate::crypto;
use crate::error::{ErrorModel, Outcome};
use crate::history::wire;
use crate::paths;
use crate::pin::content;
use crate::pin::decide;
use crate::pin::export;
use crate::pin::export::{ExportSightModel, RecoveryExportModel};
use crate::pin::inspect;
use crate::pin::inspect::{EvidenceModel, SightingModel};
use crate::pin::listing;
use crate::pin::listing::PageSightModel;
use crate::pin::path;
use crate::pin::plan;
use crate::pin::plan::Files;
use crate::pin::publish;
use crate::pin::publish::{PublicationModel, SiteModel};
use crate::pin::record::{
    ChangeModel, FileMetaModel, ListingModel, PinConflictSnapshotModel, RecoveryChoice,
    RecoveryChunkModel, RecoveryInspectionModel, RecoveryRead, RecoveryReceiptModel, RecoveryState,
    RecoveryUsageModel, RecoveryVersionModel,
};
use crate::pin::recovery;
use crate::pin::recovery::{EntryKind, ReceiptReadModel, RecoveryFileModel, ScanStepModel};
use crate::pin::sync;
use crate::pin::sync::{SyncActionModel, SyncEventModel, SyncPhase, SyncRunModel};
use crate::search;
use crate::store::{FingerprintModel, StoreModel};
use crate::table;
use crate::text;
use crate::types::{GrantModel, PeerModel};

verus! {

/// A peer's write is taken only where sharing is on, the path is acceptable, and the
/// peer expects what both last agreed on. It is then exactly the change that the peer
/// asked for, with exactly its content.
pub proof fn law_write_of_a_peer(
    s: StoreModel,
    peer: PeerModel,
    p: Seq<char>,
    expected: Option<FingerprintModel>,
    new: Option<FingerprintModel>,
    bytes: Seq<u8>,
)
    requires
        bytes.len() <= content::MAX_FILE,
    ensures
        ({
            let agreed = table::lookup(sync::baseline_of(s, peer.owner_pk), p);
            let sent: Outcome<(ChangeModel, Option<Seq<u8>>)> = sync::put_outcome(
                s,
                peer,
                Some(p),
                Some(expected),
                Some(new),
                Some(text::hex(bytes)),
            );
            let bare: Outcome<(ChangeModel, Option<Seq<u8>>)> = sync::put_outcome(
                s,
                peer,
                Some(p),
                Some(expected),
                Some(new),
                None,
            );
            let change = ChangeModel { path: p, expected, new, to_remote: false };
            &&& s.pin_enabled && path::pin_path(p) && expected == agreed ==> sent == Ok::<
                (ChangeModel, Option<Seq<u8>>),
                ErrorModel,
            >((change, Some(bytes)))
            &&& s.pin_enabled && path::pin_path(p) && expected == agreed ==> bare == Ok::<
                (ChangeModel, Option<Seq<u8>>),
                ErrorModel,
            >((change, None))
            &&& s.pin_enabled && path::pin_path(p) && expected != agreed ==> sent == Err::<
                (ChangeModel, Option<Seq<u8>>),
                ErrorModel,
            >(
                ErrorModel::PinConflict {
                    path: "src/"@ + p,
                    a: peer.name,
                    b: s.body_name + " (local change since last sync)"@,
                },
            )
            &&& !s.pin_enabled || !path::pin_path(p) ==> sent is Err && bare is Err
        }),
{
    content::law_content_round_trip(bytes);
}

/// A peer may list and read exactly while sharing is on: the shared directory, what was
/// agreed with that very peer, and only acceptable paths.
pub proof fn law_what_a_peer_may_see(
    s: StoreModel,
    peer: PeerModel,
    p: Seq<char>,
    usual: Seq<char>,
)
    ensures
        ({
            let root = if s.pin_dir is Some {
                s.pin_dir->0
            } else {
                usual
            };
            &&& s.pin_enabled ==> sync::list_entry(s, peer, usual) == Ok::<
                (Seq<char>, Files),
                ErrorModel,
            >((root, sync::baseline_of(s, peer.owner_pk)))
            &&& s.pin_enabled && path::pin_path(p) ==> sync::get_entry(s, Some(p), usual) == Ok::<
                (Seq<char>, Seq<char>),
                ErrorModel,
            >((root, p))
            &&& s.pin_enabled && !path::pin_path(p) ==> sync::get_entry(s, Some(p), usual) is Err
            &&& sync::get_entry(s, None, usual) is Err
        }),
{
}

/// What was agreed with a peer is what was last recorded for its key, and recording it
/// leaves what was agreed with every other peer.
pub proof fn law_agreement_is_per_peer(
    s: StoreModel,
    pk: Seq<u8>,
    other: Seq<u8>,
    manifest: Files,
    now: u64,
)
    requires
        table::ascending(s.pin_index.peers),
        text::hex(pk) != text::hex(other),
    ensures
        ({
            let next = sync::recorded(s, pk, manifest, now);
            &&& sync::baseline_of(next, pk) == manifest
            &&& sync::baseline_of(next, other) == sync::baseline_of(s, other)
            &&& next.pin_index.last_sync == Some(now)
            &&& next.pin_index.last_error is None
            &&& next.pin_index.hashes.len() == manifest.len()
            &&& forall|i: int|
                0 <= i < manifest.len() ==> #[trigger] next.pin_index.hashes[i] == (
                    manifest[i].0,
                    manifest[i].1.hash,
                )
            &&& next.grants == s.grants && next.jobs == s.jobs && next.pin_enabled == s.pin_enabled
        }),
{
    table::lemma_stored_lookup(s.pin_index.peers, text::hex(pk), manifest, text::hex(pk));
    table::lemma_stored_lookup(s.pin_index.peers, text::hex(pk), manifest, text::hex(other));
}

/// Nothing was agreed with a peer before the first synchronization.
pub proof fn law_nothing_agreed_at_first(s: StoreModel, pk: Seq<u8>, p: Seq<char>)
    requires
        table::lookup(s.pin_index.peers, text::hex(pk)) is None,
    ensures
        table::lookup(sync::baseline_of(s, pk), p) is None,
{
    table::lemma_rank_bounds(sync::baseline_of(s, pk), p);
}

/// A commit records the tree exactly where the scan shows the tree that was proposed.
pub proof fn law_commit_records_the_tree(
    s: StoreModel,
    peer: PeerModel,
    manifest: Files,
    scanned: Files,
    now: u64,
)
    requires
        table::ascending(s.pin_index.peers),
        s.pin_enabled,
    ensures
        ({
            let (next, result) = sync::committed(s, peer, manifest, scanned, now);
            &&& scanned == manifest ==> result is Ok && sync::baseline_of(next, peer.owner_pk)
                == manifest
            &&& scanned != manifest ==> result is Err && next == s
        }),
{
    table::lemma_stored_lookup(
        s.pin_index.peers,
        text::hex(peer.owner_pk),
        manifest,
        text::hex(peer.owner_pk),
    );
}

/// A synchronization that the owner asks for concerns the peer of that name, under its
/// key, from what was agreed with it.
pub proof fn law_sync_concerns_the_named_peer(
    s: StoreModel,
    name: Seq<char>,
    usual: Seq<char>,
    at: int,
)
    ensures
        !s.pin_enabled ==> sync::owner_peer_outcome(s, name, usual) is Err,
        s.pin_enabled && 0 <= at < s.peers.len() && s.peers[at].name == name && (forall|j: int|
            0 <= j < at ==> (#[trigger] s.peers[j]).name != name) ==> (sync::owner_peer_outcome(
            s,
            name,
            usual,
        ) matches Ok(found) && found.peer == s.peers[at] && found.owner_sk == s.owner_sk
            && found.baseline == sync::baseline_of(s, s.peers[at].owner_pk) && found.root == (
        if s.pin_dir is Some {
            s.pin_dir->0
        } else {
            usual
        })),
        s.pin_enabled && (forall|j: int|
            0 <= j < s.peers.len() ==> (#[trigger] s.peers[j]).name != name)
            ==> sync::owner_peer_outcome(s, name, usual) is Err,
{
    let test = wire::peer_named(name);
    search::lemma_first(s.peers, test);
    if 0 <= at < s.peers.len() && s.peers[at].name == name && (forall|j: int|
        0 <= j < at ==> (#[trigger] s.peers[j]).name != name) {
        search::lemma_first_at(s.peers, test, at);
    }
}

/// A synchronization may go on while state can be saved, the directory is the same and
/// the peer is still paired under the same key.
pub proof fn law_sync_goes_on_while(
    s: StoreModel,
    peer: PeerModel,
    root: Seq<char>,
    usual: Seq<char>,
)
    ensures
        sync::authority_outcome(s, peer, root, usual) is Ok <==> {
            &&& s.write_error is None
            &&& paths::same_place(
                if s.pin_dir is Some {
                    s.pin_dir->0
                } else {
                    usual
                },
                root,
            )
            &&& exists|i: int|
                0 <= i < s.peers.len() && (#[trigger] s.peers[i]).name == peer.name
                    && s.peers[i].owner_pk == peer.owner_pk
        },
{
}

/// A run carries out its changes one by one, in order, each towards the side it is
/// meant for, then scans, lets the peer commit, scans again and records.
pub proof fn law_sync_steps(run: SyncRunModel)
    requires
        0 <= run.done <= run.changes.len(),
    ensures
        run.phase == SyncPhase::Applying && run.done < run.changes.len() ==> {
            &&& run.changes[run.done].to_remote ==> run.next() == SyncActionModel::Send(
                run.changes[run.done],
            )
            &&& !run.changes[run.done].to_remote ==> run.next() == SyncActionModel::Take(
                run.changes[run.done],
            )
            &&& run.after(SyncEventModel::Applied) == Ok::<SyncRunModel, ErrorModel>(
                SyncRunModel { done: run.done + 1, ..run },
            )
        },
        run.phase == SyncPhase::Applying && run.done == run.changes.len() ==> run.next() is Scan
            && run.after(SyncEventModel::Scanned(run.merged)) == Ok::<SyncRunModel, ErrorModel>(
            SyncRunModel { phase: SyncPhase::Committing, ..run },
        ),
        run.phase == SyncPhase::Committing ==> run.next() is Commit && run.after(
            SyncEventModel::Committed,
        ) == Ok::<SyncRunModel, ErrorModel>(SyncRunModel { phase: SyncPhase::Confirming, ..run }),
        run.phase == SyncPhase::Confirming ==> run.next() is Scan && run.after(
            SyncEventModel::Scanned(run.merged),
        ) == Ok::<SyncRunModel, ErrorModel>(SyncRunModel { phase: SyncPhase::Recording, ..run }),
        run.phase == SyncPhase::Recording ==> run.next() is Record && run.after(
            SyncEventModel::Recorded,
        ) == Ok::<SyncRunModel, ErrorModel>(SyncRunModel { phase: SyncPhase::Finished, ..run }),
        run.phase == SyncPhase::Finished ==> run.next() is Done,
        forall|files: Files|
            files != run.merged ==> #[trigger] run.after(SyncEventModel::Scanned(files)) is Err,
{
}

proof fn lemma_conflicts(
    listed: Seq<(Seq<char>, ())>,
    i: int,
    peer: PeerModel,
    local: Files,
    base: Files,
    remote: ListingModel,
    rows: Seq<PinConflictSnapshotModel>,
    p: Seq<char>,
)
    requires
        0 <= i <= listed.len(),
    ensures
        ({
            let all = sync::conflicts_from(listed, i, peer, local, base, remote, rows);
            &&& all.len() >= rows.len()
            &&& forall|k: int| 0 <= k < rows.len() ==> #[trigger] all[k] == rows[k]
            &&& forall|k: int|
                rows.len() <= k < all.len() ==> shown_in_full(
                    #[trigger] all[k],
                    peer,
                    local,
                    base,
                    remote,
                )
            &&& (exists|j: int| i <= j < listed.len() && (#[trigger] listed[j]).0 == p)
                && must_choose(p, local, base, remote) ==> exists|k: int|
                rows.len() <= k < all.len() && (#[trigger] all[k]).path == p
        }),
    decreases listed.len() - i,
{
    if i < listed.len() {
        let at = listed[i].0;
        let l = table::lookup(local, at);
        let r = table::lookup(remote.files, at);
        let a = table::lookup(base, at);
        let b = table::lookup(remote.baseline, at);
        let more = if sync::in_conflict(l, r, a, b) {
            rows.push(sync::snapshot_of(peer, at, l, r, a, b))
        } else {
            rows
        };
        lemma_conflicts(listed, i + 1, peer, local, base, remote, more, p);
        let all = sync::conflicts_from(listed, i, peer, local, base, remote, rows);
        assert forall|k: int| 0 <= k < rows.len() implies #[trigger] all[k] == rows[k] by {
            assert(all[k] == more[k]);
        }
        assert forall|k: int| rows.len() <= k < all.len() implies shown_in_full(
            #[trigger] all[k],
            peer,
            local,
            base,
            remote,
        ) by {
            if k < more.len() {
                assert(all[k] == more[k]);
            }
        }
        if (exists|j: int| i <= j < listed.len() && (#[trigger] listed[j]).0 == p) && must_choose(
            p,
            local,
            base,
            remote,
        ) {
            if at == p {
                assert(all[rows.len() as int] == more[rows.len() as int]);
                assert(all[rows.len() as int].path == p);
            } else {
                let j = choose|j: int| i <= j < listed.len() && (#[trigger] listed[j]).0 == p;
                assert(listed[j].0 == p && j >= i + 1);
                let k = choose|k: int| more.len() <= k < all.len() && (#[trigger] all[k]).path == p;
                assert(all[k].path == p);
            }
        }
    }
}

/// A path on which only the owner can choose: the sides differ, and either they do not
/// agree on what they last agreed on, or both have changed it since.
pub open spec fn must_choose(p: Seq<char>, local: Files, base: Files, remote: ListingModel) -> bool {
    let l = table::lookup(local, p);
    let r = table::lookup(remote.files, p);
    let a = table::lookup(base, p);
    let b = table::lookup(remote.baseline, p);
    l != r && (a != b || (l != a && r != a))
}

/// A conflict as it is shown: the peer and its key, the path, and all four versions.
pub open spec fn shown_in_full(
    c: PinConflictSnapshotModel,
    peer: PeerModel,
    local: Files,
    base: Files,
    remote: ListingModel,
) -> bool {
    &&& must_choose(c.path, local, base, remote)
    &&& c.peer == peer.name
    &&& c.peer_key == text::hex(peer.owner_pk)
    &&& c.local == table::lookup(local, c.path)
    &&& c.remote == table::lookup(remote.files, c.path)
    &&& c.local_baseline == table::lookup(base, c.path)
    &&& c.remote_baseline == table::lookup(remote.baseline, c.path)
}

/// Every conflict that the owner has to decide is shown, with all four versions, and
/// nothing that is no conflict.
pub proof fn law_conflicts_are_shown(
    peer: PeerModel,
    local: Files,
    base: Files,
    remote: ListingModel,
    p: Seq<char>,
)
    requires
        table::ascending(local),
        table::ascending(base),
        table::ascending(remote.files),
        table::ascending(remote.baseline),
    ensures
        ({
            let report = sync::conflict_report(peer, local, base, remote);
            &&& report.peer == peer.name
            &&& report.baseline_mismatch <==> base != remote.baseline
            &&& forall|k: int|
                0 <= k < report.conflicts.len() ==> shown_in_full(
                    #[trigger] report.conflicts[k],
                    peer,
                    local,
                    base,
                    remote,
                )
            &&& must_choose(p, local, base, remote) ==> exists|k: int|
                0 <= k < report.conflicts.len() && (#[trigger] report.conflicts[k]).path == p
        }),
{
    let three = plan::all_paths(local, remote.files, base);
    let listed = plan::with_paths(three, remote.baseline, 0);
    plan::lemma_all_paths(local, remote.files, base);
    plan::lemma_with_paths(three, remote.baseline, 0);
    lemma_conflicts(listed, 0, peer, local, base, remote, Seq::empty(), p);
    let report = sync::conflict_report(peer, local, base, remote);
    let all = sync::conflicts_from(listed, 0, peer, local, base, remote, Seq::empty());
    assert(report.conflicts == all);
    assert forall|k: int| 0 <= k < report.conflicts.len() implies shown_in_full(
        #[trigger] report.conflicts[k],
        peer,
        local,
        base,
        remote,
    ) by {
        assert(shown_in_full(all[k], peer, local, base, remote));
    }
    if must_choose(p, local, base, remote) {
        assert(table::holds(local, p) || table::holds(remote.files, p));
        assert(table::holds(three, p));
        assert(table::holds(listed, p));
        table::lemma_rank_bounds(listed, p);
        assert(listed[table::rank(listed, p)].0 == p);
        let k = choose|k: int| 0 <= k < all.len() && (#[trigger] all[k]).path == p;
        assert(report.conflicts[k].path == p);
    }
}

/// A change is published only onto the version that it expects, with content of the
/// announced digest, and never over the program of a grant. What is already there is
/// left alone. Whatever is replaced is on record first.
pub proof fn law_publication(
    s: StoreModel,
    change: ChangeModel,
    data: Option<Seq<u8>>,
    site: SiteModel,
    version: Seq<char>,
    source: Option<Seq<char>>,
)
    ensures
        ({
            let result: Outcome<Option<PublicationModel>> = publish::publication(
                s,
                change,
                data,
                site,
                version,
                source,
            );
            &&& result is Ok ==> s.write_error is None && (change.new matches Some(print) ==> data
                is Some && crypto::digest_text(data->0) == print.hash && print.mode & !0o777 == 0)
            &&& result matches Ok(None) ==> site.current == change.new
            &&& result matches Ok(Some(p)) ==> {
                &&& site.current == change.expected
                &&& site.current != change.new
                &&& publish::granted_at(s.grants, site.binaries, site.destination, 0) is None
                &&& p.receipt_name == version + ".json"@
                &&& p.receipt.path == change.path
                &&& p.receipt.expected == change.expected
                &&& p.receipt.replacement == change.new
                &&& p.receipt.version == version
                &&& p.receipt.state == RecoveryState::Pending
                &&& p.receipt.source_receipt == source
                &&& p.exchange <==> site.current is Some
            }
            &&& s.write_error is None && publish::content_outcome(change.new, data) is Ok
                && site.current == change.new ==> result == Ok::<
                Option<PublicationModel>,
                ErrorModel,
            >(None)
            &&& s.write_error is None && publish::content_outcome(change.new, data) is Ok
                && site.current != change.new && site.current != change.expected ==> result
                == Err::<Option<PublicationModel>, ErrorModel>(
                ErrorModel::PinConflict {
                    path: "src/"@ + change.path,
                    a: "scanned version"@,
                    b: "current version"@,
                },
            )
        }),
{
}

/// New content is accepted exactly where it is there, has the announced digest and
/// carries permissions alone; a deletion needs none.
pub proof fn law_content_is_as_announced(new: Option<FingerprintModel>, data: Option<Seq<u8>>)
    ensures
        publish::content_outcome(new, data) is Ok <==> (new matches Some(print) ==> data is Some
            && crypto::digest_text(data->0) == print.hash && print.mode & !0o777 == 0),
{
}

/// The program of a grant is never replaced: some grant's program is at a path exactly
/// where one of them is.
pub proof fn law_granted_program_is_found(
    grants: Seq<GrantModel>,
    binaries: Seq<Seq<char>>,
    destination: Seq<char>,
    i: int,
)
    requires
        0 <= i,
        grants.len() == binaries.len(),
    ensures
        publish::granted_at(grants, binaries, destination, i) is Some <==> exists|j: int|
            i <= j < binaries.len() && paths::same_place(#[trigger] binaries[j], destination),
    decreases grants.len() - i,
{
    if i < grants.len() && !paths::same_place(binaries[i], destination) {
        law_granted_program_is_found(grants, binaries, destination, i + 1);
    }
}

/// After a rename the displaced version is kept where it is the expected one, and
/// otherwise nothing is called settled; a mere creation leaves no journal.
pub proof fn law_publication_is_settled(p: PublicationModel, displaced: Option<FingerprintModel>)
    ensures
        ({
            let result: Outcome<(RecoveryReceiptModel, bool)> = publish::settled(p, displaced);
            &&& p.receipt.expected is Some && displaced == p.receipt.expected ==> result == Ok::<
                (RecoveryReceiptModel, bool),
                ErrorModel,
            >((RecoveryReceiptModel { state: RecoveryState::Retained, ..p.receipt }, false))
            &&& p.receipt.expected is Some && displaced != p.receipt.expected ==> result is Err
            &&& p.receipt.expected is None ==> result == Ok::<
                (RecoveryReceiptModel, bool),
                ErrorModel,
            >((RecoveryReceiptModel { state: RecoveryState::Resolved, ..p.receipt }, true))
        }),
{
}

/// Room in the recovery store: so many bytes and entries, with some of both in reserve.
pub proof fn law_recovery_room(report: RecoveryUsageModel, bytes: u64, entries: u64)
    ensures
        recovery::admission_outcome(report, bytes, entries) is Ok <==> report.bytes + bytes
            + 1048576 <= 268435456 && report.entries + entries + 8 <= 4096,
{
}

/// The store is as large as its files together, and counts each of them.
pub proof fn law_recovery_usage(sizes: Seq<i64>, size: i64)
    requires
        size >= 0,
        recovery::total_size(sizes) + size <= u64::MAX,
        sizes.len() < u64::MAX,
    ensures
        recovery::usage_of(sizes.push(size)).bytes == recovery::usage_of(sizes).bytes + size,
        recovery::usage_of(sizes.push(size)).entries == recovery::usage_of(sizes).entries + 1,
        recovery::usage_of(Seq::empty()).bytes == 0,
        recovery::usage_of(Seq::empty()).entries == 0,
{
    assert(sizes.push(size).drop_last() =~= sizes);
}

/// A file is the version that was seen where everything about it is the same: device,
/// inode, size, permissions and both times.
pub proof fn law_same_version(meta: FileMetaModel, version: RecoveryVersionModel)
    ensures
        recovery::shows(meta, version) <==> {
            &&& meta.regular
            &&& meta.device == version.device
            &&& meta.inode == version.inode
            &&& meta.bytes == version.bytes
            &&& meta.mode & 0o777 == version.fingerprint.mode
            &&& meta.modified_seconds == version.modified_seconds
            &&& meta.modified_nanoseconds == version.modified_nanoseconds
            &&& meta.changed_seconds == version.changed_seconds
            &&& meta.changed_nanoseconds == version.changed_nanoseconds
        },
        recovery::unchanged(Some(meta), Some(version)) <==> recovery::shows(meta, version),
        recovery::unchanged(None, None),
        !recovery::unchanged(Some(meta), None),
        !recovery::unchanged(None, Some(version)),
{
}

/// A read of a file counts where it was regular, was read whole and did not change
/// meanwhile; it then has the digest of what was read.
pub proof fn law_read_counts(
    before: FileMetaModel,
    after: FileMetaModel,
    complete: bool,
    hash: Seq<char>,
)
    ensures
        ({
            let result: Outcome<RecoveryVersionModel> = recovery::snapshot_outcome(
                before,
                after,
                complete,
                hash,
            );
            &&& result is Ok <==> before.regular && complete && before == (FileMetaModel {
                regular: before.regular,
                ..after
            })
            &&& result matches Ok(version) ==> version.fingerprint.hash == hash && version.bytes
                == before.bytes && version.fingerprint.mode == before.mode & 0o777
                && version.inode == before.inode && version.device == before.device
        }),
{
}

/// A scan descends into directories and reads files, each under its own path, passes
/// over the recovery store and everything inside a repository's own directory, and
/// stops at anything else.
pub proof fn law_scan_steps(prefix: Seq<char>, name: Seq<char>, kind: EntryKind, count: usize)
    requires
        count < 4096,
        name != "."@ && name != ".."@,
        !(prefix.len() == 0 && name == ".clix-recovery"@),
        text::pieces(prefix, '/').len() < 64,
    ensures
        ({
            let p = if prefix.len() == 0 {
                name
            } else {
                prefix + "/"@ + name
            };
            let (counted, step) = recovery::scan_outcome(prefix, Some(name), kind, count);
            &&& counted == count + 1
            &&& path::excluded_path(p) ==> step == Ok::<ScanStepModel, ErrorModel>(
                ScanStepModel::Skip,
            )
            &&& !path::excluded_path(p) && kind == EntryKind::Directory ==> step == Ok::<
                ScanStepModel,
                ErrorModel,
            >(ScanStepModel::Descend(p))
            &&& !path::excluded_path(p) && kind == EntryKind::File ==> step == Ok::<
                ScanStepModel,
                ErrorModel,
            >(ScanStepModel::Read(p))
            &&& !path::excluded_path(p) && kind == EntryKind::Other ==> step is Err
        }),
        recovery::scan_outcome(Seq::empty(), Some(".clix-recovery"@), kind, count) == (
            count,
            Ok::<ScanStepModel, ErrorModel>(ScanStepModel::Skip),
        ),
        recovery::scan_outcome(prefix, Some(name), kind, 4096).1 is Err,
        recovery::scan_outcome(prefix, None, kind, count).1 is Err,
{
}

/// A receipt lets synchronization go on where it is settled, is sound, and what it
/// retains is what it recorded.
pub proof fn law_receipt_is_settled(name: Seq<char>, read: ReceiptReadModel)
    ensures
        recovery::settled_outcome(name, read) is Ok <==> (
        read matches ReceiptReadModel::Value { path, state, receipt, retained } && (state == Some(
            "retained"@,
        ) || state == Some("resolved"@)) && receipt is Ok && recovery::receipt_outcome(
            receipt->Ok_0,
        ) is Ok && retained == Ok::<Option<FingerprintModel>, ErrorModel>(receipt->Ok_0.expected)),
        recovery::settled_outcome(name, read) matches Ok(version) ==> (
        read matches ReceiptReadModel::Value { path, state, receipt, retained } && version
            == receipt->Ok_0.version),
{
}

/// What the owner sees of a receipt are the versions that are there, and the token
/// stands for all of it.
pub proof fn law_inspection_shows_what_is_there(
    id: Seq<char>,
    files: Seq<RecoveryFileModel>,
    evidence: EvidenceModel,
    r: RecoveryReceiptModel,
)
    requires
        path::recovery_name_outcome(id) is Ok,
        recovery::is_json(id),
        evidence.sighting == SightingModel::Receipt(Ok::<RecoveryReceiptModel, ErrorModel>(r)),
        recovery::receipt_outcome(r) is Ok,
        r.path.len() > 0,
    ensures
        ({
            let result: Outcome<RecoveryInspectionModel> = inspect::inspection_outcome(
                id,
                files,
                evidence,
            );
            &&& evidence.live is Ok && evidence.retained is Ok <==> result is Ok
            &&& result matches Ok(view) ==> {
                &&& view.id == id
                &&& view.recorded
                &&& view.receipt == r
                &&& evidence.live == Ok::<Option<RecoveryVersionModel>, ErrorModel>(view.live)
                &&& evidence.retained == Ok::<Option<RecoveryVersionModel>, ErrorModel>(
                    view.retained,
                )
                &&& view.token == inspect::inspection_token(r, view.live, view.retained, id)
            }
        }),
{
}

/// Data without a receipt is shown as it is and for what it is: no path is made up.
pub proof fn law_stray_data_is_shown(
    id: Seq<char>,
    files: Seq<RecoveryFileModel>,
    evidence: EvidenceModel,
    version: RecoveryVersionModel,
)
    requires
        path::recovery_name_outcome(id) is Ok,
        !recovery::is_json(id),
        inspect::ownership(files, id, 0) is None,
        evidence.retained == Ok::<Option<RecoveryVersionModel>, ErrorModel>(Some(version)),
    ensures
        inspect::inspection_outcome(id, files, evidence) matches Ok(view) && view.id == id
            && !view.recorded && view.retained == Some(version) && view.live is None
            && view.receipt.path.len() == 0 && view.receipt.version == id
            && view.receipt.expected == Some(version.fingerprint),
{
}

/// A version is handed out only under the token of what the owner last saw.
pub proof fn law_reading_needs_the_token(
    view: RecoveryInspectionModel,
    which: RecoveryRead,
    token: Seq<char>,
)
    ensures
        decide::read_outcome(view, which, token) is Ok <==> token == view.token && (view.recorded
            || which == RecoveryRead::Retained),
{
}

/// Keeping the live version changes no file; restoring puts the retained version in
/// place of the live one that was seen. Either needs the token of what was seen.
pub proof fn law_resolution_does_what_was_chosen(
    s: StoreModel,
    view: RecoveryInspectionModel,
    token: Seq<char>,
    choice: RecoveryChoice,
)
    ensures
        ({
            let result: Outcome<Option<ChangeModel>> = decide::resolution(s, view, token, choice);
            let allowed = s.write_error is None && token == view.token && view.recorded
                && view.receipt.state != RecoveryState::Discarding;
            &&& !allowed ==> result is Err
            &&& allowed && choice == RecoveryChoice::KeepLive ==> result == Ok::<
                Option<ChangeModel>,
                ErrorModel,
            >(None)
            &&& allowed && choice == RecoveryChoice::RestoreRetained && view.retained is None
                ==> result is Err
            &&& allowed && choice == RecoveryChoice::RestoreRetained && view.retained is Some ==> (
            result matches Ok(Some(change)) && change.path == view.receipt.path && change.new
                == Some(view.retained->0.fingerprint) && !change.to_remote && change.expected == (
            if view.live is Some {
                Some(view.live->0.fingerprint)
            } else {
                None
            }))
        }),
{
}

/// A resolution is recorded with the versions that are then there, and only where
/// nothing else changed.
pub proof fn law_resolution_is_recorded(
    before: RecoveryInspectionModel,
    after: RecoveryInspectionModel,
    choice: RecoveryChoice,
)
    ensures
        ({
            let result: Outcome<RecoveryReceiptModel> = decide::resolved(before, after, choice);
            &&& result is Ok <==> after.receipt == before.receipt && after.retained
                == before.retained && (choice == RecoveryChoice::KeepLive ==> after.live
                == before.live)
            &&& result matches Ok(r) ==> {
                &&& r.state == RecoveryState::Resolved
                &&& r.path == before.receipt.path
                &&& r.version == before.receipt.version
                &&& after.retained is Some ==> r.expected == Some(after.retained->0.fingerprint)
                &&& after.retained is None ==> r.expected is None
                &&& after.live is Some ==> r.replacement == Some(after.live->0.fingerprint)
                &&& after.live is None ==> r.replacement is None
            }
        }),
{
}

/// Discarding needs the token of what was seen, or of the discard that it goes on with;
/// what is pending is never discarded. The journal says what will go.
pub proof fn law_discard_is_journalled(
    s: StoreModel,
    view: RecoveryInspectionModel,
    id: Seq<char>,
    token: Seq<char>,
    fresh_id: Seq<char>,
)
    ensures
        ({
            let result: Outcome<(Seq<char>, RecoveryReceiptModel)> = decide::discard_outcome(
                s,
                view,
                id,
                token,
                fresh_id,
            );
            let going_on = view.receipt.state == RecoveryState::Discarding
                && view.receipt.discard_token == Some(token);
            &&& s.write_error is Some || (token != view.token && !going_on) || view.receipt.state
                == RecoveryState::Pending ==> result is Err
            &&& s.write_error is None && token == view.token && view.receipt.state
                != RecoveryState::Pending && !going_on ==> result is Ok
            &&& result matches Ok((name, r)) ==> {
                &&& view.recorded ==> name == id
                &&& !view.recorded ==> name == fresh_id + ".json"@
                &&& r.state == RecoveryState::Discarding
                &&& r.discard_token == Some(token)
                &&& r.path == view.receipt.path && r.version == view.receipt.version
                &&& view.retained is Some ==> r.expected == Some(view.retained->0.fingerprint)
                &&& view.retained is None ==> r.expected is None
            }
        }),
{
}

/// An export streams the version that was asked for, and fails where there is none.
pub proof fn law_export_takes_what_was_asked_for(
    view: RecoveryInspectionModel,
    receipt: Option<RecoveryVersionModel>,
    opened: bool,
)
    ensures
        opened && view.retained is Some ==> export::export_source(
            view,
            RecoveryRead::Retained,
            receipt,
            opened,
        ) == Ok::<RecoveryVersionModel, ErrorModel>(view.retained->0),
        opened && view.live is Some ==> export::export_source(
            view,
            RecoveryRead::Live,
            receipt,
            opened,
        ) == Ok::<RecoveryVersionModel, ErrorModel>(view.live->0),
        opened && receipt is Some ==> export::export_source(
            view,
            RecoveryRead::Receipt,
            receipt,
            opened,
        ) == Ok::<RecoveryVersionModel, ErrorModel>(receipt->0),
        !opened || view.retained is None ==> export::export_source(
            view,
            RecoveryRead::Retained,
            receipt,
            opened,
        ) is Err,
        !opened || view.live is None ==> export::export_source(
            view,
            RecoveryRead::Live,
            receipt,
            opened,
        ) is Err,
{
}

/// An export hands out the bytes as they were read, each piece where the last ended,
/// and calls itself complete only with all of the inspected content, by length and
/// digest. A piece that cannot be vouched for ends it.
pub proof fn law_export_hands_out_everything(
    x: RecoveryExportModel,
    bytes: Seq<u8>,
    versions: Outcome<()>,
    last: Outcome<()>,
)
    requires
        !x.failed,
        !x.complete,
        x.offset == x.content.len(),
        x.offset + bytes.len() <= x.expected.bytes,
    ensures
        ({
            let read = Ok::<Seq<u8>, ErrorModel>(bytes);
            let result: Outcome<RecoveryChunkModel> = export::chunk_outcome(
                x,
                read,
                versions,
                last,
            );
            let next = export::chunk_state(x, read, versions, last);
            &&& result matches Ok(chunk) ==> {
                &&& chunk.bytes == bytes
                &&& chunk.offset == x.offset
                &&& chunk.total_bytes == x.expected.bytes
                &&& chunk.eof <==> x.offset + bytes.len() == x.expected.bytes
                &&& chunk.eof ==> crypto::digest_text(x.content + bytes)
                    == x.expected.fingerprint.hash
                &&& next.offset == x.offset + bytes.len()
                &&& next.content == x.content + bytes
                &&& next.complete == chunk.eof
                &&& !next.failed
            }
            &&& result is Err ==> next.failed && !next.complete
            &&& versions is Ok && x.offset + bytes.len() < x.expected.bytes ==> result is Ok
            &&& versions is Ok && last is Ok && x.offset + bytes.len() == x.expected.bytes
                && crypto::digest_text(x.content + bytes) == x.expected.fingerprint.hash ==> result
                is Ok
            &&& versions is Err ==> result is Err
        }),
{
}

/// A piece is as long as was asked for, or as what is left.
pub proof fn law_export_pieces(x: RecoveryExportModel, length: usize)
    requires
        !x.failed,
        !x.complete,
        x.offset <= x.expected.bytes,
        1 <= length <= 65536,
    ensures
        ({
            let left = x.expected.bytes - x.offset;
            let result: Outcome<usize> = export::chunk_length(
                x,
                length,
                Ok::<(), ErrorModel>(()),
            );
            &&& result is Ok
            &&& left >= length ==> result->Ok_0 == length
            &&& left < length ==> result->Ok_0 == left
        }),
{
}

/// A stream is taken piece by piece, each where the last ended, of one total, and is
/// over exactly at that total.
pub proof fn law_stream_fits_together(offset: u64, total: Option<u64>, chunk: RecoveryChunkModel)
    ensures
        export::received(offset, total, chunk) is Ok <==> {
            &&& chunk.offset == offset
            &&& chunk.bytes.len() <= 65536
            &&& total matches Some(t) ==> t == chunk.total_bytes
            &&& offset + chunk.bytes.len() <= chunk.total_bytes
            &&& chunk.eof ==> offset + chunk.bytes.len() == chunk.total_bytes
            &&& !chunk.eof ==> chunk.bytes.len() > 0
        },
        export::received(offset, total, chunk) matches Ok(next) ==> next == offset
            + chunk.bytes.len(),
{
}

/// An export goes on while the directory, the source and everything that was inspected
/// are still what they were.
pub proof fn law_export_watches_everything(
    view: RecoveryInspectionModel,
    expected: RecoveryVersionModel,
    receipt: Option<RecoveryVersionModel>,
    sight: ExportSightModel,
)
    requires
        export::versions_outcome(view, expected, receipt, sight) is Ok,
    ensures
        sight.same_root,
        sight.directory is Some,
        sight.directory->0.inode == sight.first_directory.inode && sight.directory->0.device
            == sight.first_directory.device,
        recovery::shows(sight.source, expected),
        view.recorded ==> recovery::unchanged(sight.receipt, receipt),
        view.receipt.path.len() > 0 ==> recovery::unchanged(sight.live, view.live),
        recovery::unchanged(sight.retained, view.retained),
{
}

/// A row of the list says where a version belongs and in what state it is, and names
/// the problem where there is one.
pub proof fn law_list_rows(sight: PageSightModel)
    ensures
        ({
            let row = listing::receipt_row(sight);
            &&& row.id == sight.id
            &&& sight.view matches Err(e) ==> row.state == "invalid"@ && row.path is None
                && row.problem == Some(e.message())
            &&& sight.view matches Ok(view) ==> {
                &&& !view.recorded ==> row.state == "unreferenced"@ && row.path is None
                &&& view.recorded ==> row.path == Some(view.receipt.path) && row.state
                    == content::state_word(view.receipt.state)
                &&& view.recorded && sight.recheck is None && (view.receipt.state
                    == RecoveryState::Retained || view.receipt.state == RecoveryState::Resolved)
                    && inspect::print_of_version(view.retained) == view.receipt.expected
                    ==> row.problem is None
                &&& view.recorded && (view.receipt.state == RecoveryState::Pending
                    || view.receipt.state == RecoveryState::Discarding) ==> row.problem is Some
            }
        }),
{
}

} // verus!
