//! Synchronization with a peer: who may take part, what is checked before a
//! write, and what is recorded at the end.

use vstd::prelude::*;

use crate::data::{bytes_dup, Data};
use crate::error;
use crate::error::{protocol, usage, ClixError, ErrorModel, Outcome, Result};
use crate::history::find_peer;
use crate::history::wire;
use crate::json;
use crate::json::json_string;
use crate::paths;
use crate::paths::{is_same_place, join_path};
use crate::pin::content;
use crate::pin::content::{print_text, token, unhex};
use crate::pin::path;
use crate::pin::path::valid_path;
use crate::pin::plan;
use crate::pin::plan::{add_paths, print_at, changed, conflict, Files};
use crate::pin::record::{
    Change, ChangeModel, Listing, ListingModel, PinConflictReport, PinConflictReportModel,
    PinConflictSnapshot, PinConflictSnapshotModel, PinSyncStatus, PinSyncStatusModel,
};
use crate::search;
use crate::store::{Fingerprint, FingerprintModel, PinIndexModel, Store, StoreModel};
use crate::table;
use crate::table::Table;
use crate::text;
use crate::text::{bytes_same, cat2, cat3, hex_text, owned, text_same};
use crate::types::{Peer, PeerModel};

verus! {

pub open spec fn off_error(body: Seq<char>) -> ErrorModel {
    ErrorModel::Usage("pin is off on "@ + body + "; enable it there with clix pin on"@)
}

/// Pin is opt-in per machine. Every entry point that synchronizes, or that lets
/// a peer list, read or write this machine's pin tree, checks this first.
pub fn ensure_enabled(store: &Store) -> (result: Result<()>)
    ensures
        error::outcome(result) == if store@.pin_enabled {
            Ok::<(), ErrorModel>(())
        } else {
            Err::<(), ErrorModel>(off_error(store@.body_name))
        },
{
    if store.pin_enabled {
        Ok(())
    } else {
        Err(
            ClixError::Usage(
                cat3("pin is off on ", &store.body_name, "; enable it there with clix pin on"),
            ),
        )
    }
}

/// The shared directory: `CLIX_PIN`, else `src` in the home directory.
pub fn pin_dir(clix_pin: Option<String>, home: Option<String>) -> (dir: String)
    ensures
        dir@ == if paths::set_to(clix_pin.deep_view()) {
            clix_pin.deep_view()->0
        } else {
            paths::joined_path(
                match home.deep_view() {
                    Some(path) => path,
                    None => ""@,
                },
                "src"@,
            )
        },
{
    if let Some(dir) = clix_pin {
        if !dir.as_str().is_empty() {
            return dir;
        }
    }
    match home {
        Some(home) => join_path(&home, "src"),
        None => join_path("", "src"),
    }
}

pub open spec fn root_of(s: StoreModel, usual: Seq<char>) -> Seq<char> {
    match s.pin_dir {
        Some(dir) => dir,
        None => usual,
    }
}

/// The directory that a store shares; `usual` where it names none.
pub fn pin_root(store: &Store, usual: &str) -> (root: String)
    ensures
        root@ == root_of(store@, usual@),
{
    match &store.pin_dir {
        Some(dir) => dir.dup(),
        None => owned(usual),
    }
}

/// What was shared with a peer at the last synchronization.
pub open spec fn baseline_of(s: StoreModel, pk: Seq<u8>) -> Files {
    match table::lookup(s.pin_index.peers, text::hex(pk)) {
        Some(files) => files,
        None => Seq::empty(),
    }
}

pub fn baseline(store: &Store, pk: &Vec<u8>) -> (files: Table<Fingerprint>)
    ensures
        files.deep_view() == baseline_of(store@, pk@),
{
    match store.pin_index.peers.get(&hex_text(pk)) {
        Some(files) => files.dup(),
        None => Table::new(),
    }
}

/// The hashes in a manifest.
pub open spec fn hashes_of(manifest: Files) -> Seq<(Seq<char>, Seq<char>)> {
    Seq::new(manifest.len(), |i: int| (manifest[i].0, manifest[i].1.hash))
}

pub open spec fn recorded(s: StoreModel, pk: Seq<u8>, manifest: Files, now: u64) -> StoreModel {
    StoreModel {
        pin_index: PinIndexModel {
            peers: table::stored(s.pin_index.peers, text::hex(pk), manifest),
            last_sync: Some(now),
            hashes: hashes_of(manifest),
            last_error: None,
        },
        ..s
    }
}

fn hash_table(manifest: &Table<Fingerprint>) -> (hashes: Table<String>)
    ensures
        hashes.deep_view() == hashes_of(manifest.deep_view()),
{
    let ghost view = manifest.deep_view();
    let mut hashes: Table<String> = Table::new();
    manifest.observe();
    let mut i: usize = 0;
    assert(hashes.deep_view() =~= hashes_of(view).take(0));
    while i < manifest.len()
        invariant
            i <= view.len(),
            view == manifest.deep_view(),
            crate::table::ascending(view),
            hashes.deep_view() == hashes_of(view).take(i as int),
        decreases view.len() - i,
    {
        let ghost before = hashes.deep_view();
        proof {
            let key = view[i as int].0;
            crate::text::lemma_text_lt_order(key, key, key);
            assert forall|j: int| 0 <= j < i implies crate::text::text_lt(
                #[trigger] before[j].0,
                key,
            ) by {
                assert(before[j].0 == view[j].0);
                assert(crate::text::text_lt(view[j].0, view[i as int].0));
            }
            crate::table::lemma_rank_is(before, key, i as int);
        }
        hashes.put(manifest.key_at(i).dup(), manifest.value_at(i).hash.dup());
        i += 1;
        assert(hashes.deep_view() =~= hashes_of(view).take(i as int));
    }
    assert(hashes_of(view).take(i as int) =~= hashes_of(view));
    hashes
}

/// Record what is now shared with a peer; `now` is in milliseconds.
pub fn record(store: &mut Store, pk: &Vec<u8>, manifest: Table<Fingerprint>, now: u64)
    ensures
        final(store)@ == recorded(old(store)@, pk@, manifest.deep_view(), now),
{
    store.pin_index.hashes = hash_table(&manifest);
    store.pin_index.peers.put(hex_text(pk), manifest);
    store.pin_index.last_sync = Some(now);
    store.pin_index.last_error = None;
}

/// A peer that is still paired under the same key.
pub open spec fn still_paired(s: StoreModel, peer: PeerModel) -> bool {
    exists|i: int|
        0 <= i < s.peers.len() && (#[trigger] s.peers[i]).name == peer.name && s.peers[i].owner_pk
            == peer.owner_pk
}

fn is_still_paired(store: &Store, peer: &Peer) -> (yes: bool)
    ensures
        yes == still_paired(store@, peer@),
{
    let ghost view = store@.peers;
    let mut i: usize = 0;
    while i < store.peers.len()
        invariant
            i <= store.peers.len(),
            view == store@.peers,
            forall|j: int|
                0 <= j < i ==> !((#[trigger] view[j]).name == peer@.name && view[j].owner_pk
                    == peer@.owner_pk),
        decreases store.peers.len() - i,
    {
        assert(view[i as int] == store.peers@[i as int]@);
        if store.peers[i].name.same(&peer.name) && bytes_same(
            &store.peers[i].owner_pk,
            &peer.owner_pk,
        ) {
            assert(view[i as int].name == peer@.name);
            return true;
        }
        i += 1;
    }
    false
}

pub open spec fn authority_outcome(
    s: StoreModel,
    peer: PeerModel,
    root: Seq<char>,
    usual: Seq<char>,
) -> Outcome<()> {
    match s.write_error {
        Some(reason) => Err(crate::store::unavailable(reason)),
        None => if !paths::same_place(root_of(s, usual), root) || !still_paired(s, peer) {
            Err(plan::changed_error("pin root or peer identity changed during synchronization"@))
        } else {
            Ok(())
        },
    }
}

/// Whether a synchronization that began with this peer and root may go on.
pub fn current_sync_authority(store: &Store, peer: &Peer, root: &str, usual: &str) -> (result:
    Result<()>)
    ensures
        error::outcome(result) == authority_outcome(store@, peer@, root@, usual@),
{
    if let Err(e) = store.ensure_writable() {
        return Err(e);
    }
    if !is_same_place(&pin_root(store, usual), root) || !is_still_paired(store, peer) {
        return Err(changed("pin root or peer identity changed during synchronization"));
    }
    Ok(())
}

/// What the owner's pin commands need to know of a peer.
#[derive(Debug)]
pub struct OwnerPeer {
    pub peer: Peer,
    pub owner_sk: Vec<u8>,
    pub root: String,
    pub baseline: Table<Fingerprint>,
}

#[verifier::ext_equal]
pub struct OwnerPeerModel {
    pub peer: PeerModel,
    pub owner_sk: Seq<u8>,
    pub root: Seq<char>,
    pub baseline: Files,
}

impl View for OwnerPeer {
    type V = OwnerPeerModel;

    open spec fn view(&self) -> OwnerPeerModel {
        OwnerPeerModel {
            peer: self.peer@,
            owner_sk: self.owner_sk@,
            root: self.root@,
            baseline: self.baseline.deep_view(),
        }
    }
}

impl DeepView for OwnerPeer {
    type V = OwnerPeerModel;

    open spec fn deep_view(&self) -> OwnerPeerModel {
        self@
    }
}

pub open spec fn owner_peer_outcome(s: StoreModel, name: Seq<char>, usual: Seq<char>) -> Outcome<
    OwnerPeerModel,
> {
    if !s.pin_enabled {
        Err(off_error(s.body_name))
    } else {
        match search::found(s.peers, wire::peer_named(name)) {
            None => Err(ErrorModel::Usage(name + " is not paired"@)),
            Some(peer) => Ok(
                OwnerPeerModel {
                    peer,
                    owner_sk: s.owner_sk,
                    root: root_of(s, usual),
                    baseline: baseline_of(s, peer.owner_pk),
                },
            ),
        }
    }
}

pub fn owner_peer(store: &Store, name: &str, usual: &str) -> (result: Result<OwnerPeer>)
    ensures
        error::outcome(result) == owner_peer_outcome(store@, name@, usual@),
{
    if let Err(e) = ensure_enabled(store) {
        return Err(e);
    }
    match find_peer(&store.peers, name) {
        None => Err(ClixError::Usage(cat2(name, " is not paired"))),
        Some(at) => {
            assert(store@.peers[at as int] == store.peers@[at as int]@);
            let peer = store.peers[at].dup();
            let files = baseline(store, &peer.owner_pk);
            Ok(
                OwnerPeer {
                    peer,
                    owner_sk: bytes_dup(&store.owner_sk),
                    root: pin_root(store, usual),
                    baseline: files,
                },
            )
        },
    }
}

/// The text whose digest stands for an inspected conflict.
pub open spec fn conflict_json(c: PinConflictSnapshotModel) -> Seq<char> {
    "["@ + json::json_string_text(c.peer) + ","@ + json::json_string_text(c.peer_key) + ","@ + json::json_string_text(
        c.path,
    ) + ","@ + content::print_json(c.local) + ","@ + content::print_json(c.remote) + ","@ + content::print_json(
        c.local_baseline,
    ) + ","@ + content::print_json(c.remote_baseline) + "]"@
}

pub open spec fn snapshot_of(
    peer: PeerModel,
    path: Seq<char>,
    local: Option<FingerprintModel>,
    remote: Option<FingerprintModel>,
    local_baseline: Option<FingerprintModel>,
    remote_baseline: Option<FingerprintModel>,
) -> PinConflictSnapshotModel {
    let bare = PinConflictSnapshotModel {
        peer: peer.name,
        peer_key: text::hex(peer.owner_pk),
        path,
        local,
        remote,
        local_baseline,
        remote_baseline,
        token: Seq::empty(),
    };
    PinConflictSnapshotModel { token: content::token_of(conflict_json(bare)), ..bare }
}

fn conflict_snapshot(
    peer: &Peer,
    path: &str,
    local: Option<Fingerprint>,
    remote: Option<Fingerprint>,
    local_baseline: Option<Fingerprint>,
    remote_baseline: Option<Fingerprint>,
) -> (snapshot: PinConflictSnapshot)
    ensures
        snapshot@ == snapshot_of(
            peer@,
            path@,
            local.deep_view(),
            remote.deep_view(),
            local_baseline.deep_view(),
            remote_baseline.deep_view(),
        ),
{
    let peer_key = hex_text(&peer.owner_pk);
    let mut json = owned("[");
    json.append(json_string(&peer.name.0).as_str());
    json.append(",");
    json.append(json_string(&peer_key).as_str());
    json.append(",");
    json.append(json_string(path).as_str());
    json.append(",");
    json.append(print_text(&local).as_str());
    json.append(",");
    json.append(print_text(&remote).as_str());
    json.append(",");
    json.append(print_text(&local_baseline).as_str());
    json.append(",");
    json.append(print_text(&remote_baseline).as_str());
    json.append("]");
    PinConflictSnapshot {
        peer: peer.name.0.dup(),
        peer_key,
        path: owned(path),
        local,
        remote,
        local_baseline,
        remote_baseline,
        token: token(&json),
    }
}

/// A path on which the owner has to choose: the two sides differ and no common
/// version says which of them changed it.
pub open spec fn in_conflict(
    l: Option<FingerprintModel>,
    r: Option<FingerprintModel>,
    a: Option<FingerprintModel>,
    b: Option<FingerprintModel>,
) -> bool {
    l != r && (a != b || (l != a && r != a))
}

pub open spec fn conflicts_from(
    paths: Seq<(Seq<char>, ())>,
    i: int,
    peer: PeerModel,
    local: Files,
    base: Files,
    remote: ListingModel,
    rows: Seq<PinConflictSnapshotModel>,
) -> Seq<PinConflictSnapshotModel>
    decreases paths.len() - i,
{
    if i >= paths.len() {
        rows
    } else {
        let path = paths[i].0;
        let l = table::lookup(local, path);
        let r = table::lookup(remote.files, path);
        let a = table::lookup(base, path);
        let b = table::lookup(remote.baseline, path);
        let more = if in_conflict(l, r, a, b) {
            rows.push(snapshot_of(peer, path, l, r, a, b))
        } else {
            rows
        };
        conflicts_from(paths, i + 1, peer, local, base, remote, more)
    }
}

pub open spec fn conflict_report(
    peer: PeerModel,
    local: Files,
    base: Files,
    remote: ListingModel,
) -> PinConflictReportModel {
    let paths = plan::with_paths(
        plan::with_paths(
            plan::with_paths(plan::with_paths(Seq::empty(), local, 0), remote.files, 0),
            base,
            0,
        ),
        remote.baseline,
        0,
    );
    PinConflictReportModel {
        peer: peer.name,
        baseline_mismatch: base != remote.baseline,
        conflicts: conflicts_from(paths, 0, peer, local, base, remote, Seq::empty()),
    }
}

/// The conflicts between this machine's files and a peer's.
pub fn inspect_conflicts(
    peer: &Peer,
    local: &Table<Fingerprint>,
    base: &Table<Fingerprint>,
    remote: &Listing,
) -> (report: PinConflictReport)
    ensures
        report@ == conflict_report(peer@, local.deep_view(), base.deep_view(), remote@),
{
    let ghost lv = local.deep_view();
    let ghost bv = base.deep_view();
    let mut paths: Table<()> = Table::new();
    add_paths(&mut paths, local);
    add_paths(&mut paths, &remote.files);
    add_paths(&mut paths, base);
    add_paths(&mut paths, &remote.baseline);
    let ghost all = paths.deep_view();
    let ghost goal = conflicts_from(all, 0, peer@, lv, bv, remote@, Seq::empty());
    let mut conflicts: Vec<PinConflictSnapshot> = Vec::new();
    let mut i: usize = 0;
    assert(conflicts.deep_view() =~= Seq::<PinConflictSnapshotModel>::empty());
    while i < paths.len()
        invariant
            i <= all.len(),
            all == paths.deep_view(),
            lv == local.deep_view(),
            bv == base.deep_view(),
            goal == conflicts_from(
                all,
                i as int,
                peer@,
                lv,
                bv,
                remote@,
                conflicts.deep_view(),
            ),
        decreases all.len() - i,
    {
        let ghost before = conflicts.deep_view();
        let path = paths.key_at(i);
        let l = print_at(local, path);
        let r = print_at(&remote.files, path);
        let a = print_at(base, path);
        let b = print_at(&remote.baseline, path);
        if !l.same(&r) && (!a.same(&b) || (!l.same(&a) && !r.same(&a))) {
            let snapshot = conflict_snapshot(peer, path, l, r, a, b);
            let ghost item = snapshot@;
            conflicts.push(snapshot);
            assert(conflicts.deep_view() =~= before.push(item));
        }
        i += 1;
    }
    PinConflictReport {
        peer: peer.name.0.dup(),
        baseline_mismatch: !base.same(&remote.baseline),
        conflicts,
    }
}

/// The conflict that the owner names by its path and token.
pub open spec fn named_conflict(path: Seq<char>, token: Seq<char>) -> spec_fn(
    PinConflictSnapshotModel,
) -> bool {
    |c: PinConflictSnapshotModel| c.path == path && c.token == token
}

pub fn select_conflict(report: &PinConflictReport, path: &str, token: &str) -> (result: Result<
    PinConflictSnapshot,
>)
    ensures
        error::outcome(result) == match search::found(report@.conflicts, named_conflict(path@, token@)) {
            Some(c) => Ok::<PinConflictSnapshotModel, ErrorModel>(c),
            None => Err::<PinConflictSnapshotModel, ErrorModel>(
                ErrorModel::Usage(
                    "pin conflict changed; inspect conflicts again before choosing a version"@,
                ),
            ),
        },
{
    let ghost view = report@.conflicts;
    let ghost test = named_conflict(path@, token@);
    let mut i: usize = 0;
    while i < report.conflicts.len()
        invariant
            i <= report.conflicts.len(),
            view == report@.conflicts,
            test == named_conflict(path@, token@),
            forall|j: int| 0 <= j < i ==> !test(#[trigger] view[j]),
        decreases report.conflicts.len() - i,
    {
        let row = &report.conflicts[i];
        assert(view[i as int] == report.conflicts@[i as int]@);
        if text_same(&row.path, path) && text_same(&row.token, token) {
            proof {
                search::lemma_first_at(view, test, i as int);
            }
            return Ok(row.dup());
        }
        i += 1;
    }
    proof {
        search::lemma_first_none(view, test);
    }
    Err(usage("pin conflict changed; inspect conflicts again before choosing a version"))
}

/// What the owner selected must still be exactly what inspection shows.
pub fn check_selected(report: &PinConflictReport, selected: &PinConflictSnapshot) -> (result:
    Result<()>)
    ensures
        error::outcome(result) == if report@.conflicts.contains(selected@) {
            Ok::<(), ErrorModel>(())
        } else {
            Err::<(), ErrorModel>(
                plan::changed_error("pin conflict inspection is stale; inspect again"@),
            )
        },
{
    let ghost view = report@.conflicts;
    let mut i: usize = 0;
    while i < report.conflicts.len()
        invariant
            i <= report.conflicts.len(),
            view == report@.conflicts,
            forall|j: int| 0 <= j < i ==> view[j] != selected@,
        decreases report.conflicts.len() - i,
    {
        assert(view[i as int] == report.conflicts@[i as int]@);
        if report.conflicts[i].same(selected) {
            assert(view.contains(selected@));
            return Ok(());
        }
        i += 1;
    }
    Err(changed("pin conflict inspection is stale; inspect again"))
}

/// The peer and the baseline are those that the owner saw.
pub fn check_basis(peer: &Peer, base: &Table<Fingerprint>, selected: &PinConflictSnapshot) -> (
    result: Result<()>)
    ensures
        error::outcome(result) == if text::hex(peer@.owner_pk) != selected@.peer_key || table::lookup(
            base.deep_view(),
            selected@.path,
        ) != selected@.local_baseline {
            Err::<(), ErrorModel>(plan::changed_error("pin peer or baseline changed"@))
        } else {
            Ok::<(), ErrorModel>(())
        },
{
    if !text_same(&hex_text(&peer.owner_pk), &selected.peer_key) || !print_at(
        base,
        &selected.path,
    ).same(&selected.local_baseline) {
        return Err(changed("pin peer or baseline changed"));
    }
    Ok(())
}

/// The owner accepts the inspected peer version on this machine.
pub fn take_change(selected: &PinConflictSnapshot) -> (change: Change)
    ensures
        change@ == (ChangeModel {
            path: selected@.path,
            expected: selected@.local,
            new: selected@.remote,
            to_remote: false,
        }),
{
    Change {
        path: selected.path.dup(),
        expected: selected.local.dup(),
        new: selected.remote.dup(),
        to_remote: false,
    }
}

/// What a peer that asks for a listing may see: the directory to scan, and what
/// was shared with that peer.
pub open spec fn list_entry(s: StoreModel, peer: PeerModel, usual: Seq<char>) -> Outcome<
    (Seq<char>, Files),
> {
    if s.pin_enabled {
        Ok((root_of(s, usual), baseline_of(s, peer.owner_pk)))
    } else {
        Err(off_error(s.body_name))
    }
}

pub fn enter_list(store: &Store, peer: &Peer, usual: &str) -> (result: Result<
    (String, Table<Fingerprint>),
>)
    ensures
        error::outcome(result) == list_entry(store@, peer@, usual@),
{
    match ensure_enabled(store) {
        Ok(_) => Ok((pin_root(store, usual), baseline(store, &peer.owner_pk))),
        Err(e) => Err(e),
    }
}

/// The directory and the path that a peer may read.
pub open spec fn get_entry(s: StoreModel, path: Option<Seq<char>>, usual: Seq<char>) -> Outcome<
    (Seq<char>, Seq<char>),
> {
    if !s.pin_enabled {
        Err(off_error(s.body_name))
    } else if path is None {
        Err(ErrorModel::Protocol("missing pin path"@))
    } else if path::path_outcome(path->0) is Err {
        Err(path::path_outcome(path->0)->Err_0)
    } else {
        Ok((root_of(s, usual), path->0))
    }
}

pub fn enter_get(store: &Store, path: Option<String>, usual: &str) -> (result: Result<
    (String, String),
>)
    ensures
        error::outcome(result) == get_entry(store@, path.deep_view(), usual@),
{
    if let Err(e) = ensure_enabled(store) {
        return Err(e);
    }
    match path {
        None => Err(protocol("missing pin path")),
        Some(path) => match valid_path(&path) {
            Ok(_) => Ok((pin_root(store, usual), path)),
            Err(e) => Err(e),
        },
    }
}

/// What a peer asks to be written.
#[derive(Debug)]
pub struct PutRequest {
    pub path: Option<String>,
    /// Missing, or the version that the peer expects here.
    pub expected: Option<Option<Fingerprint>>,
    /// Missing, or the version that the peer brings.
    pub new: Option<Option<Fingerprint>>,
    pub content: Option<String>,
}

pub open spec fn put_outcome(
    s: StoreModel,
    peer: PeerModel,
    path: Option<Seq<char>>,
    expected: Option<Option<FingerprintModel>>,
    new: Option<Option<FingerprintModel>>,
    content: Option<Seq<char>>,
) -> Outcome<(ChangeModel, Option<Seq<u8>>)> {
    if !s.pin_enabled {
        Err(off_error(s.body_name))
    } else if path is None {
        Err(ErrorModel::Protocol("missing pin path"@))
    } else if expected is None || new is None {
        Err(ErrorModel::Protocol("pin write requires version preconditions"@))
    } else if path::path_outcome(path->0) is Err {
        Err(path::path_outcome(path->0)->Err_0)
    } else if table::lookup(baseline_of(s, peer.owner_pk), path->0) != expected->0 {
        Err(
            plan::conflict_error(
                path->0,
                peer.name,
                s.body_name + " (local change since last sync)"@,
            ),
        )
    } else if content is Some && content::unhex_outcome(content->0) is Err {
        Err(content::unhex_outcome(content->0)->Err_0)
    } else {
        Ok(
            (
                ChangeModel {
                    path: path->0,
                    expected: expected->0,
                    new: new->0,
                    to_remote: false,
                },
                match content {
                    Some(text) => Some(content::unhex_outcome(text)->Ok_0),
                    None => None,
                },
            ),
        )
    }
}

/// What an accepted write carries.
pub open spec fn put_view(result: Result<(Change, Option<Vec<u8>>)>) -> Outcome<
    (ChangeModel, Option<Seq<u8>>),
> {
    match result {
        Ok((change, bytes)) => Ok(
            (
                change@,
                match bytes {
                    Some(b) => Some(b@),
                    None => None,
                },
            ),
        ),
        Err(e) => Err(e@),
    }
}

/// The write that a peer asks for. The honest-conflict rule is enforced on the
/// receiver too: a write is accepted only where this machine's own recorded
/// baseline for the peer is the version that the peer expects. A local edit since
/// the last synchronization cannot be overwritten by echoing its fingerprint.
pub fn accept_put(store: &Store, peer: &Peer, request: &PutRequest) -> (result: Result<
    (Change, Option<Vec<u8>>),
>)
    ensures
        put_view(result) == put_outcome(
            store@,
            peer@,
            request.path.deep_view(),
            request.expected.deep_view(),
            request.new.deep_view(),
            request.content.deep_view(),
        ),
{
    if let Err(e) = ensure_enabled(store) {
        return Err(e);
    }
    let path = match &request.path {
        Some(path) => path,
        None => return Err(protocol("missing pin path")),
    };
    let (expected, new) = match (&request.expected, &request.new) {
        (Some(expected), Some(new)) => (expected, new),
        _ => return Err(protocol("pin write requires version preconditions")),
    };
    if let Err(e) = valid_path(path) {
        return Err(e);
    }
    if !print_at(&baseline(store, &peer.owner_pk), path).same(expected) {
        return Err(
            conflict(
                path,
                &peer.name.0,
                cat2(&store.body_name, " (local change since last sync)").as_str(),
            ),
        );
    }
    let bytes: Option<Vec<u8>> = match &request.content {
        Some(text) => match unhex(text) {
            Ok(bytes) => Some(bytes),
            Err(e) => return Err(e),
        },
        None => None,
    };
    Ok(
        (
            Change { path: path.dup(), expected: expected.dup(), new: new.dup(), to_remote: false },
            bytes,
        ),
    )
}

/// What a peer that asks for a file is sent.
pub fn answer_get(path: &str, found: &Option<(Fingerprint, Vec<u8>)>, expected: &Fingerprint) -> (
    result: Result<String>)
    ensures
        error::outcome(result) == match found {
            Some((print, bytes)) => if print@ == expected@ {
                Ok::<Seq<char>, ErrorModel>(text::hex(bytes@))
            } else {
                Err::<Seq<char>, ErrorModel>(plan::changed_error(path@))
            },
            None => Err::<Seq<char>, ErrorModel>(plan::changed_error(path@)),
        },
{
    match found {
        Some((print, bytes)) => if print.same(expected) {
            Ok(hex_text(bytes))
        } else {
            Err(changed(path))
        },
        None => Err(changed(path)),
    }
}

pub open spec fn committed(
    s: StoreModel,
    peer: PeerModel,
    manifest: Files,
    scanned: Files,
    now: u64,
) -> (StoreModel, Outcome<()>) {
    if !s.pin_enabled {
        (s, Err(off_error(s.body_name)))
    } else if scanned != manifest {
        (s, Err(plan::changed_error("(tree changed before commit)"@)))
    } else {
        (recorded(s, peer.owner_pk, manifest, now), Ok(()))
    }
}

/// A peer's word that both sides are equal, held against a fresh scan.
pub fn accept_commit(
    store: &mut Store,
    peer: &Peer,
    manifest: Table<Fingerprint>,
    scanned: &Table<Fingerprint>,
    now: u64,
) -> (result: Result<()>)
    ensures
        (final(store)@, error::outcome(result)) == committed(
            old(store)@,
            peer@,
            manifest.deep_view(),
            scanned.deep_view(),
            now,
        ),
{
    if let Err(e) = ensure_enabled(store) {
        return Err(e);
    }
    if !scanned.same(&manifest) {
        return Err(changed("(tree changed before commit)"));
    }
    record(store, &peer.owner_pk, manifest, now);
    Ok(())
}

/// While sharing is off, another machine can neither list, read nor write here,
/// nor change what is recorded as shared.
pub proof fn law_off_is_closed(
    s: StoreModel,
    peer: PeerModel,
    path: Option<Seq<char>>,
    expected: Option<Option<FingerprintModel>>,
    new: Option<Option<FingerprintModel>>,
    content: Option<Seq<char>>,
    manifest: Files,
    scanned: Files,
    now: u64,
    usual: Seq<char>,
)
    requires
        !s.pin_enabled,
    ensures
        list_entry(s, peer, usual) is Err,
        get_entry(s, path, usual) is Err,
        put_outcome(s, peer, path, expected, new, content) is Err,
        committed(s, peer, manifest, scanned, now).0 == s,
        committed(s, peer, manifest, scanned, now).1 is Err,
{
}

/// How far a synchronization has come.
#[derive(Debug, Clone, Copy, PartialEq, Eq, Structural)]
pub enum SyncPhase {
    Applying,
    Committing,
    Confirming,
    Recording,
    Finished,
}

/// A synchronization under way: the changes still to carry out, and what both
/// sides shall have at the end.
#[derive(Debug)]
pub struct SyncRun {
    pub changes: Vec<Change>,
    pub merged: Table<Fingerprint>,
    pub done: usize,
    pub phase: SyncPhase,
}

#[verifier::ext_equal]
pub struct SyncRunModel {
    pub changes: Seq<ChangeModel>,
    pub merged: Files,
    pub done: int,
    pub phase: SyncPhase,
}

impl View for SyncRun {
    type V = SyncRunModel;

    open spec fn view(&self) -> SyncRunModel {
        SyncRunModel {
            changes: self.changes.deep_view(),
            merged: self.merged.deep_view(),
            done: self.done as int,
            phase: self.phase,
        }
    }
}

/// What a synchronization does next.
#[derive(Debug)]
pub enum SyncAction {
    /// Read the file here and send it, if it is still the version to send.
    Send(Change),
    /// Fetch the file from the peer, or delete it here, and publish.
    Take(Change),
    /// Scan this machine's tree.
    Scan,
    /// Ask the peer to record the merged files.
    Commit,
    /// Record the merged files here.
    Record,
    Done,
}

#[verifier::ext_equal]
pub enum SyncActionModel {
    Send(ChangeModel),
    Take(ChangeModel),
    Scan,
    Commit,
    Record,
    Done,
}

impl View for SyncAction {
    type V = SyncActionModel;

    open spec fn view(&self) -> SyncActionModel {
        match self {
            SyncAction::Send(change) => SyncActionModel::Send(change@),
            SyncAction::Take(change) => SyncActionModel::Take(change@),
            SyncAction::Scan => SyncActionModel::Scan,
            SyncAction::Commit => SyncActionModel::Commit,
            SyncAction::Record => SyncActionModel::Record,
            SyncAction::Done => SyncActionModel::Done,
        }
    }
}

/// What came of an action.
#[derive(Debug)]
pub enum SyncEvent {
    Applied,
    Scanned(Table<Fingerprint>),
    Committed,
    Recorded,
}

#[verifier::ext_equal]
pub enum SyncEventModel {
    Applied,
    Scanned(Files),
    Committed,
    Recorded,
}

impl View for SyncEvent {
    type V = SyncEventModel;

    open spec fn view(&self) -> SyncEventModel {
        match self {
            SyncEvent::Applied => SyncEventModel::Applied,
            SyncEvent::Scanned(files) => SyncEventModel::Scanned(files.deep_view()),
            SyncEvent::Committed => SyncEventModel::Committed,
            SyncEvent::Recorded => SyncEventModel::Recorded,
        }
    }
}

impl SyncRunModel {
    pub open spec fn next(self) -> SyncActionModel {
        match self.phase {
            SyncPhase::Applying => if self.done < self.changes.len() {
                let change = self.changes[self.done];
                if change.to_remote {
                    SyncActionModel::Send(change)
                } else {
                    SyncActionModel::Take(change)
                }
            } else {
                SyncActionModel::Scan
            },
            SyncPhase::Committing => SyncActionModel::Commit,
            SyncPhase::Confirming => SyncActionModel::Scan,
            SyncPhase::Recording => SyncActionModel::Record,
            SyncPhase::Finished => SyncActionModel::Done,
        }
    }

    /// A synchronization goes on only while the tree is what was planned.
    pub open spec fn after(self, event: SyncEventModel) -> Outcome<SyncRunModel> {
        match (self.phase, event) {
            (SyncPhase::Applying, SyncEventModel::Applied) => if self.done < self.changes.len() {
                Ok(SyncRunModel { done: self.done + 1, ..self })
            } else {
                Err(out_of_order())
            },
            (SyncPhase::Applying, SyncEventModel::Scanned(files)) => if self.done
                < self.changes.len() {
                Err(out_of_order())
            } else if files != self.merged {
                Err(plan::changed_error("(tree changed during sync)"@))
            } else {
                Ok(SyncRunModel { phase: SyncPhase::Committing, ..self })
            },
            (SyncPhase::Committing, SyncEventModel::Committed) => Ok(
                SyncRunModel { phase: SyncPhase::Confirming, ..self },
            ),
            (SyncPhase::Confirming, SyncEventModel::Scanned(files)) => if files != self.merged {
                Err(plan::changed_error("(tree changed during commit)"@))
            } else {
                Ok(SyncRunModel { phase: SyncPhase::Recording, ..self })
            },
            (SyncPhase::Recording, SyncEventModel::Recorded) => Ok(
                SyncRunModel { phase: SyncPhase::Finished, ..self },
            ),
            _ => Err(out_of_order()),
        }
    }
}

pub open spec fn out_of_order() -> ErrorModel {
    ErrorModel::Protocol("pin synchronization is out of order"@)
}

impl SyncRun {
    /// Begin with a plan.
    pub fn start(changes: Vec<Change>, merged: Table<Fingerprint>) -> (run: SyncRun)
        ensures
            run@ == (SyncRunModel {
                changes: changes.deep_view(),
                merged: merged.deep_view(),
                done: 0,
                phase: SyncPhase::Applying,
            }),
    {
        SyncRun { changes, merged, done: 0, phase: SyncPhase::Applying }
    }

    pub fn next(&self) -> (action: SyncAction)
        ensures
            action@ == self@.next(),
    {
        match self.phase {
            SyncPhase::Applying => if self.done < self.changes.len() {
                assert(self@.changes[self.done as int] == self.changes@[self.done as int]@);
                let change = self.changes[self.done].dup();
                if change.to_remote {
                    SyncAction::Send(change)
                } else {
                    SyncAction::Take(change)
                }
            } else {
                SyncAction::Scan
            },
            SyncPhase::Committing => SyncAction::Commit,
            SyncPhase::Confirming => SyncAction::Scan,
            SyncPhase::Recording => SyncAction::Record,
            SyncPhase::Finished => SyncAction::Done,
        }
    }

    /// Take in what came of an action. An error ends the synchronization.
    pub fn advance(&mut self, event: &SyncEvent) -> (result: Result<()>)
        ensures
            (match old(self)@.after(event@) {
                Ok(next) => result is Ok && final(self)@ == next,
                Err(e) => error::outcome(result) == Err::<(), ErrorModel>(e) && final(self)@ == old(
                    self,
                )@,
            }),
    {
        match (self.phase, event) {
            (SyncPhase::Applying, SyncEvent::Applied) => {
                if self.done < self.changes.len() {
                    self.done = self.done + 1;
                    Ok(())
                } else {
                    Err(protocol("pin synchronization is out of order"))
                }
            },
            (SyncPhase::Applying, SyncEvent::Scanned(files)) => {
                if self.done < self.changes.len() {
                    Err(protocol("pin synchronization is out of order"))
                } else if !files.same(&self.merged) {
                    Err(changed("(tree changed during sync)"))
                } else {
                    self.phase = SyncPhase::Committing;
                    Ok(())
                }
            },
            (SyncPhase::Committing, SyncEvent::Committed) => {
                self.phase = SyncPhase::Confirming;
                Ok(())
            },
            (SyncPhase::Confirming, SyncEvent::Scanned(files)) => {
                if !files.same(&self.merged) {
                    Err(changed("(tree changed during commit)"))
                } else {
                    self.phase = SyncPhase::Recording;
                    Ok(())
                }
            },
            (SyncPhase::Recording, SyncEvent::Recorded) => {
                self.phase = SyncPhase::Finished;
                Ok(())
            },
            _ => Err(protocol("pin synchronization is out of order")),
        }
    }
}

/// A file is sent only as the version that was planned.
pub fn check_source(change: &Change, found: &Option<Fingerprint>) -> (result: Result<()>)
    ensures
        error::outcome(result) == if found.deep_view() == change@.new {
            Ok::<(), ErrorModel>(())
        } else {
            Err::<(), ErrorModel>(plan::changed_error(change@.path))
        },
{
    if found.same(&change.new) {
        Ok(())
    } else {
        Err(changed(&change.path))
    }
}

pub open spec fn sync_status(name: Seq<char>, result: Outcome<()>) -> PinSyncStatusModel {
    PinSyncStatusModel {
        peer: name,
        synced: result is Ok,
        error: match result {
            Ok(_) => None,
            Err(e) => Some(e.message()),
        },
    }
}

/// How a synchronization that the owner asked for went; a failure is kept.
pub fn report_sync(store: &mut Store, name: &str, result: Result<()>) -> (status: PinSyncStatus)
    ensures
        status@ == sync_status(name@, error::outcome(result)),
        final(store)@ == match error::outcome(result) {
            Ok(_) => old(store)@,
            Err(e) => StoreModel {
                pin_index: PinIndexModel {
                    last_error: Some(e.message()),
                    ..old(store)@.pin_index
                },
                ..old(store)@
            },
        },
{
    match result {
        Ok(_) => PinSyncStatus { peer: owned(name), synced: true, error: None },
        Err(e) => {
            let message = e.message();
            store.pin_index.last_error = Some(message.dup());
            PinSyncStatus { peer: owned(name), synced: false, error: Some(message) }
        },
    }
}

/// Turn sharing on or off.
pub fn set_enabled(store: &mut Store, enabled: bool)
    ensures
        final(store)@ == (StoreModel { pin_enabled: enabled, ..old(store)@ }),
{
    store.pin_enabled = enabled;
}

} // verus!
