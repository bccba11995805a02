//! Sharing a directory: comparison, publication and recovery.

use std::collections::BTreeMap;

use clix::pin::content::{fingerprint, unhex};
use clix::pin::decide::{
    begin_discard, begin_resolution, check_readable, confirm_discard, finish_resolution,
};
use clix::pin::export::{ExportClient, CHUNK_BYTES};
use clix::pin::inspect::{inspection, Evidence, Sighting};
use clix::pin::listing::{page_names, PageSight};
use clix::pin::path::{excluded, valid_path, valid_recovery_name};
use clix::pin::plan::{common_baseline, plan};
use clix::pin::publish::{prepare_publication, settle_publication, Site};
use clix::pin::recovery::{
    admit_recovery, check_recovery_except, recovery_usage, scan_entry, EntryKind, FileReading,
    ReceiptRead, RecoveryFile, ScanStep, READ_BYTES,
};
use clix::pin::sync::{
    accept_commit, accept_put, baseline, check_selected, enter_get, enter_list, inspect_conflicts, pin_dir, record,
    report_sync, select_conflict, set_enabled, take_change, PutRequest, SyncAction, SyncEvent,
    SyncRun,
};
use clix::pin::{
    Change, FileMeta, Fingerprint, Listing, RecoveryChoice, RecoveryContext, RecoveryExport, RecoveryRead, RecoveryReceipt,
    RecoveryState, RecoveryVersion, MAX_RECOVERY_BYTES,
};
use clix::table::Table;
use clix::{BodyId, ClixError, Grant, Peer, Result, Store};

/// A machine with its shared directory in memory.
struct Machine {
    name: String,
    key: Vec<u8>,
    store: Store,
    files: BTreeMap<String, Vec<u8>>,
    recovery: Vec<RecoveryFile>,
}

fn machine(name: &str, seed: u8) -> Machine {
    Machine {
        name: name.into(),
        key: vec![seed; 32],
        store: Store::fresh("/state".into(), name.into(), vec![seed; 32]),
        files: BTreeMap::new(),
        recovery: vec![],
    }
}

fn print_of(text: &[u8]) -> Fingerprint {
    fingerprint(text, 0o644)
}

fn listing(m: &Machine) -> Table<Fingerprint> {
    let mut files = Table::new();
    for (path, bytes) in &m.files {
        files.put(path.clone(), print_of(bytes));
    }
    files
}

fn put_file(m: &mut Machine, path: &str, text: &str) {
    m.files.insert(path.into(), text.as_bytes().to_vec());
}

fn usage_none() -> clix::pin::RecoveryUsage {
    recovery_usage(&vec![])
}

fn pin_sync(a: &mut Machine, b: &mut Machine) -> Result<()> {
    check_recovery_except(&usage_none(), &a.recovery, &vec![])?;
    check_recovery_except(&usage_none(), &b.recovery, &vec![])?;
    let (local, remote) = (listing(a), listing(b));
    let base = common_baseline(
        baseline(&a.store, &b.key),
        &baseline(&b.store, &a.key),
        &local,
        &remote,
    )?;
    let (changes, merged) = plan(&local, &remote, &base, &a.name, &b.name)?;
    let mut run = SyncRun::start(changes, merged.clone());
    loop {
        match run.next() {
            SyncAction::Send(change) => {
                match a.files.get(&change.path) {
                    Some(bytes) => b.files.insert(change.path.clone(), bytes.clone()),
                    None => b.files.remove(&change.path),
                };
                run.advance(&SyncEvent::Applied)?;
            }
            SyncAction::Take(change) => {
                match b.files.get(&change.path) {
                    Some(bytes) => a.files.insert(change.path.clone(), bytes.clone()),
                    None => a.files.remove(&change.path),
                };
                run.advance(&SyncEvent::Applied)?;
            }
            SyncAction::Scan => run.advance(&SyncEvent::Scanned(listing(a)))?,
            SyncAction::Commit => {
                record(&mut b.store, &a.key, merged.clone(), 1);
                run.advance(&SyncEvent::Committed)?;
            }
            SyncAction::Record => {
                record(&mut a.store, &b.key, merged.clone(), 1);
                run.advance(&SyncEvent::Recorded)?;
            }
            SyncAction::Done => return Ok(()),
        }
    }
}

#[test]
fn a_third_peer_does_not_replace_the_first_peers_baseline() {
    let mut a = machine("laptop", 1);
    let mut b = machine("server", 2);
    let mut c = machine("phone", 3);
    put_file(&mut a, "file", "base");
    pin_sync(&mut a, &mut b).unwrap();
    put_file(&mut a, "file", "local edit");
    pin_sync(&mut a, &mut c).unwrap();
    put_file(&mut b, "file", "server edit");
    assert!(pin_sync(&mut a, &mut b).is_err());
}

#[test]
fn pending_recovery_receipt_blocks_sync_after_restart() {
    let mut a = machine("laptop", 1);
    let mut b = machine("server", 2);
    put_file(&mut a, "file", "base");
    pin_sync(&mut a, &mut b).unwrap();
    a.recovery.push(RecoveryFile {
        name: "interrupted.json".into(),
        receipt: Some(ReceiptRead::Value {
            path: Some("file".into()),
            state: Some("pending".into()),
            receipt: Err(ClixError::Protocol("missing field `version`".into())),
            retained: Ok(None),
        }),
    });
    a.store.recover_jobs();
    let error = pin_sync(&mut a, &mut b).unwrap_err().message();
    assert!(
        error.contains("file") && error.contains("interrupted.json"),
        "{error}"
    );
}

fn version(text: &[u8], inode: u64) -> RecoveryVersion {
    RecoveryVersion {
        fingerprint: print_of(text),
        bytes: text.len() as u64,
        device: 1,
        inode,
        modified_seconds: 10,
        modified_nanoseconds: 0,
        changed_seconds: 10,
        changed_nanoseconds: 0,
    }
}

fn receipt(state: RecoveryState) -> RecoveryReceipt {
    RecoveryReceipt {
        path: "file".into(),
        expected: Some(print_of(b"base")),
        replacement: Some(print_of(b"new")),
        version: "v1".into(),
        state,
        source_receipt: None,
        discard_token: None,
    }
}

fn recovery_files(r: &RecoveryReceipt, word: &str, retained: &[u8]) -> Vec<RecoveryFile> {
    vec![
        RecoveryFile {
            name: "v1".into(),
            receipt: None,
        },
        RecoveryFile {
            name: "v1.json".into(),
            receipt: Some(ReceiptRead::Value {
                path: Some(r.path.clone()),
                state: Some(word.into()),
                receipt: Ok(r.clone()),
                retained: Ok(Some(print_of(retained))),
            }),
        },
    ]
}

fn evidence(r: &RecoveryReceipt, live: &[u8], retained: &[u8]) -> Evidence {
    Evidence {
        sighting: Sighting::Receipt(Ok(r.clone())),
        live: Ok(Some(version(live, 5))),
        retained: Ok(Some(version(retained, 6))),
    }
}

#[test]
fn pending_post_publication_receipt_requires_explicit_review_after_reopen() {
    let store = Store::fresh("/state".into(), "b".into(), vec![1; 32]);
    let interrupted = receipt(RecoveryState::Pending);
    let files = recovery_files(&interrupted, "pending", b"base");
    let seen = evidence(&interrupted, b"new", b"base");
    let current = inspection("v1.json", &files, &seen).unwrap();
    assert!(current.explanation.contains("appears applied"));
    assert!(check_recovery_except(&usage_none(), &files, &vec![]).is_err());
    assert!(begin_discard(&store, &current, "v1.json", &current.token, "t1").is_err());
    let choice = RecoveryChoice::KeepLive;
    assert!(begin_resolution(&store, &current, &current.token, choice)
        .unwrap()
        .is_none());
    let settled = finish_resolution(&current, &current, choice).unwrap();
    assert_eq!(settled.state, RecoveryState::Resolved);
    let files = recovery_files(&settled, "resolved", b"base");
    check_recovery_except(&usage_none(), &files, &vec![]).unwrap();
}

#[test]
fn every_change_of_a_version_changes_its_token() {
    let store = Store::fresh("/state".into(), "b".into(), vec![1; 32]);
    let r = receipt(RecoveryState::Retained);
    let files = recovery_files(&r, "retained", b"base");
    let view = inspection("v1.json", &files, &evidence(&r, b"new", b"base")).unwrap();
    assert_eq!(view.explanation, "retained version is available for owner inspection");
    let later = inspection("v1.json", &files, &evidence(&r, b"newer", b"base")).unwrap();
    assert_ne!(view.token, later.token);
    let e = begin_resolution(&store, &later, &view.token, RecoveryChoice::RestoreRetained)
        .unwrap_err();
    assert!(e.message().contains("stale"), "{}", e.message());
    assert!(check_readable(&later, RecoveryRead::Live, &view.token).is_err());
    let change = begin_resolution(&store, &later, &later.token, RecoveryChoice::RestoreRetained)
        .unwrap()
        .unwrap();
    assert_eq!(
        change,
        Change {
            path: "file".into(),
            expected: Some(print_of(b"newer")),
            new: Some(print_of(b"base")),
            to_remote: false,
        }
    );
    let (name, discarding) =
        begin_discard(&store, &view, "v1.json", &view.token, "t1").unwrap();
    assert_eq!(name, "v1.json");
    assert_eq!(discarding.state, RecoveryState::Discarding);
    assert_eq!(discarding.discard_token, Some(view.token.clone()));
    assert!(confirm_discard(&view.retained, &view.retained).unwrap());
    assert!(!confirm_discard(&None, &None).unwrap());
    assert!(confirm_discard(&None, &view.retained).is_err());
    assert!(confirm_discard(&Some(version(b"base", 99)), &view.retained).is_err());
    let raw = Evidence {
        sighting: Sighting::Absent,
        live: Ok(None),
        retained: Ok(Some(version(b"base", 6))),
    };
    let e = inspection("v1", &files, &raw).unwrap_err();
    assert!(e.message().contains("belongs to receipt v1.json"), "{}", e.message());
}

#[test]
fn a_late_write_to_a_retained_version_is_reported() {
    let r = receipt(RecoveryState::Retained);
    check_recovery_except(&usage_none(), &recovery_files(&r, "retained", b"base"), &vec![])
        .unwrap();
    let e = check_recovery_except(
        &usage_none(),
        &recovery_files(&r, "retained", b"late owner edit"),
        &vec![],
    )
    .unwrap_err();
    assert!(e.message().contains("retained version changed"), "{}", e.message());
    let stray = vec![RecoveryFile {
        name: "stray".into(),
        receipt: None,
    }];
    assert!(check_recovery_except(&usage_none(), &stray, &vec![]).is_err());
}

#[test]
fn one_sided_edits_are_followed_and_two_sided_ones_stop() {
    let mut a = machine("laptop", 1);
    let mut b = machine("server", 2);
    put_file(&mut a, "file", "base");
    put_file(&mut a, "gone", "x");
    pin_sync(&mut a, &mut b).unwrap();
    assert_eq!(b.files, a.files);
    put_file(&mut b, "file", "server edit");
    a.files.remove("gone");
    pin_sync(&mut a, &mut b).unwrap();
    assert_eq!(a.files["file"], b"server edit");
    assert!(!b.files.contains_key("gone"));
    put_file(&mut a, "file", "one");
    put_file(&mut b, "file", "two");
    let e = pin_sync(&mut a, &mut b).unwrap_err();
    assert!(matches!(e, ClixError::PinConflict { .. }), "{}", e.message());
    assert_eq!(a.files["file"], b"one");
    put_file(&mut b, "file", "one");
    pin_sync(&mut a, &mut b).unwrap();
    a.files.remove("file");
    put_file(&mut b, "file", "edited");
    assert!(pin_sync(&mut a, &mut b).is_err(), "a deletion against an edit");
}

#[test]
fn the_owner_takes_exactly_the_inspected_peer_version() {
    let mut a = machine("laptop", 1);
    let mut b = machine("server", 2);
    put_file(&mut a, "file", "base");
    pin_sync(&mut a, &mut b).unwrap();
    put_file(&mut a, "file", "one");
    put_file(&mut b, "file", "two");
    let peer = Peer {
        name: BodyId("server".into()),
        owner_pk: b.key.clone(),
        addr: None,
    };
    let base = baseline(&a.store, &b.key);
    let remote = Listing {
        files: listing(&b),
        baseline: baseline(&b.store, &a.key),
    };
    let report = inspect_conflicts(&peer, &listing(&a), &base, &remote);
    assert!(!report.baseline_mismatch);
    assert_eq!(report.conflicts.len(), 1);
    assert!(select_conflict(&report, "file", "made up").is_err());
    let chosen = select_conflict(&report, "file", &report.conflicts[0].token).unwrap();
    assert_eq!(
        take_change(&chosen),
        Change {
            path: "file".into(),
            expected: Some(print_of(b"one")),
            new: Some(print_of(b"two")),
            to_remote: false,
        }
    );
    check_selected(&report, &chosen).unwrap();
    put_file(&mut b, "file", "three");
    let later = Listing {
        files: listing(&b),
        baseline: baseline(&b.store, &a.key),
    };
    let again = inspect_conflicts(&peer, &listing(&a), &base, &later);
    assert!(check_selected(&again, &chosen).is_err());
}

#[test]
fn a_receiver_holds_a_peers_write_against_its_own_baseline() {
    let mut store = Store::fresh("/state".into(), "laptop".into(), vec![1; 32]);
    let peer = Peer {
        name: BodyId("server".into()),
        owner_pk: vec![2; 32],
        addr: None,
    };
    let ask = |expected: Option<Fingerprint>, path: &str| PutRequest {
        path: Some(path.into()),
        expected: Some(expected),
        new: Some(Some(print_of(b"new"))),
        content: Some("6e6577".into()),
    };
    assert!(accept_put(&store, &peer, &ask(None, "file")).is_err(), "sharing is off");
    set_enabled(&mut store, true);
    let (change, data) = accept_put(&store, &peer, &ask(None, "file")).unwrap();
    assert_eq!(change.path, "file");
    assert_eq!(data.unwrap(), b"new");
    let echoed = ask(Some(print_of(b"local edit")), "file");
    assert!(accept_put(&store, &peer, &echoed).is_err());
    let mut files = Table::new();
    files.put("file".into(), print_of(b"base"));
    record(&mut store, &peer.owner_pk, files.clone(), 7);
    assert!(accept_put(&store, &peer, &ask(None, "file")).is_err());
    assert!(accept_put(&store, &peer, &ask(Some(print_of(b"base")), "file")).is_ok());
    assert!(accept_put(&store, &peer, &ask(None, ".git/hooks/pre-commit")).is_err());
    assert!(accept_put(&store, &peer, &ask(None, "../outside")).is_err());
    let mut garbled = ask(Some(print_of(b"base")), "file");
    garbled.content = Some("6f6c6".into());
    assert!(accept_put(&store, &peer, &garbled).is_err());
    let empty = Table::new();
    assert!(accept_commit(&mut store, &peer, empty, &files, 8).is_err());
    accept_commit(&mut store, &peer, files.clone(), &files, 9).unwrap();
    assert_eq!(store.pin_index.last_sync, Some(9));
    let status = report_sync(&mut store, "server", Err(ClixError::Io("gone".into())));
    assert!(!status.synced);
    assert_eq!(store.pin_index.last_error, status.error);
}

#[test]
fn publication_never_replaces_a_granted_program_or_an_unplanned_version() {
    let mut store = Store::fresh("/state".into(), "laptop".into(), vec![1; 32]);
    let change = Change {
        path: "tool".into(),
        expected: Some(print_of(b"base")),
        new: Some(print_of(b"new")),
        to_remote: false,
    };
    let site = |current: &[u8], binaries: Vec<String>| Site {
        current: Some(print_of(current)),
        current_bytes: current.len() as u64,
        destination: "/src/tool".into(),
        binaries,
        usage: usage_none(),
    };
    let data = b"new".to_vec();
    let p = prepare_publication(
        &store,
        &change,
        Some(&data),
        &site(b"base", vec![]),
        "v1".into(),
        None,
    )
    .unwrap()
    .unwrap();
    assert!(p.exchange);
    assert_eq!(p.receipt_name, "v1.json");
    assert_eq!(p.receipt.state, RecoveryState::Pending);
    let wrong = b"old".to_vec();
    assert!(
        prepare_publication(
            &store,
            &change,
            Some(&wrong),
            &site(b"base", vec![]),
            "v1".into(),
            None
        )
        .is_err(),
        "content of another version"
    );
    let (settled, remove) = settle_publication(&p, &Some(print_of(b"base"))).unwrap();
    assert_eq!(settled.state, RecoveryState::Retained);
    assert!(!remove);
    assert!(settle_publication(&p, &Some(print_of(b"late"))).is_err());
    assert!(prepare_publication(
        &store,
        &change,
        Some(&data),
        &site(b"other", vec![]),
        "v1".into(),
        None
    )
    .is_err());
    store.grants.push(Grant {
        reservation: None,
        tool: "tool".into(),
        binary: "/src/tool".into(),
        allow_from: None,
        once: false,
        until: None,
        schedule: None,
        args: None,
    });
    assert!(prepare_publication(
        &store,
        &change,
        Some(&data),
        &site(b"base", vec!["/src/tool".into()]),
        "v1".into(),
        None
    )
    .is_err());
    let already = prepare_publication(
        &store,
        &change,
        Some(&data),
        &site(b"new", vec![]),
        "v1".into(),
        None,
    );
    assert!(already.is_err() || already.unwrap().is_none());
}

#[test]
fn sharing_that_is_off_is_closed() {
    let mut store = Store::fresh("/state".into(), "laptop".into(), vec![1; 32]);
    let peer = Peer {
        name: BodyId("server".into()),
        owner_pk: vec![2; 32],
        addr: None,
    };
    let told = enter_list(&store, &peer, "/home/me/src").unwrap_err().message();
    assert!(told.contains("pin is off on laptop"), "{told}");
    assert!(enter_get(&store, Some("file".into()), "/home/me/src").is_err());
    let files = Table::new();
    assert!(accept_commit(&mut store, &peer, files.clone(), &files, 1).is_err());
    set_enabled(&mut store, true);
    let (root, shared) = enter_list(&store, &peer, "/home/me/src").unwrap();
    assert_eq!((root.as_str(), shared.len()), ("/home/me/src", 0));
    store.pin_dir = Some("/shared".into());
    let (root, path) = enter_get(&store, Some("file".into()), "/home/me/src").unwrap();
    assert_eq!((root.as_str(), path.as_str()), ("/shared", "file"));
    assert!(enter_get(&store, Some("../up".into()), "/home/me/src").is_err());
    assert!(enter_get(&store, None, "/home/me/src").is_err());
}

#[test]
fn repository_metadata_and_odd_names_stay_out() {
    assert!(excluded(".git/config"));
    assert!(excluded("project/.git/HEAD"));
    assert!(!excluded("project/.gitignore"));
    for good in ["project/src/main.rs", "a//b", "a/./b", ".git"] {
        assert!(valid_path(good).is_ok(), "{good:?}");
    }
    for bad in ["", "/etc/passwd", "a/../b", "./a", ".clix-recovery/x"] {
        assert!(valid_path(bad).is_err(), "{bad:?}");
    }
    assert!(valid_recovery_name("v1.json").is_ok());
    assert!(valid_recovery_name("../v1").is_err());
    let mut count: usize = 0;
    assert_eq!(
        scan_entry("src", Some("main.rs"), EntryKind::File, &mut count).unwrap(),
        ScanStep::Read("src/main.rs".into())
    );
    assert_eq!(
        scan_entry(".git", Some("hooks"), EntryKind::Directory, &mut count).unwrap(),
        ScanStep::Skip
    );
    assert_eq!(
        scan_entry("", Some(".clix-recovery"), EntryKind::Directory, &mut count).unwrap(),
        ScanStep::Skip
    );
    assert!(scan_entry("", Some("link"), EntryKind::Other, &mut count).is_err());
    assert!(scan_entry("", None, EntryKind::File, &mut count).is_err());
    let mut full: usize = 4096;
    assert!(scan_entry("", Some("one"), EntryKind::File, &mut full).is_err());
}

#[test]
fn recovery_storage_is_bounded() {
    let none = usage_none();
    assert!(!none.admission_blocked);
    admit_recovery(&none, 1024, 2).unwrap();
    let full = recovery_usage(&vec![MAX_RECOVERY_BYTES as i64]);
    assert!(full.admission_blocked);
    assert!(admit_recovery(&full, 1, 1).is_err());
    let over = recovery_usage(&vec![MAX_RECOVERY_BYTES as i64, 1]);
    assert!(check_recovery_except(&over, &vec![], &vec![]).is_err());
}

#[test]
fn names_come_page_by_page_in_order() {
    let names: Vec<String> = ["c", "a", "d", "b"].iter().map(|n| n.to_string()).collect();
    let (first, next) = page_names(&names, None, 2).unwrap();
    assert_eq!((first.key_at(0).as_str(), first.key_at(1).as_str()), ("a", "b"));
    let (second, end) = page_names(&names, next.as_deref(), 2).unwrap();
    assert_eq!((second.key_at(0).as_str(), second.key_at(1).as_str()), ("c", "d"));
    assert_eq!(end, None);
    assert!(page_names(&names, None, 0).is_err());
    assert!(page_names(&names, None, 1000).is_err());
}

#[test]
fn an_export_is_done_only_when_everything_was_seen() {
    let bytes = vec![7u8; CHUNK_BYTES + 3];
    let mut export = RecoveryExport::start(version(&bytes, 6));
    let mut client = ExportClient::new();
    let n = export.begin_chunk(CHUNK_BYTES, Ok(())).unwrap();
    assert_eq!(n, CHUNK_BYTES);
    let chunk = export
        .end_chunk(Ok(bytes[..n].to_vec()), Ok(()), Ok(()))
        .unwrap();
    assert!(!client.accept(&chunk).unwrap());
    let n = export.begin_chunk(CHUNK_BYTES, Ok(())).unwrap();
    assert_eq!(n, 3);
    let chunk = export
        .end_chunk(Ok(bytes[CHUNK_BYTES..].to_vec()), Ok(()), Ok(()))
        .unwrap();
    assert!(chunk.eof);
    assert!(client.accept(&chunk).unwrap());
    export.finish(Ok(())).unwrap();
    let mut torn = RecoveryExport::start(version(&bytes, 6));
    assert!(torn
        .begin_chunk(CHUNK_BYTES, Err(ClixError::Usage("changed".into())))
        .is_err());
    assert!(torn.finish(Ok(())).is_err());
    let mut client = ExportClient::new();
    assert!(client.accept(&chunk).is_err(), "a chunk out of its place");

    let mut altered = RecoveryExport::start(version(b"abc", 6));
    altered.begin_chunk(CHUNK_BYTES, Ok(())).unwrap();
    assert!(altered.end_chunk(Ok(b"abd".to_vec()), Ok(()), Ok(())).is_err());
    assert!(altered.finish(Ok(())).is_err());
    let mut unread = RecoveryExport::start(version(b"abc", 6));
    unread.begin_chunk(CHUNK_BYTES, Ok(())).unwrap();
    assert_eq!(
        unread.end_chunk(Err(ClixError::Io("gone".into())), Ok(()), Ok(())).unwrap_err().message(),
        "gone"
    );
    assert!(unread.begin_chunk(CHUNK_BYTES, Ok(())).is_err());
}

#[test]
fn a_file_is_read_through_in_pieces() {
    let bytes = vec![7u8; READ_BYTES + 3];
    let meta = FileMeta {
        regular: true,
        bytes: bytes.len() as u64,
        device: 1,
        inode: 2,
        mode: 0o644,
        modified_seconds: 3,
        modified_nanoseconds: 4,
        changed_seconds: 5,
        changed_nanoseconds: 6,
    };
    let mut reading = FileReading::start(meta.clone());
    assert_eq!(reading.wanted(), READ_BYTES);
    reading.take(&bytes[..READ_BYTES]);
    assert_eq!(reading.wanted(), 3);
    assert!(reading.finish(&meta).is_err(), "it ended early");
    reading.take(&bytes[READ_BYTES..]);
    assert_eq!(reading.wanted(), 0);
    let version = reading.finish(&meta).unwrap();
    assert_eq!(version.fingerprint.hash, fingerprint(&bytes, 0).hash);
    let mut touched = meta.clone();
    touched.changed_seconds += 1;
    assert!(reading.finish(&touched).is_err());
    let odd = FileReading::start(FileMeta { regular: false, ..meta.clone() });
    assert_eq!(odd.wanted(), 0);
    assert!(odd.finish(&meta).is_err());
}

#[test]
fn versions_are_digests_of_the_bytes() {
    assert_eq!(
        print_of(b"abc").hash,
        "ba7816bf8f01cfea414140de5dae2223b00361a396177a9cb410ff61f20015ad"
    );
    assert_eq!(unhex("00ff80").unwrap(), vec![0, 255, 128]);
    assert!(unhex("0").is_err());
    assert!(unhex("zz").is_err());
    assert_eq!(pin_dir(Some("/shared".into()), Some("/home/me".into())), "/shared");
    assert_eq!(pin_dir(None, Some("/home/me".into())), "/home/me/src");
}

#[test]
fn a_token_serves_one_decision() {
    let store = Store::fresh("/state".into(), "b".into(), vec![1; 32]);
    let r = receipt(RecoveryState::Retained);
    let files = recovery_files(&r, "retained", b"base");
    let view = inspection("v1.json", &files, &evidence(&r, b"new", b"base")).unwrap();
    let again = inspection("v1.json", &files, &evidence(&r, b"new", b"base")).unwrap();
    assert_eq!(view.token, again.token);
    let choice = RecoveryChoice::KeepLive;
    begin_resolution(&store, &view, &view.token, choice).unwrap();
    let settled = finish_resolution(&view, &view, choice).unwrap();
    let files = recovery_files(&settled, "resolved", b"base");
    let after = inspection("v1.json", &files, &evidence(&settled, b"new", b"base")).unwrap();
    assert_ne!(after.token, view.token);
    assert!(begin_resolution(&store, &after, &view.token, choice).is_err());
    assert!(begin_discard(&store, &after, "v1.json", &view.token, "t1").is_err());
    assert!(check_readable(&after, RecoveryRead::Retained, &view.token).is_err());
}

#[test]
fn pages_list_every_entry_once() {
    let store = Store::fresh("/state".into(), "b".into(), vec![1; 32]);
    let context = RecoveryContext::from_store(&store, "/home/me/src");
    let r = receipt(RecoveryState::Retained);
    let mut files = recovery_files(&r, "retained", b"base");
    files.push(RecoveryFile { name: "stray".into(), receipt: None });
    let names: Vec<String> = files.iter().map(|f| f.name.clone()).collect();
    let view = inspection("v1.json", &files, &evidence(&r, b"new", b"base"));
    let seen = vec![PageSight { id: "v1.json".into(), view, recheck: None }];
    for limit in 1..=4 {
        let mut cursor: Option<String> = None;
        let mut ids = Vec::new();
        loop {
            let page = context
                .list_page(cursor.as_deref(), limit, &names, &vec![4, 4, 4], &files, &seen)
                .unwrap();
            assert!(page.entries.len() <= limit);
            ids.extend(page.entries.iter().map(|e| e.id.clone()));
            match page.next_cursor {
                None => break,
                Some(next) => {
                    assert!(cursor.is_none() || cursor.as_ref().unwrap() < &next);
                    cursor = Some(next);
                }
            }
        }
        assert_eq!(ids, vec!["stray", "v1.json"]);
    }
}
