//! Retention, replay protection and completion-capacity regressions.

use clix::history::wire::{fact_text, invocation_text, status_text};
use clix::table::Table;
use clix::{history, storage, BodyId, ClixError, Job, JobStatus, Peer, Request, Result, Store};
use ed25519_dalek::SigningKey;

const ID: &str = "00000000-0000-4000-8000-000000000001";

fn key(seed: u8) -> Vec<u8> {
    SigningKey::from_bytes(&[seed; 32])
        .verifying_key()
        .to_bytes()
        .to_vec()
}

fn bytes_json(bytes: &[u8]) -> String {
    let mut out = String::from("[");
    for (i, b) in bytes.iter().enumerate() {
        if i > 0 {
            out.push(',');
        }
        if *b == 0 {
            out.push('0');
        } else {
            out.push_str(&format!("{b}"));
        }
    }
    out.push(']');
    out
}

fn keys_json(set: &Table<()>) -> String {
    let keys: Vec<String> = (0..set.len()).map(|i| format!("\"{}\"", set.key_at(i))).collect();
    format!("[{}]", keys.join(","))
}

fn texts_json(map: &Table<String>) -> String {
    let rows: Vec<String> = (0..map.len())
        .map(|i| format!("\"{}\":\"{}\"", map.key_at(i), map.value_at(i)))
        .collect();
    format!("{{{}}}", rows.join(","))
}

fn fact_json(fact: &Option<history::SignedFact>) -> String {
    match fact {
        None => "null".into(),
        Some(f) => format!(
            "{{\"fact\":{},\"signature\":{}}}",
            fact_text(&f.fact),
            bytes_json(&f.signature)
        ),
    }
}

/// The stored form of a state, as far as these tests fill it.
fn encode(store: &Store) -> String {
    let jobs: Vec<String> = store
        .jobs
        .iter()
        .map(|j| {
            format!(
                "{{\"id\":\"{}\",\"body\":\"{}\",\"argv\":[\"{}\"],\"from\":\"{}\",\"status\":{},\"stdout\":{},\"stderr\":{}}}",
                j.id,
                j.body.0,
                j.argv.join("\",\""),
                j.from.0,
                status_text(&j.status),
                bytes_json(&j.stdout),
                bytes_json(&j.stderr)
            )
        })
        .collect();
    let entries: Vec<String> = (0..store.history.entries.len())
        .map(|i| {
            let e = store.history.entries.value_at(i);
            let output = match &e.output {
                None => "null".into(),
                Some(o) => format!(
                    "{{\"stdout\":{},\"stderr\":{}}}",
                    bytes_json(&o.stdout),
                    bytes_json(&o.stderr)
                ),
            };
            format!(
                "\"{}\":{{\"record\":{{\"certificate\":{{\"invocation\":{},\"signature\":{}}},\"origin\":{},\"runner\":{}}},\"output\":{},\"change\":{}}}",
                store.history.entries.key_at(i),
                invocation_text(&e.record.certificate.invocation),
                bytes_json(&e.record.certificate.signature),
                fact_json(&e.record.origin),
                fact_json(&e.record.runner),
                output,
                e.change
            )
        })
        .collect();
    format!(
        "{{\"format_version\":1,\"body_name\":\"{}\",\"owner_sk\":{},\"peers\":[],\"grants\":[],\"jobs\":[{}],\"requests\":[],\"pin_index\":{{\"last_error\":\"{}\"}},\"history\":{{\"initialized\":{},\"epoch\":\"{}\",\"clock\":{},\"trust\":\"{}\",\"entries\":{{{}}}}},\"job_certificates\":{},\"retry_links\":{},\"legacy_jobs\":{},\"output_pruned\":{},\"history_pruned\":{}}}",
        store.body_name,
        bytes_json(&store.owner_sk),
        jobs.join(","),
        store.pin_index.last_error.as_deref().unwrap_or(""),
        store.history.initialized,
        store.history.epoch,
        store.history.clock,
        store.history.trust,
        entries.join(","),
        texts_json(&store.job_certificates),
        texts_json(&store.retry_links),
        keys_json(&store.legacy_jobs),
        keys_json(&store.output_pruned),
        keys_json(&store.history_pruned)
    )
}

/// An edit as a state owner makes it: prepared on a copy, and kept only whole.
fn update<T>(store: &mut Store, edit: impl FnOnce(&mut Store) -> Result<T>) -> Result<T> {
    store.ensure_writable()?;
    let mut next = store.clone();
    let value = edit(&mut next)?;
    let next = store.prepare_update(next, "epoch".into())?;
    store.admit_encoded(&next, encode(&next).len(), encode(store).len())?;
    store.finish_update(next, Ok(()))?;
    Ok(value)
}

fn fixture(name: &str, seed: u8) -> Store {
    let mut store = Store::fresh("/state".into(), name.into(), vec![seed; 32]);
    store.peers = [("origin", 1), ("runner", 2)]
        .into_iter()
        .filter(|(n, _)| *n != name)
        .map(|(n, k)| Peer {
            name: BodyId(n.into()),
            owner_pk: key(k),
            addr: None,
        })
        .collect();
    update(&mut store, |_| Ok(())).unwrap();
    store
}

fn local_job(id: &str, status: JobStatus, stdout: Vec<u8>, stderr: Vec<u8>) -> Job {
    Job {
        id: id.into(),
        from: BodyId("origin".into()),
        body: BodyId("origin".into()),
        argv: vec!["true".into()],
        status,
        stdout,
        stderr,
    }
}

fn admitted_result() -> (Store, history::Published) {
    let mut origin = fixture("origin", 1);
    let mut runner = fixture("runner", 2);
    let job = Job {
        id: ID.into(),
        from: BodyId("origin".into()),
        body: BodyId("runner".into()),
        argv: vec!["true".into()],
        status: JobStatus::Queued,
        stdout: vec![],
        stderr: vec![],
    };
    update(&mut origin, |s| {
        s.jobs.push(job.clone());
        Ok(())
    })
    .unwrap();
    let c = history::for_job(&origin, &job)
        .unwrap()
        .record
        .certificate
        .clone();
    update(&mut runner, |s| {
        history::bind_admission(s, &c)?;
        let mut j = job.clone();
        j.status = JobStatus::Running;
        s.jobs.push(j);
        Ok(())
    })
    .unwrap();
    update(&mut runner, |s| {
        s.jobs[0].status = JobStatus::Done { exit: 0 };
        s.jobs[0].stdout = b"retained result".to_vec();
        Ok(())
    })
    .unwrap();
    let p = history::export_entry(&runner, history::for_job(&runner, &runner.jobs[0]).unwrap());
    (origin, p)
}

#[test]
fn keeping_one_output_job_preserves_one_remote_result() {
    let (mut origin, result) = admitted_result();
    update(&mut origin, |s| {
        history::accept_runner_reply(s, &BodyId("runner".into()), &result)
    })
    .unwrap();
    let removed = update(&mut origin, |s| storage::prune(s, 1)).unwrap();
    assert_eq!(removed, 0, "one invocation must count as one output job");
    assert_eq!(history::views(&origin)[0].job.stdout, b"retained result");
    assert_eq!(storage::output_bytes(&origin), b"retained result".len());
}

#[test]
fn polling_a_locally_pruned_replica_does_not_rehydrate_admitted_payload() {
    let (mut origin, result) = admitted_result();
    update(&mut origin, |s| history::ingest(s, &result)).unwrap();
    update(&mut origin, |s| storage::prune(s, 0)).unwrap();
    assert_eq!(storage::output_bytes(&origin), 0);
    update(&mut origin, |s| {
        history::accept_runner_reply(s, &BodyId("runner".into()), &result)
    })
    .unwrap();
    assert_eq!(
        storage::output_bytes(&origin),
        0,
        "poll reply must honor the owner's retained-output tombstone"
    );
    assert_eq!(origin.jobs[0].status, JobStatus::Done { exit: 0 });
    assert!(origin.output_pruned.has(ID));
    assert!(!history::views(&origin)[0].output_available);
    update(&mut origin, |s| {
        s.recover_jobs();
        Ok(())
    })
    .unwrap();
    assert_eq!(storage::output_bytes(&origin), 0);
    assert_eq!(origin.jobs.len(), 1);
    assert_eq!(origin.job_certificates.len(), 1);
}

#[test]
fn presave_capacity_rejection_does_not_poison_or_change_durable_state() {
    let mut store = fixture("origin", 1);
    let before = store.clone();
    let error = update(&mut store, |s| {
        for n in 0..1025 {
            s.requests.push(Request {
                id: format!("r{n}"),
                from: BodyId("runner".into()),
                tool: format!("tool{n}"),
                once_suggested: true,
            });
        }
        Ok(())
    })
    .unwrap_err();
    assert!(matches!(error, ClixError::Capacity(_)));
    store.ensure_writable().unwrap();
    assert!(store.requests.is_empty());
    assert_eq!(store, before);
    update(&mut store, |_| Ok(())).unwrap();
}

#[test]
fn pruning_retained_zeros_cannot_increase_the_completion_capacity_charge() {
    let mut store = fixture("origin", 1);
    // Complete both local jobs through the production publication hook.
    update(&mut store, |s| {
        for n in 1..=2 {
            s.jobs.push(local_job(
                &format!("zero-{n}"),
                JobStatus::Done { exit: 0 },
                vec![0; 4 * 1024 * 1024],
                vec![0; 4 * 1024 * 1024],
            ));
        }
        Ok(())
    })
    .unwrap();
    let encoded_before = encode(&store).len();
    let old = store.clone();
    storage::prune(&mut store, 0).unwrap();
    let encoded_after = encode(&store).len();
    // Add hypothetical metadata equally to both measured encodings. This tests
    // the capacity arithmetic without allocating a 90 MiB padding field.
    let metadata = 90 * 1024 * 1024;
    let before = storage::completion_charge(&old, encoded_before + metadata);
    let after = storage::completion_charge(&store, encoded_after + metadata);
    assert!(
        after <= before,
        "pruning reduced serialized state but increased capacity charge"
    );
}

#[test]
fn upgraded_overquota_state_can_shrink_and_settle_an_existing_job() {
    let mut store = fixture("origin", 1);
    update(&mut store, |s| {
        s.jobs.push(local_job(ID, JobStatus::Running, vec![], vec![]));
        Ok(())
    })
    .unwrap();
    // Represent pre-policy metadata without generating thousands of unrelated
    // history facts. The persisted state remains below the 128 MiB read limit.
    store.pin_index.last_error = Some("x".repeat(65 * 1024 * 1024));
    update(&mut store, |s| {
        let n = s.pin_index.last_error.as_ref().unwrap().len();
        s.pin_index.last_error.as_mut().unwrap().truncate(n - 512);
        Ok(())
    })
    .expect("an over-quota upgrade must still allow shrinking metadata");
    assert!(matches!(
        update(&mut store, |s| {
            let mut job = s.jobs[0].clone();
            job.id = "new-work".into();
            job.status = JobStatus::Queued;
            s.jobs.push(job);
            Ok(())
        }),
        Err(ClixError::Capacity(_))
    ));
    update(&mut store, |s| {
        s.jobs[0].status = JobStatus::Uncertain {
            reason: "recovered after restart".into(),
        };
        Ok(())
    })
    .expect("an admitted job must still settle while reducing its reserved charge");
    assert!(matches!(store.jobs[0].status, JobStatus::Uncertain { .. }));
    store.ensure_writable().unwrap();
}

#[test]
fn pruning_across_decimal_sequence_boundaries_cannot_increase_charge() {
    for boundary in [9, 99, 999, 9999, 9_999_999_999_999_999_999] {
        let mut store = fixture("origin", 1);
        update(&mut store, |s| {
            for n in 1..=2 {
                s.jobs.push(local_job(
                    &format!("boundary-{n}"),
                    JobStatus::Done { exit: 0 },
                    vec![b'x'],
                    vec![],
                ));
            }
            Ok(())
        })
        .unwrap();
        // A previous prune makes both receipt sets nonempty: adding another
        // receipt then consumes its reserved comma exactly, without spare bytes.
        update(&mut store, |s| storage::prune(s, 1)).unwrap();
        let remaining = store
            .jobs
            .iter()
            .find(|j| !j.stdout.is_empty())
            .unwrap()
            .id
            .clone();
        let key = store.job_certificates.get(&remaining).unwrap().clone();
        update(&mut store, |s| {
            s.history.clock = boundary;
            let mut entry = s.history.entries.get(&key).unwrap().clone();
            entry.change = boundary;
            s.history.entries.put(key.clone(), entry);
            Ok(())
        })
        .unwrap();
        let before = storage::completion_charge(&store, encode(&store).len());
        update(&mut store, |s| storage::prune(s, 0)).unwrap();
        let after = storage::completion_charge(&store, encode(&store).len());
        assert_eq!(store.history.clock, boundary + 1);
        assert_eq!(
            store.history.entries.get(&key).unwrap().change,
            boundary + 1
        );
        assert!(
            after <= before,
            "pruning at {boundary} increased charge from {before} to {after}"
        );
    }
}

#[test]
fn execution_receipt_cap_refuses_new_admissions_at_the_limit() {
    let mut store = fixture("origin", 1);
    // Fill to exactly the cap in one durable update.
    update(&mut store, |s| {
        for n in 0..storage::MAX_JOBS {
            s.jobs.push(local_job(
                &format!("job-{n}"),
                JobStatus::Done { exit: 0 },
                vec![],
                vec![],
            ));
        }
        Ok(())
    })
    .unwrap();
    assert_eq!(store.jobs.len(), storage::MAX_JOBS);
    // status reports the same limit prepare enforces (single source of truth).
    assert_eq!(
        storage::status(&store).execution_receipt_limit,
        storage::MAX_JOBS
    );
    // One more row is refused as a capacity error, state unchanged.
    let error = update(&mut store, |s| {
        s.jobs.push(local_job(
            "one-too-many",
            JobStatus::Done { exit: 0 },
            vec![],
            vec![],
        ));
        Ok(())
    })
    .unwrap_err();
    assert!(matches!(error, ClixError::Capacity(_)), "{}", error.message());
    assert_eq!(store.jobs.len(), storage::MAX_JOBS);
}
