//! Delivering jobs, and what capacity does to them.

use clix::exec::{submit, Submission};
use clix::history::{self, Published};
use clix::job::dispatch::{DispatchEvent, DispatchPhase, DispatchRun};
use clix::job::{
    claim, exec_json, find_job, format_line, new_id, pending_jobs, request_task, settle_dispatch,
    waiting_here,
};
use clix::limits::{self, Limits};
use clix::local::owner::queue_job;
use clix::request::{find_route, settle_delivery};
use clix::table::Table;
use clix::types::{LocalTime, TimeOfDay, Timestamp, Weekday};
use clix::{BodyId, ClixError, Job, JobStatus, OutboundRequest, Peer, Result, Store};
use ed25519_dalek::SigningKey;

fn key(seed: u8) -> Vec<u8> {
    SigningKey::from_bytes(&[seed; 32])
        .verifying_key()
        .to_bytes()
        .to_vec()
}

fn update<T>(store: &mut Store, edit: impl FnOnce(&mut Store) -> Result<T>) -> Result<T> {
    store.ensure_writable()?;
    let mut next = store.clone();
    let value = edit(&mut next)?;
    let next = store.prepare_update(next, "epoch".into())?;
    store.admit_encoded(&next, 0, 0)?;
    store.finish_update(next, Ok(()))?;
    Ok(value)
}

fn machine(name: &str, seed: u8) -> Store {
    let mut store = Store::fresh("/state".into(), name.into(), vec![seed; 32]);
    for (other, seed) in [("laptop", 1u8), ("server", 2)] {
        if other != name {
            store.peers.push(Peer {
                name: BodyId(other.into()),
                owner_pk: key(seed),
                addr: Some("100.64.0.20:7421".into()),
            });
        }
    }
    update(&mut store, |_| Ok(())).unwrap();
    store
}

fn noon() -> LocalTime {
    LocalTime {
        instant: Timestamp {
            secs: 1_789_000_000,
            nanos: 0,
        },
        weekday: Weekday::Fri,
        day: 11,
        time: TimeOfDay {
            seconds: 43_200,
            nanos: 0,
        },
    }
}

fn queued(store: &mut Store, body: &str, id: &str) -> Job {
    let job = queue_job(store, body, &vec!["true".to_string()], id.into());
    update(store, |s| {
        s.put_job(job.clone());
        Ok(())
    })
    .unwrap();
    job
}

/// What the server answers after it has run the job.
fn proved(laptop: &Store, job: &Job, status: JobStatus) -> Published {
    let certificate = history::for_job(laptop, job)
        .unwrap()
        .record
        .certificate
        .clone();
    let mut server = machine("server", 2);
    update(&mut server, |s| {
        history::bind_admission(s, &certificate)?;
        let mut taken = job.clone();
        taken.status = status;
        s.jobs.push(taken);
        Ok(())
    })
    .unwrap();
    history::export_entry(&server, history::for_job(&server, &server.jobs[0]).unwrap())
}

#[test]
fn a_known_job_is_read_and_an_unknown_one_is_sent() {
    let mut laptop = machine("laptop", 1);
    let job = queued(&mut laptop, "server", "00000000-0000-4000-8000-000000000001");
    let mut run = DispatchRun::start(&laptop, &job).unwrap();
    assert!(run.certificate.is_some(), "a job of today is signed");
    assert_eq!(run.phase, DispatchPhase::Asking);
    run.advance(&mut laptop, &DispatchEvent::Unknown);
    assert_eq!(run.phase, DispatchPhase::Sending);
    let done = proved(&laptop, &job, JobStatus::Done { exit: 3 });
    run.advance(&mut laptop, &DispatchEvent::Proved(done));
    assert_eq!(run.phase, DispatchPhase::Settled);
    let at = find_job(&laptop.jobs, &job.id).unwrap();
    assert_eq!(laptop.jobs[at].status, JobStatus::Done { exit: 3 });
    assert!(pending_jobs(&laptop).is_empty());
}

#[test]
fn an_unsigned_answer_about_a_signed_job_is_not_believed() {
    let mut laptop = machine("laptop", 1);
    let job = queued(&mut laptop, "server", "00000000-0000-4000-8000-000000000001");
    let mut run = DispatchRun::start(&laptop, &job).unwrap();
    let mut told = job.clone();
    told.status = JobStatus::Done { exit: 0 };
    run.advance(&mut laptop, &DispatchEvent::Told(told));
    assert_eq!(
        laptop.jobs[0].status,
        JobStatus::Failed {
            reason: "peer response is missing its job".into()
        }
    );
}

#[test]
fn a_job_from_before_signatures_is_still_delivered() {
    let mut laptop = machine("laptop", 1);
    laptop.history = Store::fresh(String::new(), String::new(), vec![]).history;
    laptop.jobs.push(queue_job(
        &laptop,
        "server",
        &vec!["true".to_string()],
        "old".into(),
    ));
    update(&mut laptop, |_| Ok(())).unwrap();
    let job = laptop.jobs[0].clone();
    let mut run = DispatchRun::start(&laptop, &job).unwrap();
    assert!(run.certificate.is_none());
    let mut told = job.clone();
    told.status = JobStatus::Done { exit: 0 };
    run.advance(&mut laptop, &DispatchEvent::Told(told.clone()));
    assert_eq!(laptop.jobs[0], told);
    let mut other = job.clone();
    other.argv.push("changed".into());
    laptop.jobs[0].status = JobStatus::Running;
    let mut run = DispatchRun::start(&laptop, &job).unwrap();
    run.advance(&mut laptop, &DispatchEvent::Told(other));
    assert_eq!(
        laptop.jobs[0].status,
        JobStatus::Failed {
            reason: "peer returned a different job invocation".into()
        }
    );
}

#[test]
fn work_past_a_limit_keeps_its_id_and_waits() {
    let mut laptop = machine("laptop", 1);
    let job = queued(&mut laptop, "server", "j1");
    let busy = ClixError::Capacity("execution slots are busy; waiting for capacity".into());
    assert!(settle_dispatch(&mut laptop, "j1", &busy));
    assert_eq!(laptop.jobs[0].status, JobStatus::WaitingCapacity);
    assert_eq!(laptop.jobs[0].id, job.id);
    assert_eq!(exec_json(&laptop.jobs[0]).status, "waiting");
    assert_eq!(pending_jobs(&laptop).len(), 1, "it is tried again");
    assert!(settle_dispatch(&mut laptop, "j1", &ClixError::Unreachable));
    assert_eq!(laptop.jobs[0].status, JobStatus::WaitingBody);
    assert!(!settle_dispatch(&mut laptop, "j1", &ClixError::Unreachable));
    laptop.jobs[0].status = JobStatus::Running;
    assert!(!settle_dispatch(&mut laptop, "j1", &ClixError::Unreachable));
    assert!(!settle_dispatch(&mut laptop, "j1", &busy));
    assert!(settle_dispatch(&mut laptop, "j1", &ClixError::Usage("no".into())));
    assert!(!settle_dispatch(&mut laptop, "j1", &busy), "a failure is final");
}

#[test]
fn local_work_waits_for_a_place_too() {
    let mut laptop = machine("laptop", 1);
    clix::add(
        &mut laptop,
        "true",
        &vec![],
        false,
        None,
        None,
        Ok("/usr/bin/true".into()),
    )
    .unwrap();
    let mut limits = Limits::new();
    for _ in 0..limits::CHILDREN {
        limits.child().unwrap();
    }
    let job = queued(&mut laptop, "laptop", "j1");
    let own = BodyId("laptop".into());
    let e = submit(
        &mut laptop,
        &mut limits,
        &own,
        &job.argv,
        &job.id,
        &noon(),
        "fresh".into(),
    )
    .unwrap_err();
    settle_dispatch(&mut laptop, &job.id, &e);
    assert_eq!(waiting_here(&laptop).len(), 1);
    assert_eq!(laptop.jobs[0].status, JobStatus::WaitingCapacity);
    limits.children.give();
    assert!(matches!(
        submit(
            &mut laptop,
            &mut limits,
            &own,
            &job.argv,
            &job.id,
            &noon(),
            "fresh".into(),
        )
        .unwrap(),
        Submission::Run(_, _)
    ));
    assert!(waiting_here(&laptop).is_empty());
}

#[test]
fn requests_are_delivered_until_they_arrive_or_are_refused() {
    let mut laptop = machine("laptop", 1);
    for id in ["r1", "r2"] {
        laptop.outbound_requests.push(OutboundRequest {
            id: id.into(),
            body: BodyId("server".into()),
            tool: "adb".into(),
            waiting: false,
            error: None,
        });
    }
    assert!(settle_delivery(&mut laptop, "r1", Err(ClixError::Unreachable)));
    assert!(laptop.outbound_requests[0].waiting);
    assert!(!settle_delivery(&mut laptop, "r1", Err(ClixError::Unreachable)));
    assert!(settle_delivery(&mut laptop, "r1", Ok(())));
    assert_eq!(laptop.outbound_requests.len(), 1);
    assert!(settle_delivery(&mut laptop, "r2", Err(ClixError::Usage("no".into()))));
    assert_eq!(laptop.outbound_requests[0].error.as_deref(), Some("no"));
    assert!(!settle_delivery(&mut laptop, "gone", Ok(())));
    assert_eq!(find_route(&laptop, "server").unwrap().addr, "100.64.0.20:7421");
    assert_eq!(
        find_route(&laptop, "phone").unwrap_err().message(),
        "phone is not paired"
    );
    let mut active: Table<()> = Table::new();
    assert!(claim(&mut active, &request_task("r2")));
    assert!(!claim(&mut active, "request:r2"));
}

#[test]
fn ids_and_lines_read_as_documented() {
    assert_eq!(new_id([0; 16]), "00000000-0000-4000-8000-000000000000");
    assert_eq!(new_id([255; 16]), "ffffffff-ffff-4fff-bfff-ffffffffffff");
    let mut laptop = machine("laptop", 1);
    let mut job = queued(&mut laptop, "server", "j1");
    job.status = JobStatus::Done { exit: 0 };
    let line = format_line(&job);
    assert!(line.contains("laptop") && line.contains("server") && line.contains("true"), "{line}");
    assert!(limits::identifier("").is_err());
    assert!(limits::identifier(&"x".repeat(129)).is_err());
    assert!(limits::identifier(&"x".repeat(128)).is_ok());
    assert!(limits::invocation("j", &vec![]).is_err());
    assert!(limits::invocation("j", &vec!["true".to_string(); 257]).is_err());
    assert!(limits::invocation("j", &vec!["a\u{0}b".to_string()]).is_err());
    assert!(limits::invocation("j", &vec!["t".to_string(), "x".repeat(65_536)]).is_err());
    job.stdout = vec![0; limits::OUTPUT_STREAM_BYTES + 1];
    assert!(limits::result(&job).is_err());
}
