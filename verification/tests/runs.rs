use clix::exec::{
    captured_stream, command, finish, lose_completion, submit, validate_argv, RunOutcome,
    Submission,
};
use clix::limits::Limits;
use clix::types::{LocalTime, TimeOfDay, Timestamp, Weekday};
use clix::{add, BodyId, ClixError, Grant, JobStatus, Peer, Store};

fn grant() -> Grant {
    Grant {
        reservation: None,
        tool: "true".into(),
        binary: "/usr/bin/true".into(),
        allow_from: None,
        once: false,
        until: None,
        schedule: None,
        args: None,
    }
}

fn noon() -> LocalTime {
    LocalTime {
        instant: Timestamp {
            secs: 1_789_000_000,
            nanos: 0,
        },
        weekday: Weekday::Fri,
        day: 11,
        time: TimeOfDay {
            seconds: 43_200,
            nanos: 0,
        },
    }
}

fn laptop() -> Store {
    let mut s = Store::fresh("/state".into(), "laptop".into(), vec![7; 32]);
    for (name, seed) in [("server", 1u8), ("phone", 2)] {
        s.peers.push(Peer {
            name: BodyId(name.into()),
            owner_pk: vec![seed; 32],
            addr: None,
        });
    }
    s
}

fn words(list: &[&str]) -> Vec<String> {
    list.iter().map(|w| w.to_string()).collect()
}

fn ask(s: &mut Store, limits: &mut Limits, from: &str, argv: &[&str], id: &str) -> clix::Result<Submission> {
    submit(
        s,
        limits,
        &BodyId(from.into()),
        &words(argv),
        id,
        &noon(),
        "fresh".into(),
    )
}

fn grant_once(s: &mut Store, once: bool) {
    add(
        s,
        "true",
        &vec![],
        once,
        None,
        None,
        Ok("/usr/bin/true".into()),
    )
    .unwrap();
}

fn exited(code: i32) -> RunOutcome {
    RunOutcome::Exited {
        code: Some(code),
        signal: None,
        stdout: b"out".to_vec(),
        stderr: vec![],
        capture_error: None,
    }
}

#[test]
fn rejects_argv0_mismatch() {
    let e = command(&grant(), &words(&["bash", "-c", "echo pwned"])).unwrap_err();
    assert!(e.message().contains("not added") || e.message().contains("not granted"));
    assert!(validate_argv(&grant(), &words(&["bash"])).is_err());
    let line = command(&grant(), &words(&["true", "-x"])).unwrap();
    assert_eq!(line.program, "/usr/bin/true");
    assert_eq!(line.arg0, "true");
    assert_eq!(line.args, words(&["-x"]));
}

#[test]
fn nothing_granted_means_nothing_runs_and_a_request_is_left() {
    let mut s = laptop();
    let mut limits = Limits::new();
    match ask(&mut s, &mut limits, "server", &["true"], "j1").unwrap() {
        Submission::Denied(job) => assert_eq!(
            job.status,
            JobStatus::Denied {
                reason: "true is not added on laptop".into()
            }
        ),
        other => panic!("{other:?}"),
    }
    assert_eq!(s.requests.len(), 1);
    assert_eq!(s.requests[0].from, BodyId("server".into()));
    assert_eq!(s.jobs.len(), 1);
}

#[test]
fn a_repeated_invocation_is_answered_and_not_rerun() {
    let mut s = laptop();
    let mut limits = Limits::new();
    grant_once(&mut s, false);
    assert!(matches!(
        ask(&mut s, &mut limits, "server", &["true"], "j1").unwrap(),
        Submission::Run(_, _)
    ));
    let held = s.clone();
    assert!(matches!(
        ask(&mut s, &mut limits, "server", &["true"], "j1").unwrap(),
        Submission::Known(_)
    ));
    assert_eq!(s, held);
    let e = ask(&mut s, &mut limits, "server", &["true", "x"], "j1").unwrap_err();
    assert_eq!(e.message(), "job ID belongs to a different invocation");
    let e = ask(&mut s, &mut limits, "phone", &["true"], "j1").unwrap_err();
    assert_eq!(e.message(), "job ID belongs to a different invocation");
    assert_eq!(s, held);
}

#[test]
fn a_single_use_grant_serves_one_success() {
    let mut s = laptop();
    let mut limits = Limits::new();
    grant_once(&mut s, true);
    let (job, grant) = match ask(&mut s, &mut limits, "server", &["true"], "j1").unwrap() {
        Submission::Run(job, grant) => (job, grant),
        other => panic!("{other:?}"),
    };
    assert_eq!(s.grants[0].reservation.as_deref(), Some("j1"));
    match ask(&mut s, &mut limits, "phone", &["true"], "j2").unwrap() {
        Submission::Denied(job) => assert!(matches!(job.status, JobStatus::Denied { .. })),
        other => panic!("{other:?}"),
    }
    assert!(s.requests.is_empty(), "a busy grant asks for nothing");
    finish(&mut s, &grant, job, exited(1)).unwrap();
    assert_eq!(s.grants[0].reservation, None);
    let (job, grant) = match ask(&mut s, &mut limits, "server", &["true"], "j3").unwrap() {
        Submission::Run(job, grant) => (job, grant),
        other => panic!("{other:?}"),
    };
    finish(&mut s, &grant, job, exited(0)).unwrap();
    assert!(s.grants.is_empty());
    let done = s.jobs.iter().find(|j| j.id == "j3").unwrap();
    assert_eq!(done.status, JobStatus::Done { exit: 0 });
    assert_eq!(done.stdout, b"out");
}

#[test]
fn an_unknown_outcome_keeps_the_reservation() {
    let mut s = laptop();
    let mut limits = Limits::new();
    grant_once(&mut s, true);
    let (job, grant) = match ask(&mut s, &mut limits, "server", &["true"], "j1").unwrap() {
        Submission::Run(job, grant) => (job, grant),
        other => panic!("{other:?}"),
    };
    finish(&mut s, &grant, job, RunOutcome::Uncertain("lost".into())).unwrap();
    assert_eq!(s.grants[0].reservation.as_deref(), Some("j1"));
    assert_eq!(
        s.jobs[0].status,
        JobStatus::Uncertain {
            reason: "could not determine true exit status: lost. Not rerunning.".into()
        }
    );
}

#[test]
fn finishing_an_old_run_leaves_a_replacement_grant_alone() {
    let mut s = laptop();
    let mut limits = Limits::new();
    grant_once(&mut s, true);
    let (job, grant) = match ask(&mut s, &mut limits, "server", &["true"], "j1").unwrap() {
        Submission::Run(job, grant) => (job, grant),
        other => panic!("{other:?}"),
    };
    grant_once(&mut s, true);
    finish(&mut s, &grant, job, exited(0)).unwrap();
    assert_eq!(s.grants.len(), 1);
    assert_eq!(s.grants[0].reservation, None);
}

#[test]
fn runs_take_places_and_a_full_house_waits() {
    let mut s = laptop();
    let mut limits = Limits::new();
    grant_once(&mut s, false);
    for n in 0..4 {
        assert!(matches!(
            ask(&mut s, &mut limits, "server", &["true"], &format!("j{n}")).unwrap(),
            Submission::Run(_, _)
        ));
    }
    let held = s.clone();
    let e = ask(&mut s, &mut limits, "server", &["true"], "j4").unwrap_err();
    assert!(matches!(e, ClixError::Capacity(_)), "{}", e.message());
    assert_eq!(s, held);
    limits.children.give();
    assert!(ask(&mut s, &mut limits, "server", &["true"], "j4").is_ok());
}

#[test]
fn ends_of_a_run_read_as_a_shell_would_tell_them() {
    let mut s = laptop();
    let mut limits = Limits::new();
    grant_once(&mut s, false);
    let cases = vec![
        (
            RunOutcome::Exited {
                code: None,
                signal: Some(9),
                stdout: vec![],
                stderr: vec![],
                capture_error: None,
            },
            JobStatus::Done { exit: 137 },
        ),
        (
            RunOutcome::Exited {
                code: Some(0),
                signal: None,
                stdout: vec![],
                stderr: vec![],
                capture_error: Some("output exceeds 4 MiB".into()),
            },
            JobStatus::Failed {
                reason: "true exited 0, but output capture failed: output exceeds 4 MiB".into(),
            },
        ),
        (
            RunOutcome::NotStarted("no such file".into()),
            JobStatus::Failed {
                reason: "could not run true: no such file".into(),
            },
        ),
    ];
    for (n, (end, status)) in cases.into_iter().enumerate() {
        let id = format!("end-{n}");
        let (job, grant) = match ask(&mut s, &mut limits, "server", &["true"], &id).unwrap() {
            Submission::Run(job, grant) => (job, grant),
            other => panic!("{other:?}"),
        };
        limits.children.give();
        finish(&mut s, &grant, job, end).unwrap();
        let job = s.jobs.iter().find(|j| j.id == id).unwrap();
        assert_eq!(job.status, status);
    }
}

#[test]
fn a_completion_that_cannot_be_saved_is_told_as_uncertain() {
    let mut s = laptop();
    let mut limits = Limits::new();
    grant_once(&mut s, true);
    ask(&mut s, &mut limits, "server", &["true"], "j1").unwrap();
    let reason = lose_completion(&mut s, "j1", &ClixError::Io("disk full".into()));
    assert!(reason.starts_with("could not persist job completion: "), "{reason}");
    assert_eq!(s.jobs[0].status, JobStatus::Uncertain { reason });
    assert_eq!(s.grants[0].reservation.as_deref(), Some("j1"));
}

#[test]
fn captured_output_is_bounded() {
    let full = vec![1u8; 4 * 1024 * 1024];
    assert_eq!(captured_stream(full.clone()).unwrap(), full);
    let e = captured_stream(vec![1u8; 4 * 1024 * 1024 + 1]).unwrap_err();
    assert!(e.contains("4 MiB"), "{e}");
}
