//! What the owner's commands send, and what they show.

use clix::cli::parse_argv;
use clix::daemon::{prepare_socket_path, Action};
use clix::install::{
    dir_overridden, enable_now, linger_advice, linger_enabled, systemctl_result, systemd_dir,
    systemd_quote, unit_text,
};
use clix::limits::owner_line;
use clix::local::message::rpc_from_cmd;
use clix::local::owner::{
    exec_route, owner_op, parse_weekday, queue_request, request_route, retry_job, rpc_schedule,
    rpc_until, saved_output, told_soon, wait_step, ExecRoute, OwnerOp, SentDate, WaitStep,
    SOON_LOOKS,
};
use clix::local::reply::{client_step, emit_rpc, ClientStep, PendingRow, Reply};
use clix::notify::{actions, enabled, notification_text, Watch};
use clix::schedule::{local_now, local_time, Clock};
use clix::types::{TimeOfDay, Timestamp, Weekday};
use clix::{dispatch, display_present_in, BodyId, ClixError, Cmd, Job, JobStatus, Peer, Request, Store};

fn words(line: &str) -> Vec<String> {
    line.split_whitespace().map(|w| w.to_string()).collect()
}

fn cmd(line: &str) -> Cmd {
    parse_argv(&words(line)).unwrap()
}

fn sent(line: &str) -> serde_json::Value {
    serde_json::from_str(&rpc_from_cmd(&cmd(line)).unwrap()).unwrap()
}

fn reply() -> Reply {
    Reply {
        ok: Some(true),
        error: None,
        status: None,
        waiting: None,
        reason: None,
        job_id: None,
        exit: None,
        stdout: vec![],
        stderr: vec![],
        body: None,
        peers: vec![],
        phrase: None,
        lines: vec![],
        requests: vec![],
        warning: None,
        synced: None,
        pretty: String::new(),
    }
}

#[test]
fn commands_become_requests_to_the_sidecar() {
    let add = sent("clix add adb --allow server --once");
    assert_eq!(add["op"], "add");
    assert_eq!(add["tool"], "adb");
    assert_eq!(add["allow"][0], "server");
    assert_eq!(add["once"], true);
    let exec = sent("clix @laptop say \"hi\"");
    assert_eq!(exec["op"], "exec");
    assert_eq!(exec["body"], "laptop");
    assert_eq!(exec["argv"][1], "\"hi\"");
    assert_eq!(sent("clix hands")["op"], "hands");
}

#[test]
fn the_sidecar_takes_only_its_own_operations() {
    assert_eq!(owner_op(Some("hands")).unwrap(), OwnerOp::Hands);
    assert_eq!(owner_op(Some("allow_request")).unwrap(), OwnerOp::AllowRequest);
    assert!(owner_op(Some("allow")).is_err());
    assert!(owner_op(None).is_err());
    assert_eq!(owner_line(b"{}\n".to_vec()).unwrap(), Some("{}".into()));
    assert_eq!(owner_line(vec![]).unwrap(), None);
    assert!(owner_line(vec![b'x'; 128 * 1024 + 1]).is_err());
    assert!(owner_line(b"{}".to_vec()).is_err(), "a line that was cut off");
}

#[test]
fn commands_go_where_they_name() {
    let mut s = Store::fresh("/state".into(), "laptop".into(), vec![1; 32]);
    s.peers.push(Peer {
        name: BodyId("server".into()),
        owner_pk: vec![2; 32],
        addr: Some("100.64.0.20:7421".into()),
    });
    let argv = words("true");
    assert!(matches!(exec_route(&s, Some("laptop"), &argv).unwrap(), ExecRoute::Here));
    match exec_route(&s, Some("server"), &argv).unwrap() {
        ExecRoute::There(name) => assert_eq!(name, "server"),
        other => panic!("{other:?}"),
    }
    match exec_route(&s, Some("phone"), &argv).unwrap() {
        ExecRoute::Denied(reason) => assert_eq!(reason, "phone is not this body"),
        other => panic!("{other:?}"),
    }
    assert!(exec_route(&s, None, &argv).is_err());
    assert!(exec_route(&s, Some("server"), &vec![]).is_err());
}

#[test]
fn a_retry_is_new_work_that_names_the_old() {
    let mut s = Store::fresh("/state".into(), "laptop".into(), vec![1; 32]);
    s.jobs.push(Job {
        id: "old".into(),
        body: BodyId("server".into()),
        argv: words("true -x"),
        from: BodyId("laptop".into()),
        status: JobStatus::Failed {
            reason: "lost".into(),
        },
        stdout: vec![],
        stderr: vec![],
    });
    let job = retry_job(&mut s, "old", "new".into()).unwrap();
    assert_eq!((job.id.as_str(), job.status), ("new", JobStatus::Queued));
    assert_eq!(s.retry_links.get("new"), Some(&"old".to_string()));
    assert!(matches!(s.jobs[0].status, JobStatus::Failed { .. }));
    assert!(retry_job(&mut s, "unknown", "x".into()).is_err());
    s.jobs[0].from = BodyId("server".into());
    assert!(retry_job(&mut s, "old", "x".into()).is_err());
    assert!(saved_output(None, true, false).is_err());
    s.jobs[0].stdout = b"kept".to_vec();
    assert_eq!(saved_output(Some(&s.jobs[0]), true, false).unwrap(), b"kept");
    assert!(saved_output(Some(&s.jobs[0]), false, false).is_err());
}

#[test]
fn times_and_days_are_read_strictly() {
    let now = Timestamp {
        secs: 1000,
        nanos: 5,
    };
    assert_eq!(
        rpc_until(&now, Some(60), None),
        Some(Timestamp {
            secs: 1060,
            nanos: 5
        })
    );
    assert_eq!(
        rpc_until(&now, None, Some(99)),
        Some(Timestamp { secs: 99, nanos: 0 })
    );
    assert_eq!(rpc_until(&now, None, None), None);
    assert_eq!(parse_weekday(" Fri ").unwrap(), Weekday::Fri);
    assert!(parse_weekday("friday").is_err());
    let s = rpc_schedule(
        true,
        &vec![],
        &vec![SentDate::Whole(15)],
        Some("9am"),
        Some("5pm"),
    )
    .unwrap()
    .unwrap();
    assert_eq!(s.days.len(), 5);
    assert_eq!(s.dates, vec![15]);
    assert_eq!(
        s.to,
        Some(TimeOfDay {
            seconds: 17 * 3600,
            nanos: 0
        })
    );
    assert!(rpc_schedule(false, &vec![], &vec![], None, None).unwrap().is_none());
    assert!(rpc_schedule(true, &vec![Some("mon".into())], &vec![], None, None).is_err());
    assert!(rpc_schedule(false, &vec![], &vec![SentDate::Whole(32)], None, None).is_err());
    let open = rpc_schedule(false, &vec![], &vec![], Some("9am"), None);
    assert_eq!(open.unwrap().unwrap().to, None);
    assert!(rpc_schedule(false, &vec![], &vec![], Some("25"), None).is_err());
}

#[test]
fn the_clock_is_read_in_local_time() {
    let when = local_time(Clock {
        secs: 0,
        nanos: 0,
        weekday: 3,
        day: 1,
        of_day: 2 * 3600 + 3 * 60 + 4,
        of_second: 5,
        date: 719_163,
    });
    assert_eq!(when.weekday, Weekday::Thu);
    assert_eq!(when.day, 1);
    assert_eq!(
        when.time,
        TimeOfDay {
            seconds: 2 * 3600 + 3 * 60 + 4,
            nanos: 5
        }
    );
}

#[test]
fn the_local_clock_agrees_with_itself() {
    let now = local_now();
    assert_eq!(now.time.nanos, now.instant.nanos);
    assert!(now.time.seconds < 86_400);
    let week = [
        Weekday::Mon,
        Weekday::Tue,
        Weekday::Wed,
        Weekday::Thu,
        Weekday::Fri,
        Weekday::Sat,
        Weekday::Sun,
    ];
    let days = now.instant.secs.div_euclid(86_400);
    assert!((2..=4).any(|shift| week[(days + shift).rem_euclid(7) as usize] == now.weekday));

    let noon = match cmd("clix add git --allow laptop --until 12pm") {
        Cmd::Add { until, .. } => until.unwrap(),
        _ => panic!("not an add"),
    };
    assert_eq!(noon.nanos, 0);
    assert!(noon.secs >= now.instant.secs && noon.secs < now.instant.secs + 2 * 86_400);
}

#[test]
fn replies_are_shown_as_the_command_promises() {
    let mut r = reply();
    r.requests.push(PendingRow {
        id: "req-1".into(),
        from: Some("server".into()),
        tool: Some("adb".into()),
    });
    assert_eq!(emit_rpc(&cmd("clix pending"), &r).out, vec!["req-1 server wants adb"]);
    let mut r = reply();
    r.status = Some("done".into());
    r.exit = Some(23);
    r.stdout = vec![0, 255];
    let shown = emit_rpc(&cmd("clix @server true"), &r);
    assert_eq!((shown.exit, shown.raw_out), (Some(23), vec![0, 255]));
    let mut r = reply();
    r.status = Some("denied".into());
    r.reason = Some("adb is not added on server".into());
    let shown = emit_rpc(&cmd("clix @server adb"), &r);
    assert_eq!(shown.failure.unwrap().message(), "adb is not added on server");
    let mut r = reply();
    r.status = Some("waiting".into());
    r.waiting = Some("server is asleep. waiting.".into());
    assert!(matches!(client_step(&r, false), ClientStep::Waiting(Some(_))));
    assert!(matches!(client_step(&r, true), ClientStep::Done));
    let mut r = reply();
    r.ok = Some(false);
    assert!(matches!(client_step(&r, false), ClientStep::Failed(ClixError::Io(_))));
    let mut r = reply();
    r.synced = Some(false);
    r.pretty = "{}".into();
    let shown = emit_rpc(&cmd("clix pin sync server"), &r);
    assert_eq!(shown.out, vec!["{}"]);
    assert!(shown.failure.is_some());
}

#[test]
fn commands_without_a_sidecar_stand_alone() {
    assert!(matches!(dispatch(&cmd("clix daemon"), None).unwrap(), Action::Serve));
    assert!(matches!(dispatch(&cmd("clix install"), None).unwrap(), Action::Install));
    assert!(matches!(dispatch(&cmd("clix pair"), None).unwrap(), Action::Invite(_)));
    assert!(matches!(
        dispatch(&cmd("clix pair one-two-three"), Some("127.0.0.1:9".into())).unwrap(),
        Action::Join(_)
    ));
    assert!(matches!(dispatch(&cmd("clix hands"), None).unwrap(), Action::Call(_)));
    assert!(prepare_socket_path("/run/clix.sock", true, true).is_err());
    assert!(prepare_socket_path("/run/clix.sock", true, false).unwrap());
    assert!(!prepare_socket_path("/run/clix.sock", false, false).unwrap());
}

#[test]
fn the_unit_runs_this_program() {
    let unit = unit_text("/opt/my clix/clix");
    assert!(unit.contains("ExecStart=\"/opt/my clix/clix\" daemon"), "{unit}");
    assert!(unit.starts_with("[Unit]\n"), "{unit}");
    assert_eq!(systemd_quote("/usr/bin/clix"), "/usr/bin/clix");
    assert_eq!(systemd_quote("a\"b\\c"), "\"a\\\"b\\\\c\"");
    assert_eq!(systemd_dir(Some("/units".into()), None, None).unwrap(), "/units");
    assert_eq!(
        systemd_dir(None, None, Some("/home/me".into())).unwrap(),
        "/home/me/.config/systemd/user"
    );
    assert_eq!(
        systemd_dir(None, Some("/cfg".into()), Some("/home/me".into())).unwrap(),
        "/cfg/systemd/user"
    );
    assert!(systemd_dir(None, None, None).is_err());
    assert!(dir_overridden(Some("/units".into())));
    assert!(!dir_overridden(None));
    assert!(enable_now(true).is_empty());
    assert_eq!(enable_now(false)[0], words("daemon-reload"));
    assert_eq!(linger_enabled("yes\n"), Some(true));
    assert_eq!(linger_enabled("no\n"), Some(false));
    assert!(linger_advice(Some(false), "me").unwrap().contains("loginctl enable-linger me"));
    assert!(linger_advice(Some(true), "me").is_none());
    assert!(systemctl_result(&words("daemon-reload"), Ok(true)).is_ok());
    assert!(systemctl_result(&words("daemon-reload"), Ok(false)).is_err());
}

#[test]
fn a_request_is_announced_once() {
    let request = |id: &str| Request {
        id: id.into(),
        from: BodyId("server".into()),
        tool: "adb".into(),
        once_suggested: true,
    };
    let mut watch = Watch::new();
    watch.refresh(&vec![request("r1")]);
    assert!(watch.observe("r1"));
    assert!(!watch.observe("r1"));
    assert!(watch.due("r1", true));
    assert!(!watch.due("r1", false));
    watch.shown("r1");
    assert!(!watch.due("r1", true));
    watch.refresh(&vec![]);
    assert!(watch.observe("r1"), "a request that was settled may come again");
    assert!(notification_text(&request("r1")).contains("server wants adb"));
    assert_eq!(actions(), vec!["once", "allow", "deny"]);
}

#[test]
fn display_detection_finds_a_compositor_socket_when_env_is_empty() {
    let none: Vec<String> = vec![];
    assert!(!display_present_in(None, None, &none, &none));
    assert!(!display_present_in(Some(""), None, &vec!["bus".into()], &none));
    assert!(!display_present_in(None, None, &vec!["wayland-1.lock".into()], &none));
    assert!(display_present_in(None, None, &vec!["wayland-1".into()], &none));
    assert!(display_present_in(None, None, &none, &vec!["X0".into()]));
    assert!(display_present_in(Some(":0"), None, &none, &none));
    assert!(enabled(None, true));
    assert!(!enabled(Some("0"), true));
    assert!(!enabled(None, false));
}

#[test]
fn requests_go_to_machines_that_can_be_reached() {
    let mut s = Store::fresh("/state".into(), "laptop".into(), vec![1; 32]);
    s.peers.push(Peer {
        name: BodyId("server".into()),
        owner_pk: vec![2; 32],
        addr: None,
    });
    assert!(request_route(&s, "", Some("git")).unwrap().is_none());
    assert!(request_route(&s, "laptop", Some("git")).unwrap().is_none());
    assert!(request_route(&s, "server", None).is_err());
    for body in ["server", "phone"] {
        assert_eq!(
            request_route(&s, body, Some("git")).unwrap_err().message(),
            format!("{body} is not this body")
        );
    }
    s.peers[0].addr = Some("100.64.0.20:7421".into());
    assert_eq!(
        request_route(&s, "server", Some("git")).unwrap().unwrap().addr,
        "100.64.0.20:7421"
    );
    queue_request(&mut s, "one".into(), "server".into(), "git".into());
    assert_eq!(s.outbound_requests.len(), 1);
    assert_eq!(s.outbound_requests[0].tool, "git");
    assert!(!s.outbound_requests[0].waiting);
}

#[test]
fn a_client_hears_once_that_its_command_waits() {
    let job = |status: JobStatus| Job {
        id: "one".into(),
        from: BodyId("laptop".into()),
        body: BodyId("server".into()),
        argv: vec!["true".into()],
        status,
        stdout: vec![],
        stderr: vec![],
    };
    assert!(!told_soon(&job(JobStatus::Queued), 0));
    assert!(told_soon(&job(JobStatus::Queued), SOON_LOOKS));
    assert!(told_soon(&job(JobStatus::Running), 0));
    assert_eq!(wait_step(&job(JobStatus::Running), false), WaitStep::Wait);
    assert_eq!(wait_step(&job(JobStatus::WaitingBody), false), WaitStep::Tell);
    assert_eq!(wait_step(&job(JobStatus::WaitingCapacity), true), WaitStep::Wait);
    assert_eq!(wait_step(&job(JobStatus::Done { exit: 0 }), true), WaitStep::Answer);
}
