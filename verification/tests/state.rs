use chrono::{Datelike, NaiveDate, Timelike};
use clix::types::{LocalTime, TimeOfDay, Timestamp, Weekday};
use clix::{
    socket_path, state_dir, state_file, tray_tooltip, BodyId, Job, JobStatus, Request, Schedule,
    Store,
};

fn local_dt(y: i32, m: u32, d: u32, h: u32, min: u32) -> LocalTime {
    let naive = NaiveDate::from_ymd_opt(y, m, d)
        .unwrap()
        .and_hms_opt(h, min, 0)
        .unwrap();
    let weekday = match naive.weekday().num_days_from_monday() {
        0 => Weekday::Mon,
        1 => Weekday::Tue,
        2 => Weekday::Wed,
        3 => Weekday::Thu,
        4 => Weekday::Fri,
        5 => Weekday::Sat,
        _ => Weekday::Sun,
    };
    LocalTime {
        instant: Timestamp {
            secs: naive.and_utc().timestamp(),
            nanos: 0,
        },
        weekday,
        day: naive.day() as u8,
        time: TimeOfDay {
            seconds: naive.num_seconds_from_midnight(),
            nanos: 0,
        },
    }
}

fn at(h: u32, m: u32) -> TimeOfDay {
    TimeOfDay {
        seconds: h * 3600 + m * 60,
        nanos: 0,
    }
}

#[test]
fn schedule_days_or_dates_union() {
    let s = Schedule {
        days: vec![Weekday::Fri],
        dates: vec![1],
        from: None,
        to: None,
    };
    assert!(s.allows_at(&local_dt(2026, 9, 4, 12, 0))); // Friday
    assert!(s.allows_at(&local_dt(2026, 9, 1, 12, 0))); // 1st, Tuesday
    assert!(!s.allows_at(&local_dt(2026, 9, 2, 12, 0))); // Tue 2nd
}

#[test]
fn schedule_hours_use_local_clock() {
    let s = Schedule {
        days: vec![],
        dates: vec![],
        from: Some(at(9, 0)),
        to: Some(at(17, 0)),
    };
    assert!(s.allows_at(&local_dt(2026, 9, 11, 9, 0)));
    assert!(s.allows_at(&local_dt(2026, 9, 11, 17, 0)));
    assert!(!s.allows_at(&local_dt(2026, 9, 11, 8, 59)));
    assert!(!s.allows_at(&local_dt(2026, 9, 11, 17, 1)));
}

#[test]
fn schedule_empty_calendar_is_every_day() {
    let s = Schedule {
        days: vec![],
        dates: vec![],
        from: None,
        to: None,
    };
    assert!(s.allows_at(&local_dt(2026, 9, 12, 0, 0))); // Saturday
}

#[test]
fn state_dir_uses_clix_home() {
    let got = state_dir(Some("/tmp/clix-home".into()), None).unwrap();
    assert_eq!(got, "/tmp/clix-home");
    let got = state_dir(Some("/tmp/clix-home".into()), Some("/home/me/clix".into())).unwrap();
    assert_eq!(got, "/tmp/clix-home");
}

#[test]
fn state_dir_default_is_project_dirs() {
    let project = directories::ProjectDirs::from("", "", "clix").unwrap();
    let project = project.data_dir().to_str().unwrap().to_string();
    let got = state_dir(None, Some(project)).unwrap();
    assert!(
        got.ends_with("clix"),
        "ProjectDirs application is clix, got {got:?}"
    );
    let e = state_dir(Some(String::new()), None).unwrap_err();
    assert_eq!(e.message(), "cannot determine clix state directory");
}

#[test]
fn state_is_one_file_in_its_directory() {
    let got = state_file(Some("/tmp/clix-home".into()), None).unwrap();
    assert_eq!(got, "/tmp/clix-home/state.json");
}

#[test]
fn socket_path_prefers_clix_sock() {
    let got = socket_path(
        Some("/tmp/clix-test.sock".into()),
        Some("/run/user/1000".into()),
    )
    .unwrap();
    assert_eq!(got, "/tmp/clix-test.sock");
}

#[test]
fn socket_path_uses_xdg_runtime_dir() {
    let got = socket_path(None, Some("/run/user/1000".into())).unwrap();
    assert_eq!(got, "/run/user/1000/clix.sock");
    let e = socket_path(None, None).unwrap_err();
    assert_eq!(
        e.message(),
        "XDG_RUNTIME_DIR is not set (or set CLIX_SOCK)"
    );
}

fn empty_store() -> Store {
    Store::fresh("/state".into(), String::new(), vec![1; 32])
}

fn store_with_one_request() -> Store {
    let mut store = empty_store();
    store.requests.push(Request {
        id: "req-1".into(),
        from: BodyId("server".into()),
        tool: "true".into(),
        once_suggested: true,
    });
    store
}

fn store_with_running_job() -> Store {
    let mut store = empty_store();
    store.jobs.push(Job {
        id: "job-1".into(),
        body: BodyId("laptop".into()),
        argv: vec!["true".into()],
        from: BodyId("server".into()),
        status: JobStatus::Running,
        stdout: vec![],
        stderr: vec![],
    });
    store
}

#[test]
fn tooltip_pending_and_running() {
    assert_eq!(tray_tooltip(&store_with_one_request()), "1 request");
    assert_eq!(tray_tooltip(&store_with_running_job()), "true from server");
    assert_eq!(tray_tooltip(&empty_store()), "Clix is running");
}

#[test]
fn the_tray_counts_requests_and_shows_them_plainly() {
    let mut store = store_with_one_request();
    store.requests.push(Request {
        id: "req-2".into(),
        from: BodyId("my_phone".into()),
        tool: "adb".into(),
        once_suggested: true,
    });
    assert_eq!(tray_tooltip(&store), "2 requests");
    assert_eq!(
        clix::tray::pending_labels(&store),
        vec!["server wants true", "my__phone wants adb"]
    );
    let icon = clix::tray::tray_icon();
    assert_eq!(icon.len(), 16 * 16 * 4);
    assert_eq!(&icon[..4], &[0, 0, 0, 0]);
    let inside = (3 * 16 + 3) * 4;
    assert_eq!(&icon[inside..inside + 4], &[0xff, 0x2a, 0x9d, 0x8f]);
    assert!(clix::tray::tray_enabled(None, Some(":0"), None));
    assert!(!clix::tray::tray_enabled(Some("0"), Some(":0"), None));
    assert!(!clix::tray::tray_enabled(None, Some(""), None));
}

#[test]
fn a_restart_makes_interrupted_runs_uncertain() {
    let mut store = store_with_running_job();
    store.body_name = "laptop".into();
    store.jobs.push(Job {
        id: "job-2".into(),
        body: BodyId("server".into()),
        argv: vec!["true".into()],
        from: BodyId("laptop".into()),
        status: JobStatus::Running,
        stdout: vec![],
        stderr: vec![],
    });
    store.recover_jobs();
    match &store.jobs[0].status {
        JobStatus::Uncertain { reason } => assert!(reason.contains("Not rerunning"), "{reason}"),
        other => panic!("{other:?}"),
    }
    assert_eq!(store.jobs[1].status, JobStatus::Running);
    let once = store.clone();
    store.recover_jobs();
    assert_eq!(store, once);
}

#[test]
fn a_failed_save_changes_nothing_and_stops_later_changes() {
    let mut store = empty_store();
    let before = store.clone();
    let mut edited = store.clone();
    edited.pin_enabled = true;
    let next = store.prepare_update(edited, "epoch".into()).unwrap();
    store.admit_encoded(&next, 0, 0).unwrap();
    assert!(store
        .finish_update(next.clone(), Err(clix::ClixError::Io("disk full".into())))
        .is_err());
    assert_eq!(store.pin_enabled, before.pin_enabled);
    assert_eq!(store.history, before.history);
    assert!(store.ensure_writable().unwrap_err().message().contains("disk full"));
    let mut store = before;
    store.finish_update(next, Ok(())).unwrap();
    assert!(store.pin_enabled);
    store.ensure_writable().unwrap();
}
