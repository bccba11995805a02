use chrono::{Datelike, NaiveDateTime, Timelike};
use clix::grant::tool_candidates;
use clix::types::{LocalTime, TimeOfDay, Timestamp, Weekday};
use clix::{
    add, add_with_args, check, check_args, check_at, describe_grant, hands, remove, resolve_tool,
    BodyId, ClixError, Grant, Peer, Result, Schedule, Store,
};

fn empty_store() -> Store {
    let mut s = Store::fresh("/state".into(), String::new(), vec![9; 32]);
    s.peers = vec![
        Peer {
            name: BodyId("server".into()),
            owner_pk: vec![1; 32],
            addr: None,
        },
        Peer {
            name: BodyId("phone".into()),
            owner_pk: vec![2; 32],
            addr: None,
        },
    ];
    s
}

/// A machine where only `/usr/bin/true` and `/usr/bin/false` are executable.
fn which(tool: &str) -> Result<String> {
    let dirs = vec!["/usr/local/bin".to_string(), "/usr/bin".to_string()];
    let paths = tool_candidates(tool, &dirs);
    let flags: Vec<bool> = paths
        .iter()
        .map(|p| p == "/usr/bin/true" || p == "/usr/bin/false")
        .collect();
    resolve_tool(tool, &flags).map(|i| paths[i].clone())
}

fn grant_to(
    s: &mut Store,
    tool: &str,
    allow: &[&str],
    once: bool,
    until: Option<Timestamp>,
    schedule: Option<Schedule>,
) -> Result<Grant> {
    let allow: Vec<String> = allow.iter().map(|a| a.to_string()).collect();
    add(s, tool, &allow, once, until, schedule, which(tool))
}

fn body(name: &str) -> BodyId {
    BodyId(name.into())
}

fn t(h: u32, m: u32) -> TimeOfDay {
    TimeOfDay {
        seconds: h * 3600 + m * 60,
        nanos: 0,
    }
}

fn weekday(n: u32) -> Weekday {
    match n {
        0 => Weekday::Mon,
        1 => Weekday::Tue,
        2 => Weekday::Wed,
        3 => Weekday::Thu,
        4 => Weekday::Fri,
        5 => Weekday::Sat,
        _ => Weekday::Sun,
    }
}

fn datetime(s: &str) -> LocalTime {
    let naive = NaiveDateTime::parse_from_str(s, "%Y-%m-%dT%H:%M:%S").unwrap();
    LocalTime {
        instant: Timestamp {
            secs: naive.and_utc().timestamp(),
            nanos: 0,
        },
        weekday: weekday(naive.weekday().num_days_from_monday()),
        day: naive.day() as u8,
        time: TimeOfDay {
            seconds: naive.num_seconds_from_midnight(),
            nanos: 0,
        },
    }
}

const EPOCH: Timestamp = Timestamp { secs: 0, nanos: 0 };

#[test]
fn add_all_bodies_until_removed() {
    let mut s = empty_store();
    grant_to(&mut s, "true", &[], false, None, None).unwrap();
    assert!(check(&s, "true", &body("server")).is_ok());
    assert!(check(&s, "true", &body("phone")).is_ok());
}

#[test]
fn allow_server_denies_other() {
    let mut s = empty_store();
    grant_to(&mut s, "true", &["server"], false, None, None).unwrap();
    assert!(check(&s, "true", &body("server")).is_ok());
    let e = check(&s, "true", &body("phone")).unwrap_err();
    assert!(e.message().contains("not allowed"));
}

#[test]
fn expired_until_is_denied() {
    let mut s = empty_store();
    grant_to(&mut s, "true", &[], false, Some(EPOCH), None).unwrap();
    let e = check(&s, "true", &body("server")).unwrap_err();
    assert!(e.message().contains("expired"));
}

#[test]
fn missing_is_plain_english() {
    let mut s = empty_store();
    s.body_name = "laptop".into();
    let e = check(&s, "adb", &body("server")).unwrap_err();
    assert_eq!(e.message(), "adb is not added on laptop");
}

fn working_hours() -> Schedule {
    Schedule {
        days: vec![
            Weekday::Mon,
            Weekday::Tue,
            Weekday::Wed,
            Weekday::Thu,
            Weekday::Fri,
        ],
        dates: vec![],
        from: Some(t(9, 0)),
        to: Some(t(17, 0)),
    }
}

#[test]
fn days_and_hours_denies_saturday() {
    let mut s = empty_store();
    s.body_name = "laptop".into();
    grant_to(&mut s, "true", &[], false, None, Some(working_hours())).unwrap();
    let saturday_noon = datetime("2026-09-12T12:00:00");
    let e = check_at(&s, "true", &body("server"), &saturday_noon).unwrap_err();
    assert!(e.message().contains("not added") && e.message().contains("at this time"));
}

#[test]
fn dates_or_days_union() {
    let mut s = empty_store();
    grant_to(
        &mut s,
        "true",
        &[],
        false,
        None,
        Some(Schedule {
            days: vec![Weekday::Fri],
            dates: vec![1],
            from: None,
            to: None,
        }),
    )
    .unwrap();
    // Friday
    assert!(check_at(&s, "true", &body("server"), &datetime("2026-09-04T12:00:00")).is_ok());
    // 1st, Tuesday
    assert!(check_at(&s, "true", &body("server"), &datetime("2026-09-01T12:00:00")).is_ok());
    // Wed 2nd
    assert!(check_at(&s, "true", &body("server"), &datetime("2026-09-02T12:00:00")).is_err());
}

#[test]
fn add_resolves_true_via_which() {
    let path = which("true").unwrap();
    assert!(path.ends_with("true"));
    assert!(path.starts_with('/'));
    let mut s = empty_store();
    let g = grant_to(&mut s, "true", &[], false, None, None).unwrap();
    assert_eq!(g.tool, "true");
    assert_eq!(g.binary, path);
}

#[test]
fn remove_then_check_is_not_added() {
    let mut s = empty_store();
    s.body_name = "laptop".into();
    grant_to(&mut s, "true", &[], false, None, None).unwrap();
    remove(&mut s, "true", None).unwrap();
    let e = check(&s, "true", &body("server")).unwrap_err();
    assert_eq!(e.message(), "true is not added on laptop");
}

#[test]
fn once_and_schedule_conflict() {
    let mut s = empty_store();
    let e = grant_to(
        &mut s,
        "true",
        &[],
        true,
        None,
        Some(Schedule {
            days: vec![Weekday::Mon],
            dates: vec![],
            from: None,
            to: None,
        }),
    )
    .unwrap_err();
    assert!(e.message().contains("use --once or a schedule, not both"));
}

#[test]
fn days_and_hours_allows_friday_noon_denies_before_from() {
    let mut s = empty_store();
    s.body_name = "laptop".into();
    grant_to(&mut s, "true", &[], false, None, Some(working_hours())).unwrap();
    assert!(check_at(&s, "true", &body("server"), &datetime("2026-09-11T12:00:00")).is_ok());
    let e = check_at(&s, "true", &body("server"), &datetime("2026-09-11T08:00:00")).unwrap_err();
    assert!(e.message().contains("not added") && e.message().contains("at this time"));
}

#[test]
fn not_allowed_is_plain_english() {
    let mut s = empty_store();
    s.body_name = "laptop".into();
    grant_to(&mut s, "true", &["server"], false, None, None).unwrap();
    let e = check(&s, "true", &body("phone")).unwrap_err();
    assert_eq!(e.message(), "phone is not allowed to use true on laptop");
}

#[test]
fn expired_until_is_plain_english() {
    let mut s = empty_store();
    s.body_name = "laptop".into();
    grant_to(&mut s, "true", &[], false, Some(EPOCH), None).unwrap();
    let e = check(&s, "true", &body("server")).unwrap_err();
    assert_eq!(e.message(), "true grant on laptop has expired");
}

#[test]
fn future_until_is_allowed() {
    let mut s = empty_store();
    let now = chrono::Utc::now().timestamp();
    let until = Timestamp {
        secs: now + 3600,
        nanos: 0,
    };
    grant_to(&mut s, "true", &[], false, Some(until), None).unwrap();
    assert!(check(&s, "true", &body("server")).is_ok());
}

#[test]
fn hands_lists_added_tools() {
    let mut s = empty_store();
    grant_to(&mut s, "true", &[], false, None, None).unwrap();
    let listed = hands(&s);
    assert_eq!(listed.len(), 1);
    assert_eq!(listed[0].tool, "true");
}

#[test]
fn add_missing_binary_is_no_such_tool() {
    let mut s = empty_store();
    let e = grant_to(&mut s, "clix-no-such-tool-xyz", &[], false, None, None).unwrap_err();
    match e {
        ClixError::NoSuchTool { tool } => assert_eq!(tool, "clix-no-such-tool-xyz"),
        other => panic!("expected NoSuchTool, got {}", other.message()),
    }
}

#[test]
fn readd_replaces_who() {
    let mut s = empty_store();
    grant_to(&mut s, "true", &["server"], false, None, None).unwrap();
    grant_to(&mut s, "true", &[], false, None, None).unwrap();
    assert!(check(&s, "true", &body("phone")).is_ok());
    assert_eq!(s.grants.len(), 1);
}

#[test]
fn allow_is_the_same_allow_from_field() {
    let mut s = empty_store();
    let g = grant_to(&mut s, "true", &["server"], false, None, None).unwrap();
    assert_eq!(g.allow_from.as_ref().unwrap(), &vec![body("server")]);
    assert!(g.schedule.is_none());
}

#[test]
fn unknown_allow_body_is_rejected_without_changing_grants() {
    let mut s = empty_store();
    assert!(grant_to(&mut s, "true", &["unpaired"], false, None, None).is_err());
    assert!(s.grants.is_empty());
}

#[test]
fn only_the_listed_arguments_are_granted() {
    let mut s = empty_store();
    s.body_name = "laptop".into();
    let lists = vec![vec!["devices".to_string()], vec![]];
    let all: Vec<String> = vec![];
    add_with_args(
        &mut s,
        "true",
        &all,
        false,
        None,
        None,
        Some(lists),
        which("true"),
    )
    .unwrap();
    let now = datetime("2026-09-11T12:00:00");
    let argv = |words: &[&str]| words.iter().map(|w| w.to_string()).collect::<Vec<_>>();
    assert!(check_args(&s, &argv(&["true", "devices"]), &body("server"), &now).is_ok());
    assert!(check_args(&s, &argv(&["true"]), &body("server"), &now).is_ok());
    let e = check_args(&s, &argv(&["true", "shell"]), &body("server"), &now).unwrap_err();
    assert_eq!(
        e.message(),
        "true is not granted with these arguments on laptop"
    );
    assert!(check_args(&s, &argv(&["true", "devices", "-l"]), &body("server"), &now).is_err());
}

#[test]
fn a_grant_can_be_removed_by_the_path_that_was_stored() {
    let mut s = empty_store();
    s.body_name = "laptop".into();
    grant_to(&mut s, "true", &[], false, None, None).unwrap();
    let e = remove(&mut s, "true", Some("/opt/true".into())).unwrap_err();
    assert_eq!(e.message(), "true is not added on laptop");
    remove(&mut s, "/usr/bin/./true", Some("/usr/bin/./true".into())).unwrap();
    assert!(s.grants.is_empty());
}

#[test]
fn a_line_tells_the_scope_and_the_terms() {
    let mut s = empty_store();
    let g = grant_to(&mut s, "true", &["server", "phone"], true, None, None).unwrap();
    assert_eq!(describe_grant(&g), "true  → server, phone  once");
    let g = grant_to(&mut s, "true", &[], false, None, Some(working_hours())).unwrap();
    assert_eq!(describe_grant(&g), "true  → all machines  schedule");
    let until = Timestamp {
        secs: 1_800_000_000,
        nanos: 0,
    };
    let g = grant_to(&mut s, "true", &[], false, Some(until), None).unwrap();
    let line = describe_grant(&g);
    assert!(line.starts_with("true  → all machines  until 2027-01-1"), "{line}");
    assert!(line.ends_with(" (1800000000)"), "{line}");
}

#[test]
fn overnight_windows_cross_midnight() {
    let night = Schedule {
        days: vec![],
        dates: vec![],
        from: Some(t(22, 0)),
        to: Some(t(6, 0)),
    };
    assert!(night.allows_at(&datetime("2026-09-11T23:30:00")));
    assert!(night.allows_at(&datetime("2026-09-11T05:59:00")));
    assert!(night.allows_at(&datetime("2026-09-11T06:00:00")));
    assert!(!night.allows_at(&datetime("2026-09-11T12:00:00")));
}
