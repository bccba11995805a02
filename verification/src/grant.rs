//! Grants: who may run which tool here, and for how long.

use chrono::{DateTime, Local, Utc};
use vstd::prelude::*;
use vstd::string::*;

use crate::data::Data;
use crate::error;
use crate::error::{usage, ClixError, ErrorModel, Outcome, Result};
use crate::history::find_peer;
use crate::history::wire;
use crate::limits;
use crate::paths;
use crate::paths::{is_same_place, join_path, tool_key};
use crate::schedule;
use crate::schedule::{is_earlier, local_now, Clock};
use crate::search;
use crate::store::{Store, StoreModel};
use crate::text;
use crate::text::{cat2, cat3, decimal_text, owned, text_has, text_same};
use crate::types::{
    BodyId, Grant, GrantModel, LocalTime, LocalTimeModel, RequestModel, Schedule, ScheduleModel,
    Timestamp, TimestampModel,
};

verus! {

/// Where a tool may be: at its path, or below each search directory.
pub open spec fn candidate_paths(name: Seq<char>, dirs: Seq<Seq<char>>) -> Seq<Seq<char>> {
    if name.contains('/') {
        seq![name]
    } else {
        Seq::new(dirs.len(), |i: int| paths::joined_path(dirs[i], name))
    }
}

/// The paths to look at, in order, for a tool given by name or path.
pub fn tool_candidates(name: &str, dirs: &Vec<String>) -> (paths: Vec<String>)
    ensures
        paths.deep_view() == candidate_paths(name@, dirs.deep_view()),
{
    let mut paths: Vec<String> = Vec::new();
    if text_has(name, '/') {
        paths.push(owned(name));
        assert(paths.deep_view() =~= seq![name@]);
        return paths;
    }
    let ghost view = dirs.deep_view();
    let mut i: usize = 0;
    while i < dirs.len()
        invariant
            i <= dirs.len(),
            view == dirs.deep_view(),
            paths.len() == i,
            forall|j: int| 0 <= j < i ==> (#[trigger] paths@[j])@ == paths::joined_path(view[j], name@),
        decreases dirs.len() - i,
    {
        assert(view[i as int] == dirs@[i as int]@);
        paths.push(join_path(&dirs[i], name));
        i += 1;
    }
    assert(paths.deep_view() =~= candidate_paths(name@, view));
    paths
}

pub open spec fn is_true() -> spec_fn(bool) -> bool {
    |b: bool| b
}

/// The first candidate that is an executable file, given which ones are.
pub fn resolve_tool(name: &str, executable: &Vec<bool>) -> (result: Result<usize>)
    ensures
        error::outcome(result) == match search::first(executable@, is_true()) {
            Some(i) => Ok::<usize, ErrorModel>(i as usize),
            None => Err::<usize, ErrorModel>(ErrorModel::NoSuchTool { tool: name@ }),
        },
{
    let mut i: usize = 0;
    while i < executable.len()
        invariant
            i <= executable.len(),
            forall|j: int| 0 <= j < i ==> !is_true()(#[trigger] executable@[j]),
        decreases executable.len() - i,
    {
        if executable[i] {
            proof {
                search::lemma_first_at(executable@, is_true(), i as int);
            }
            return Ok(i);
        }
        i += 1;
    }
    proof {
        search::lemma_first_none(executable@, is_true());
    }
    Err(ClixError::NoSuchTool { tool: owned(name) })
}

/// A file mode with some execute permission, on a regular file.
pub fn is_executable_file(regular: bool, mode: u32) -> (yes: bool)
    ensures
        yes == (regular && mode & 0o111 != 0),
{
    regular && mode & 0o111 != 0
}

/// This machine, or one that is paired with it.
pub open spec fn addressable(s: StoreModel, name: Seq<char>) -> bool {
    name == s.body_name || search::first(s.peers, wire::peer_named(name)) is Some
}

/// The first name in a list, from `i` on, that is no paired machine.
pub open spec fn stranger(s: StoreModel, names: Seq<Seq<char>>, i: int) -> Option<Seq<char>>
    decreases names.len() - i,
{
    if i >= names.len() {
        None
    } else if !addressable(s, names[i]) {
        Some(names[i])
    } else {
        stranger(s, names, i + 1)
    }
}

/// The grant an `add` or an approval would produce.
pub open spec fn built(
    s: StoreModel,
    tool: Seq<char>,
    allow: Seq<Seq<char>>,
    once: bool,
    until: Option<TimestampModel>,
    schedule: Option<ScheduleModel>,
    args: Option<Seq<Seq<Seq<char>>>>,
    binary: Outcome<Seq<char>>,
) -> Outcome<GrantModel> {
    if limits::tool_outcome(tool) is Err {
        Err(limits::tool_outcome(tool)->Err_0)
    } else if once && schedule is Some {
        Err(ErrorModel::Usage("use --once or a schedule, not both"@))
    } else {
        match binary {
            Err(e) => Err(e),
            Ok(path) => match stranger(s, allow, 0) {
                Some(name) => Err(ErrorModel::Usage(name + " is not a paired body"@)),
                None => Ok(
                    GrantModel {
                        tool: paths::last_name(tool),
                        binary: path,
                        allow_from: if allow.len() == 0 {
                            None
                        } else {
                            Some(allow)
                        },
                        once,
                        until,
                        schedule,
                        reservation: None,
                        args,
                    },
                ),
            },
        }
    }
}

fn find_stranger(store: &Store, names: &Vec<String>) -> (found: Option<usize>)
    ensures
        (match found {
            Some(i) => i < names.len() && stranger(store@, names.deep_view(), 0) == Some(
                names.deep_view()[i as int],
            ),
            None => stranger(store@, names.deep_view(), 0) is None,
        }),
{
    let ghost view = names.deep_view();
    let mut i: usize = 0;
    while i < names.len()
        invariant
            i <= names.len(),
            view == names.deep_view(),
            stranger(store@, view, 0) == stranger(store@, view, i as int),
        decreases names.len() - i,
    {
        assert(view[i as int] == names@[i as int]@);
        if !text_same(&names[i], &store.body_name) && find_peer(&store.peers, &names[i]).is_none() {
            return Some(i);
        }
        i += 1;
    }
    None
}

fn as_bodies(names: &Vec<String>) -> (bodies: Vec<BodyId>)
    ensures
        bodies.deep_view() == names.deep_view(),
{
    let ghost view = names.deep_view();
    let mut bodies: Vec<BodyId> = Vec::new();
    let mut i: usize = 0;
    while i < names.len()
        invariant
            i <= names.len(),
            view == names.deep_view(),
            bodies.len() == i,
            forall|j: int| 0 <= j < i ==> (#[trigger] bodies@[j])@ == view[j],
        decreases names.len() - i,
    {
        assert(view[i as int] == names@[i as int]@);
        bodies.push(BodyId(names[i].dup()));
        i += 1;
    }
    assert(bodies.deep_view() =~= view);
    bodies
}

/// Construct the grant an `add`/approval would produce, validating the tool and
/// allow-list, without touching `store`. Callers that must not silently replace
/// an existing grant compare this against the current one before committing.
/// `binary` is what the tool resolved to.
pub fn build(
    store: &Store,
    tool: &str,
    allow: &Vec<String>,
    once: bool,
    until: Option<Timestamp>,
    schedule: Option<Schedule>,
    args: Option<Vec<Vec<String>>>,
    binary: Result<String>,
) -> (result: Result<Grant>)
    ensures
        error::outcome(result) == built(
            store@,
            tool@,
            allow.deep_view(),
            once,
            until.deep_view(),
            schedule.deep_view(),
            args.deep_view(),
            error::outcome(binary),
        ),
{
    if let Err(e) = crate::limits::tool(tool) {
        return Err(e);
    }
    if once && schedule.is_some() {
        return Err(usage("use --once or a schedule, not both"));
    }
    let binary = match binary {
        Ok(path) => path,
        Err(e) => return Err(e),
    };
    if let Some(i) = find_stranger(store, allow) {
        assert(allow.deep_view()[i as int] == allow@[i as int]@);
        return Err(ClixError::Usage(cat2(&allow[i], " is not a paired body")));
    }
    let allow_from: Option<Vec<BodyId>> = if allow.len() == 0 {
        None
    } else {
        Some(as_bodies(allow))
    };
    Ok(
        Grant {
            tool: tool_key(tool),
            binary,
            allow_from,
            once,
            until,
            schedule,
            reservation: None,
            args,
        },
    )
}

pub open spec fn other_tool(tool: Seq<char>) -> spec_fn(GrantModel) -> bool {
    |g: GrantModel| g.tool != tool
}

pub open spec fn other_request(key: Seq<char>) -> spec_fn(RequestModel) -> bool {
    |r: RequestModel| paths::last_name(r.tool) != key
}

/// The store with a grant in its tool's only slot, and no older request for it.
pub open spec fn committed(s: StoreModel, grant: GrantModel) -> StoreModel {
    StoreModel {
        grants: search::kept(s.grants, other_tool(grant.tool)).push(grant),
        requests: search::kept(s.requests, other_request(grant.tool)),
        ..s
    }
}

fn keep_other_grants(grants: &Vec<Grant>, tool: &str) -> (rest: Vec<Grant>)
    ensures
        rest.deep_view() == search::kept(grants.deep_view(), other_tool(tool@)),
{
    let ghost view = grants.deep_view();
    let mut rest: Vec<Grant> = Vec::new();
    let mut i: usize = 0;
    assert(view.take(0) =~= Seq::<GrantModel>::empty());
    assert(rest.deep_view() =~= Seq::<GrantModel>::empty());
    while i < grants.len()
        invariant
            i <= grants.len(),
            view == grants.deep_view(),
            rest.deep_view() == search::kept(view.take(i as int), other_tool(tool@)),
        decreases grants.len() - i,
    {
        let ghost before = rest.deep_view();
        assert(view[i as int] == grants@[i as int]@);
        proof {
            search::lemma_kept_step(view, other_tool(tool@), i as int);
        }
        if !text_same(&grants[i].tool, tool) {
            rest.push(grants[i].dup());
            assert(rest.deep_view() =~= before.push(view[i as int]));
        }
        i += 1;
    }
    assert(view.take(i as int) =~= view);
    rest
}

/// A pending approval cannot supersede a later owner decision for this slot.
/// Delivery receipts remain, so delayed retries cannot revive its old ID.
fn invalidate_requests(store: &mut Store, key: &str)
    ensures
        final(store)@ == (StoreModel {
            requests: search::kept(old(store)@.requests, other_request(key@)),
            ..old(store)@
        }),
{
    let ghost view = store@.requests;
    let mut rest: Vec<crate::types::Request> = Vec::new();
    let mut i: usize = 0;
    assert(view.take(0) =~= Seq::<RequestModel>::empty());
    assert(rest.deep_view() =~= Seq::<RequestModel>::empty());
    while i < store.requests.len()
        invariant
            i <= store.requests.len(),
            view == store@.requests,
            rest.deep_view() == search::kept(view.take(i as int), other_request(key@)),
        decreases store.requests.len() - i,
    {
        let ghost before = rest.deep_view();
        assert(view[i as int] == store.requests@[i as int]@);
        proof {
            search::lemma_kept_step(view, other_request(key@), i as int);
        }
        if !text_same(&tool_key(&store.requests[i].tool), key) {
            rest.push(store.requests[i].dup());
            assert(rest.deep_view() =~= before.push(view[i as int]));
        }
        i += 1;
    }
    assert(view.take(i as int) =~= view);
    store.requests = rest;
}

/// Replace any grant for the same tool with this one and invalidate its pending
/// requests. This is the explicit owner path (`clix add`); the request-approval
/// path guards against replacing a *different* grant before calling it.
pub fn commit(store: &mut Store, grant: &Grant)
    ensures
        final(store)@ == committed(old(store)@, grant@),
{
    let mut grants = keep_other_grants(&store.grants, &grant.tool);
    let ghost rest = grants.deep_view();
    grants.push(grant.dup());
    assert(grants.deep_view() =~= rest.push(grant@));
    store.grants = grants;
    invalidate_requests(store, &grant.tool);
}

/// What `add` does: the new store and the grant, or a refusal that changes nothing.
pub open spec fn added(s: StoreModel, grant: Outcome<GrantModel>) -> StoreModel {
    match grant {
        Ok(g) => committed(s, g),
        Err(_) => s,
    }
}

/// Add a grant on this box. Empty `allow` means every body (`allow_from: None`).
/// `--server` is CLI-only; here it is just a name in `allow` / `allow_from`.
pub fn add(
    store: &mut Store,
    tool: &str,
    allow: &Vec<String>,
    once: bool,
    until: Option<Timestamp>,
    schedule: Option<Schedule>,
    binary: Result<String>,
) -> (result: Result<Grant>)
    ensures
        error::outcome(result) == built(
            old(store)@,
            tool@,
            allow.deep_view(),
            once,
            until.deep_view(),
            schedule.deep_view(),
            None,
            error::outcome(binary),
        ),
        final(store)@ == added(old(store)@, error::outcome(result)),
{
    add_with_args(store, tool, allow, once, until, schedule, None, binary)
}

/// Add a grant that permits only the given argument lists.
pub fn add_with_args(
    store: &mut Store,
    tool: &str,
    allow: &Vec<String>,
    once: bool,
    until: Option<Timestamp>,
    schedule: Option<Schedule>,
    args: Option<Vec<Vec<String>>>,
    binary: Result<String>,
) -> (result: Result<Grant>)
    ensures
        error::outcome(result) == built(
            old(store)@,
            tool@,
            allow.deep_view(),
            once,
            until.deep_view(),
            schedule.deep_view(),
            args.deep_view(),
            error::outcome(binary),
        ),
        final(store)@ == added(old(store)@, error::outcome(result)),
{
    match build(store, tool, allow, once, until, schedule, args, binary) {
        Ok(grant) => {
            commit(store, &grant);
            Ok(grant)
        },
        Err(e) => Err(e),
    }
}

/// The same permission, whatever run has reserved it.
pub open spec fn alike(a: GrantModel, b: GrantModel) -> bool {
    a == GrantModel { reservation: a.reservation, binary: a.binary, ..b } && paths::same_place(
        a.binary,
        b.binary,
    )
}

/// Two grants describe the same permission, ignoring a transient run reservation.
pub fn same_permission(a: &Grant, b: &Grant) -> (yes: bool)
    ensures
        yes == alike(a@, b@),
{
    a.tool.same(&b.tool) && is_same_place(&a.binary, &b.binary) && a.allow_from.same(&b.allow_from)
        && a.once == b.once && a.until.same(&b.until) && a.schedule.same(&b.schedule)
        && a.args.same(&b.args)
}

pub open spec fn grant_of_tool(tool: Seq<char>) -> spec_fn(GrantModel) -> bool {
    |g: GrantModel| g.tool == tool
}

pub fn find_grant(grants: &Vec<Grant>, tool: &str) -> (at: Option<usize>)
    ensures
        (match at {
            Some(i) => i < grants.len() && search::first(grants.deep_view(), grant_of_tool(tool@)) == Some(
                i as int,
            ),
            None => search::first(grants.deep_view(), grant_of_tool(tool@)) is None,
        }),
{
    let ghost view = grants.deep_view();
    let mut i: usize = 0;
    while i < grants.len()
        invariant
            i <= grants.len(),
            view == grants.deep_view(),
            forall|j: int| 0 <= j < i ==> !grant_of_tool(tool@)(#[trigger] view[j]),
        decreases grants.len() - i,
    {
        assert(view[i as int] == grants@[i as int]@);
        if text_same(&grants[i].tool, tool) {
            proof {
                search::lemma_first_at(view, grant_of_tool(tool@), i as int);
            }
            return Some(i);
        }
        i += 1;
    }
    proof {
        search::lemma_first_none(view, grant_of_tool(tool@));
    }
    None
}

/// What a removal names: a tool, or the executable at an absolute path.
pub open spec fn removal_match(tool: Seq<char>, path: Option<Seq<char>>) -> spec_fn(
    GrantModel,
) -> bool {
    |g: GrantModel|
        match path {
            Some(p) => paths::same_place(g.binary, p),
            None => g.tool == tool,
        }
}

/// The store without the grant that a removal names.
pub open spec fn grant_removed(s: StoreModel, tool: Seq<char>, path: Option<Seq<char>>) -> (
    StoreModel,
    Outcome<()>,
) {
    match search::first(s.grants, removal_match(tool, path)) {
        None => (s, Err(ErrorModel::NotAdded { tool, body: s.body_name })),
        Some(i) => (
            StoreModel {
                grants: s.grants.remove(i),
                requests: search::kept(s.requests, other_request(s.grants[i].tool)),
                ..s
            },
            Ok(()),
        ),
    }
}

/// Revoke a grant, by its tool's name or by the executable path that was stored.
/// `path` is the absolute path where `tool` was given as a path.
pub fn remove(store: &mut Store, tool: &str, path: Option<String>) -> (result: Result<()>)
    ensures
        (final(store)@, error::outcome(result)) == grant_removed(old(store)@, tool@, path.deep_view()),
{
    let ghost start = store@;
    let ghost test = removal_match(tool@, path.deep_view());
    let mut i: usize = 0;
    while i < store.grants.len()
        invariant
            i <= store.grants.len(),
            start == store@,
            start == old(store)@,
            test == removal_match(tool@, path.deep_view()),
            forall|j: int| 0 <= j < i ==> !test(#[trigger] start.grants[j]),
        decreases store.grants.len() - i,
    {
        assert(start.grants[i as int] == store.grants@[i as int]@);
        let hit: bool = match &path {
            Some(p) => is_same_place(&store.grants[i].binary, p),
            None => text_same(&store.grants[i].tool, tool),
        };
        if hit {
            proof {
                search::lemma_first_at(start.grants, test, i as int);
            }
            let gone = store.grants.remove(i);
            assert(store.grants.deep_view() =~= start.grants.remove(i as int));
            invalidate_requests(store, &gone.tool);
            return Ok(());
        }
        i += 1;
    }
    proof {
        search::lemma_first_none(start.grants, test);
    }
    Err(ClixError::NotAdded { tool: owned(tool), body: store.body_name.dup() })
}

/// Every grant on this machine.
pub fn hands(store: &Store) -> (grants: &Vec<Grant>)
    ensures
        grants.deep_view() == store@.grants,
{
    &store.grants
}

/// Names separated by a comma and a space.
pub open spec fn comma_names(names: Seq<Seq<char>>) -> Seq<char>
    decreases names.len(),
{
    if names.len() == 0 {
        ""@
    } else if names.len() == 1 {
        names[0]
    } else {
        comma_names(names.drop_last()) + ", "@ + names.last()
    }
}

pub open spec fn scope_words(allow_from: Option<Seq<Seq<char>>>) -> Seq<char> {
    match allow_from {
        None => "all machines"@,
        Some(bodies) => if bodies.len() == 0 {
            "no machines"@
        } else {
            comma_names(bodies)
        },
    }
}

/// One line for a grant; `when` is how its expiry reads on the local clock.
pub open spec fn described(grant: GrantModel, when: Seq<char>) -> Seq<char> {
    let line = grant.tool + "  → "@ + scope_words(grant.allow_from);
    let line = if grant.once {
        line + "  once"@
    } else {
        line
    };
    let line = match grant.until {
        Some(until) => line + "  until "@ + when + " ("@ + crate::text::decimal(
            if until.secs < 0 {
                0
            } else {
                until.secs as nat
            },
        ) + ")"@,
        None => line,
    };
    let line = if grant.schedule is Some {
        line + "  schedule"@
    } else {
        line
    };
    if grant.reservation is Some {
        line + "  [reserved for a running job]"@
    } else {
        line
    }
}

fn join_names(names: &Vec<BodyId>) -> (text: String)
    ensures
        text@ == comma_names(names.deep_view()),
{
    let ghost all = names.deep_view();
    let mut text = owned("");
    let mut i: usize = 0;
    proof {
        reveal_strlit("");
        assert(all.take(0) =~= Seq::<Seq<char>>::empty());
    }
    while i < names.len()
        invariant
            i <= names.len(),
            all == names.deep_view(),
            text@ == comma_names(all.take(i as int)),
        decreases names.len() - i,
    {
        if i > 0 {
            text.append(", ");
        }
        text.append(&names[i].0);
        proof {
            reveal_strlit("");
            assert(all.take(i + 1).drop_last() =~= all.take(i as int));
            assert(all[i as int] == names@[i as int]@);
            assert(text@ =~= comma_names(all.take(i + 1)));
        }
        i += 1;
    }
    assert(all.take(i as int) =~= all);
    text
}

/// `chrono::DateTime::from_timestamp`, in the local time zone, to the minute.
/// Every moment from the start of year -262143 to the end of year 262142 has
/// such a text; what it reads depends on the time zone.
#[verifier::external_body]
fn local_minute(secs: i64, nanos: u32) -> (text: Option<String>)
    ensures
        -8334601228800 <= secs <= 8210266876799 && nanos < 1000000000 ==> text is Some,
{
    match DateTime::<Utc>::from_timestamp(secs, nanos) {
        Some(t) => Some(t.with_timezone(&Local).format("%Y-%m-%d %H:%M").to_string()),
        None => None,
    }
}

/// A moment that the calendar covers.
pub open spec fn has_date(t: TimestampModel) -> bool {
    -8334601228800 <= t.secs <= 8210266876799 && t.nanos < 1000000000
}

/// Whether the calendar covers a moment.
pub fn dated(t: &Timestamp) -> (yes: bool)
    ensures
        yes == has_date(t@),
{
    -8334601228800 <= t.secs && t.secs <= 8210266876799 && t.nanos < 1000000000
}

/// One human-readable line for a grant: which machines it applies to, whether it
/// is single-use, its expiry on the local clock and any schedule.
pub fn describe(grant: &Grant) -> (line: String)
    requires
        grant@.until is Some ==> has_date(grant@.until->0),
    ensures
        exists|when: Seq<char>| line@ == described(grant@, when),
        grant@.until is None ==> line@ == described(grant@, ""@),
{
    let when = match &grant.until {
        Some(until) => match local_minute(until.secs, until.nanos) {
            Some(when) => when,
            None => owned(""),
        },
        None => owned(""),
    };
    let line = describe_with(grant, &when);
    assert(line@ == described(grant@, when@));
    line
}

/// The line for a grant whose expiry reads `when`.
pub fn describe_with(grant: &Grant, when: &str) -> (line: String)
    ensures
        line@ == described(grant@, when@),
{
    let scope = match &grant.allow_from {
        None => owned("all machines"),
        Some(bodies) => if bodies.len() == 0 {
            owned("no machines")
        } else {
            join_names(bodies)
        },
    };
    let mut line = cat3(&grant.tool, "  → ", &scope);
    if grant.once {
        line.append("  once");
    }
    if let Some(until) = &grant.until {
        let secs: u64 = if until.secs < 0 {
            0
        } else {
            until.secs as u64
        };
        line.append("  until ");
        line.append(when);
        line.append(" (");
        line.append(decimal_text(secs).as_str());
        line.append(")");
    }
    if grant.schedule.is_some() {
        line.append("  schedule");
    }
    if grant.reservation.is_some() {
        line.append("  [reserved for a running job]");
    }
    line
}

/// Whether a grant serves a machine at a moment; the first objection counts.
pub open spec fn check_grant(
    body_name: Seq<char>,
    grant: GrantModel,
    from: Seq<char>,
    now: LocalTimeModel,
) -> Outcome<GrantModel> {
    if grant.reservation is Some {
        Err(ErrorModel::GrantBusy { tool: grant.tool })
    } else if grant.allow_from is Some && !grant.allow_from->0.contains(from) {
        Err(ErrorModel::NotAllowed { tool: grant.tool, from, body: body_name })
    } else if grant.until is Some && schedule::earlier(grant.until->0, now.instant) {
        Err(ErrorModel::Expired { tool: grant.tool, body: body_name })
    } else if grant.schedule is Some && !grant.schedule->0.open_at(now) {
        Err(ErrorModel::NotAddedAtTime { tool: grant.tool, body: body_name })
    } else {
        Ok(grant)
    }
}

pub open spec fn check_outcome(
    s: StoreModel,
    tool: Seq<char>,
    from: Seq<char>,
    now: LocalTimeModel,
) -> Outcome<GrantModel> {
    match search::found(s.grants, grant_of_tool(tool)) {
        None => Err(ErrorModel::NotAdded { tool, body: s.body_name }),
        Some(grant) => check_grant(s.body_name, grant, from, now),
    }
}

fn names_body(bodies: &Vec<BodyId>, from: &BodyId) -> (yes: bool)
    ensures
        yes == bodies.deep_view().contains(from@),
{
    let ghost view = bodies.deep_view();
    let mut i: usize = 0;
    while i < bodies.len()
        invariant
            i <= bodies.len(),
            view == bodies.deep_view(),
            forall|j: int| 0 <= j < i ==> view[j] != from@,
        decreases bodies.len() - i,
    {
        assert(view[i as int] == bodies@[i as int]@);
        if bodies[i].same(from) {
            assert(view.contains(from@));
            return true;
        }
        i += 1;
    }
    false
}

/// Same as `check`, with an injectable local clock for schedules and `until`.
pub fn check_at(store: &Store, tool: &str, from: &BodyId, now: &LocalTime) -> (result: Result<Grant>)
    ensures
        error::outcome(result) == check_outcome(store@, tool@, from@, now@),
{
    let at: usize = match find_grant(&store.grants, tool) {
        Some(at) => at,
        None => return Err(
            ClixError::NotAdded { tool: owned(tool), body: store.body_name.dup() },
        ),
    };
    assert(store@.grants[at as int] == store.grants@[at as int]@);
    let grant = store.grants[at].dup();
    if grant.reservation.is_some() {
        return Err(ClixError::GrantBusy { tool: grant.tool });
    }
    if let Some(allowed) = &grant.allow_from {
        if !names_body(allowed, from) {
            return Err(
                ClixError::NotAllowed {
                    tool: grant.tool.dup(),
                    from: from.0.dup(),
                    body: store.body_name.dup(),
                },
            );
        }
    }
    if let Some(until) = &grant.until {
        if is_earlier(until, &now.instant) {
            return Err(
                ClixError::Expired { tool: grant.tool.dup(), body: store.body_name.dup() },
            );
        }
    }
    if let Some(schedule) = &grant.schedule {
        if !schedule.allows_at(now) {
            return Err(
                ClixError::NotAddedAtTime { tool: grant.tool.dup(), body: store.body_name.dup() },
            );
        }
    }
    Ok(grant)
}

/// The grant that serves a machine right now. Whatever the clock shows, a tool
/// without a grant is refused, and a grant comes back only as it stands.
pub fn check(store: &Store, tool: &str, from: &BodyId) -> (result: Result<Grant>)
    ensures
        exists|clock: Clock|
            schedule::consistent(clock) && error::outcome(result) == check_outcome(
                store@,
                tool@,
                from@,
                #[trigger] schedule::shown(clock),
            ),
{
    let now = local_now();
    check_at(store, tool, from, &now)
}

/// Whether a grant permits exactly these arguments.
pub open spec fn permits_args(grant: GrantModel, argv: Seq<Seq<char>>) -> bool {
    grant.args is None || grant.args->0.contains(argv.skip(1))
}

pub open spec fn args_refusal(tool: Seq<char>, body: Seq<char>) -> ErrorModel {
    ErrorModel::Usage(tool + " is not granted with these arguments on "@ + body)
}

/// A grant for the tool, the machine, the moment and the exact arguments.
pub open spec fn check_args_outcome(
    s: StoreModel,
    argv: Seq<Seq<char>>,
    from: Seq<char>,
    now: LocalTimeModel,
) -> Outcome<GrantModel> {
    match check_outcome(s, argv[0], from, now) {
        Err(e) => Err(e),
        Ok(grant) => if permits_args(grant, argv) {
            Ok(grant)
        } else {
            Err(args_refusal(grant.tool, s.body_name))
        },
    }
}

fn follows(argv: &Vec<String>, list: &Vec<String>) -> (yes: bool)
    requires
        argv.len() > 0,
    ensures
        yes == (argv.deep_view().skip(1) == list.deep_view()),
{
    let ghost a = argv.deep_view().skip(1);
    let ghost b = list.deep_view();
    if argv.len() - 1 != list.len() {
        assert(a.len() != b.len());
        return false;
    }
    let mut i: usize = 0;
    while i < list.len()
        invariant
            i <= list.len(),
            argv.len() == list.len() + 1,
            a == argv.deep_view().skip(1),
            b == list.deep_view(),
            forall|j: int| 0 <= j < i ==> a[j] == b[j],
        decreases list.len() - i,
    {
        assert(a[i as int] == argv@[i + 1]@);
        assert(b[i as int] == list@[i as int]@);
        if !argv[i + 1].same(&list[i]) {
            return false;
        }
        i += 1;
    }
    assert(a =~= b);
    true
}

fn allows_args(grant: &Grant, argv: &Vec<String>) -> (yes: bool)
    requires
        argv.len() > 0,
    ensures
        yes == permits_args(grant@, argv.deep_view()),
{
    let lists = match &grant.args {
        Some(lists) => lists,
        None => return true,
    };
    let ghost view = lists.deep_view();
    assert(grant@.args == Some(view));
    let ghost wanted = argv.deep_view().skip(1);
    let mut i: usize = 0;
    while i < lists.len()
        invariant
            i <= lists.len(),
            argv.len() > 0,
            view == lists.deep_view(),
            grant@.args == Some(view),
            wanted == argv.deep_view().skip(1),
            forall|j: int| 0 <= j < i ==> view[j] != wanted,
        decreases lists.len() - i,
    {
        assert(view[i as int] == lists@[i as int].deep_view());
        if follows(argv, &lists[i]) {
            assert(view[i as int] == wanted);
            assert(view.contains(wanted));
            assert(grant@.args == Some(view));
            return true;
        }
        i += 1;
    }
    false
}

/// The grant under which a command may run, tool and arguments both.
pub fn check_args(store: &Store, argv: &Vec<String>, from: &BodyId, now: &LocalTime) -> (result:
    Result<Grant>)
    requires
        argv.len() > 0,
    ensures
        error::outcome(result) == check_args_outcome(store@, argv.deep_view(), from@, now@),
{
    assert(argv.deep_view()[0] == argv@[0]@);
    match check_at(store, &argv[0], from, now) {
        Ok(grant) => if allows_args(&grant, argv) {
            Ok(grant)
        } else {
            Err(
                ClixError::Usage(
                    cat3(&grant.tool, " is not granted with these arguments on ", &store.body_name),
                ),
            )
        },
        Err(e) => Err(e),
    }
}

} // verus!
