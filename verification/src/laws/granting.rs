//! Permission as the owner gives it and as a machine meets it: the terms of a grant
//! are those that were asked for, and they alone decide whom it serves and when.

use vstd::prelude::*;

use crate::error::{ErrorModel, Outcome};
use crate::grant;
use crate::history::wire;
use crate::limits;
use crate::paths;
use crate::request;
use crate::request::{DecisionModel, ScopeModel};
use crate::search;
use crate::store::StoreModel;
use crate::types::{
    GrantModel, LocalTimeModel, RequestModel, RequestReceiptModel, ScheduleModel, TimeOfDayModel,
    TimestampModel,
};

verus! {

/// The first grant for a tool, as it stands, serves every machine that it names, or
/// all where it names none, until it ends, while its schedule is open and no run has
/// it. Each of the four conditions that fails first has its own refusal.
pub proof fn law_grant_serves_whom_it_names(
    s: StoreModel,
    from: Seq<char>,
    now: LocalTimeModel,
    at: int,
)
    requires
        0 <= at < s.grants.len(),
        forall|j: int| 0 <= j < at ==> (#[trigger] s.grants[j]).tool != s.grants[at].tool,
    ensures
        ({
            let grant = s.grants[at];
            let tool = grant.tool;
            let result: Outcome<GrantModel> = grant::check_outcome(s, tool, from, now);
            let unused = grant.reservation is None;
            let named = grant.allow_from matches Some(names) ==> exists|i: int|
                0 <= i < names.len() && #[trigger] names[i] == from;
            let lasts = grant.until matches Some(until) ==> now.instant.secs < until.secs || (
            now.instant.secs == until.secs && now.instant.nanos <= until.nanos);
            let open = grant.schedule matches Some(schedule) ==> schedule.open_at(now);
            &&& unused && named && lasts && open ==> result == Ok::<GrantModel, ErrorModel>(grant)
            &&& !unused ==> result == Err::<GrantModel, ErrorModel>(ErrorModel::GrantBusy { tool })
            &&& unused && !named ==> result == Err::<GrantModel, ErrorModel>(
                ErrorModel::NotAllowed { tool, from, body: s.body_name },
            )
            &&& unused && named && !lasts ==> result == Err::<GrantModel, ErrorModel>(
                ErrorModel::Expired { tool, body: s.body_name },
            )
            &&& unused && named && lasts && !open ==> result == Err::<GrantModel, ErrorModel>(
                ErrorModel::NotAddedAtTime { tool, body: s.body_name },
            )
        }),
{
    search::lemma_first_at(s.grants, grant::grant_of_tool(s.grants[at].tool), at);
}

/// A tool without a grant is not added here, whoever asks and whenever.
pub proof fn law_no_grant_no_service(
    s: StoreModel,
    tool: Seq<char>,
    from: Seq<char>,
    now: LocalTimeModel,
)
    requires
        forall|j: int| 0 <= j < s.grants.len() ==> (#[trigger] s.grants[j]).tool != tool,
    ensures
        grant::check_outcome(s, tool, from, now) == Err::<GrantModel, ErrorModel>(
            ErrorModel::NotAdded { tool, body: s.body_name },
        ),
{
    search::lemma_first_none(s.grants, grant::grant_of_tool(tool));
}

/// A grant with argument lists permits exactly those lists, word for word; one
/// without permits any arguments.
pub proof fn law_arguments_are_exact(
    s: StoreModel,
    argv: Seq<Seq<char>>,
    from: Seq<char>,
    now: LocalTimeModel,
)
    requires
        argv.len() > 0,
        grant::check_outcome(s, argv[0], from, now) is Ok,
    ensures
        ({
            let grant = grant::check_outcome(s, argv[0], from, now)->Ok_0;
            let permitted = grant.args matches Some(lists) ==> exists|i: int|
                0 <= i < lists.len() && (#[trigger] lists[i]).len() == argv.len() - 1 && forall|j: int|
                    0 <= j < argv.len() - 1 ==> #[trigger] lists[i][j] == argv[j + 1];
            &&& permitted ==> grant::check_args_outcome(s, argv, from, now) == Ok::<
                GrantModel,
                ErrorModel,
            >(grant)
            &&& !permitted ==> grant::check_args_outcome(s, argv, from, now) == Err::<
                GrantModel,
                ErrorModel,
            >(
                ErrorModel::Usage(
                    grant.tool + " is not granted with these arguments on "@ + s.body_name,
                ),
            )
        }),
{
    let grant = grant::check_outcome(s, argv[0], from, now)->Ok_0;
    if let Some(lists) = grant.args {
        assert forall|i: int|
            0 <= i < lists.len() && (#[trigger] lists[i]).len() == argv.len() - 1 && (forall|j: int|
                0 <= j < argv.len() - 1 ==> #[trigger] lists[i][j] == argv[j + 1]) implies lists[i]
            == argv.skip(1) by {
            assert(lists[i] =~= argv.skip(1));
        }
        if lists.contains(argv.skip(1)) {
            let i = choose|i: int| 0 <= i < lists.len() && lists[i] == argv.skip(1);
            assert(lists[i].len() == argv.len() - 1);
        }
    }
}

/// A schedule without days and dates is open on every day; else a named weekday or
/// a named day of the month is enough. Its clock is open from the one time to the
/// other, both ends with it, past midnight where the first is the later one.
pub proof fn law_schedule_window(schedule: ScheduleModel, now: LocalTimeModel)
    ensures
        ({
            let le = |a: TimeOfDayModel, b: TimeOfDayModel|
                a.seconds < b.seconds || (a.seconds == b.seconds && a.nanos <= b.nanos);
            let day = (schedule.days.len() == 0 && schedule.dates.len() == 0) || (exists|i: int|
                0 <= i < schedule.days.len() && #[trigger] schedule.days[i] == now.weekday) || (
            exists|i: int| 0 <= i < schedule.dates.len() && #[trigger] schedule.dates[i] == now.day);
            let started = schedule.from matches Some(from) ==> le(from, now.time);
            let ended = schedule.to matches Some(to) && !le(now.time, to);
            let overnight = schedule.from is Some && schedule.to is Some && !le(
                schedule.from->0,
                schedule.to->0,
            );
            schedule.open_at(now) <==> day && if overnight {
                started || !ended
            } else {
                started && !ended
            }
        }),
{
}

/// The terms of a new grant are the ones that were asked for: the program that the
/// tool resolved to, the named machines or all of them, single use, end, schedule
/// and argument lists. No run has it yet.
pub proof fn law_grant_has_its_terms(
    s: StoreModel,
    tool: Seq<char>,
    allow: Seq<Seq<char>>,
    once: bool,
    until: Option<TimestampModel>,
    schedule: Option<ScheduleModel>,
    args: Option<Seq<Seq<Seq<char>>>>,
    binary: Outcome<Seq<char>>,
)
    ensures
        ({
            let result: Outcome<GrantModel> = grant::built(
                s,
                tool,
                allow,
                once,
                until,
                schedule,
                args,
                binary,
            );
            let known = forall|i: int|
                0 <= i < allow.len() ==> (#[trigger] allow[i] == s.body_name || exists|p: int|
                    0 <= p < s.peers.len() && (#[trigger] s.peers[p]).name == allow[i]);
            &&& limits::tool_outcome(tool) is Ok && !(once && schedule is Some) && binary is Ok
                && known <==> result is Ok
            &&& result matches Ok(g) ==> {
                &&& g.tool == paths::last_name(tool)
                &&& g.binary == binary->Ok_0
                &&& allow.len() == 0 ==> g.allow_from is None
                &&& allow.len() > 0 ==> g.allow_from == Some(allow)
                &&& g.once == once
                &&& g.until == until
                &&& g.schedule == schedule
                &&& g.args == args
                &&& g.reservation is None
            }
            &&& limits::tool_outcome(tool) is Ok && !(once && schedule is Some) && binary is Err
                ==> result == Err::<GrantModel, ErrorModel>(binary->Err_0)
        }),
{
    lemma_stranger(s, allow, 0);
}

/// Nobody in a list is a stranger exactly where each name is this machine or a peer.
proof fn lemma_stranger(s: StoreModel, names: Seq<Seq<char>>, i: int)
    requires
        0 <= i <= names.len(),
    ensures
        grant::stranger(s, names, i) is None <==> forall|k: int|
            i <= k < names.len() ==> (#[trigger] names[k] == s.body_name || exists|p: int|
                0 <= p < s.peers.len() && (#[trigger] s.peers[p]).name == names[k]),
    decreases names.len() - i,
{
    if i < names.len() {
        search::lemma_first(s.peers, wire::peer_named(names[i]));
        lemma_stranger(s, names, i + 1);
        let met = names[i] == s.body_name || exists|p: int|
            0 <= p < s.peers.len() && (#[trigger] s.peers[p]).name == names[i];
        let found = search::first(s.peers, wire::peer_named(names[i]));
        if found is Some {
            assert(s.peers[found->0].name == names[i]);
        } else {
            assert forall|p: int| 0 <= p < s.peers.len() implies (#[trigger] s.peers[p]).name
                != names[i] by {
                assert(!wire::peer_named(names[i])(s.peers[p]));
            }
        }
        assert(grant::addressable(s, names[i]) <==> met);
    }
}

/// Giving a grant makes it the only one for its tool, leaves the grants of every
/// other tool, and takes with it the pending requests for that tool and no others.
pub proof fn law_given_grant_stands_alone(s: StoreModel, g: GrantModel)
    ensures
        ({
            let next = grant::added(s, Ok::<GrantModel, ErrorModel>(g));
            &&& next.grants.contains(g)
            &&& forall|i: int|
                0 <= i < next.grants.len() && (#[trigger] next.grants[i]).tool == g.tool
                    ==> next.grants[i] == g
            &&& forall|i: int|
                0 <= i < s.grants.len() && (#[trigger] s.grants[i]).tool != g.tool
                    ==> next.grants.contains(s.grants[i])
            &&& forall|i: int|
                0 <= i < next.grants.len() && (#[trigger] next.grants[i]).tool != g.tool
                    ==> s.grants.contains(next.grants[i])
            &&& forall|i: int|
                0 <= i < s.requests.len() ==> (next.requests.contains(#[trigger] s.requests[i])
                    <==> paths::last_name(s.requests[i].tool) != g.tool)
            &&& forall|i: int|
                0 <= i < next.requests.len() ==> s.requests.contains(#[trigger] next.requests[i])
            &&& next == (StoreModel { grants: next.grants, requests: next.requests, ..s })
        }),
        forall|e: ErrorModel| #[trigger] grant::added(s, Err::<GrantModel, ErrorModel>(e)) == s,
{
    let next = grant::committed(s, g);
    let rest = search::kept(s.grants, grant::other_tool(g.tool));
    search::lemma_kept(s.grants, grant::other_tool(g.tool));
    search::lemma_kept(s.requests, grant::other_request(g.tool));
    assert(next.grants[rest.len() as int] == g);
    assert forall|i: int| 0 <= i < next.grants.len() && (#[trigger] next.grants[i]).tool == g.tool
        implies next.grants[i] == g by {
        if i < rest.len() {
            assert(grant::other_tool(g.tool)(rest[i]));
        }
    }
    assert forall|i: int| 0 <= i < s.grants.len() && (#[trigger] s.grants[i]).tool != g.tool
        implies next.grants.contains(s.grants[i]) by {
        assert(grant::other_tool(g.tool)(s.grants[i]));
        let j = choose|j: int| 0 <= j < rest.len() && rest[j] == s.grants[i];
        assert(next.grants[j] == s.grants[i]);
    }
    assert forall|i: int| 0 <= i < next.grants.len() && (#[trigger] next.grants[i]).tool != g.tool
        implies s.grants.contains(next.grants[i]) by {
        assert(next.grants[i] == rest[i]);
    }
    let rows = next.requests;
    assert forall|i: int| 0 <= i < s.requests.len() implies (next.requests.contains(
        #[trigger] s.requests[i],
    ) <==> paths::last_name(s.requests[i].tool) != g.tool) by {
        if rows.contains(s.requests[i]) {
            let j = choose|j: int| 0 <= j < rows.len() && rows[j] == s.requests[i];
            assert(grant::other_request(g.tool)(rows[j]));
        }
        if paths::last_name(s.requests[i].tool) != g.tool {
            assert(grant::other_request(g.tool)(s.requests[i]));
        }
    }
}

/// An approval gives the terms that the owner stated, to the machines that the owner
/// named or else to the one that asked, for the program that the tool resolves to.
/// The grant that comes back is the only one for its tool in the store afterwards.
pub proof fn law_approval_gives_its_terms(
    s: StoreModel,
    id: Seq<char>,
    scope: ScopeModel,
    once: bool,
    until: Option<TimestampModel>,
    schedule: Option<ScheduleModel>,
    binary: Outcome<Seq<char>>,
    at: int,
)
    requires
        0 <= at < s.requests.len(),
        s.requests[at].id == id,
        forall|j: int| 0 <= j < at ==> (#[trigger] s.requests[j]).id != id,
    ensures
        ({
            let decision = DecisionModel::Allow { scope, once, until, schedule };
            let (next, result) = request::decided(s, id, decision, binary);
            &&& !(result matches Ok(None))
            &&& result matches Ok(Some(g)) ==> {
                &&& g.tool == paths::last_name(s.requests[at].tool)
                &&& g.until == until
                &&& g.once == once
                &&& g.schedule == schedule
                &&& binary == Ok::<Seq<char>, ErrorModel>(g.binary)
                &&& scope is Requester ==> g.allow_from == Some(seq![s.requests[at].from])
                &&& scope matches ScopeModel::Bodies(names) ==> g.allow_from == Some(names)
                    && names.len() > 0
                &&& g.args is None
                &&& g.reservation is None
                &&& next.grants.contains(g)
                &&& forall|i: int|
                    0 <= i < next.grants.len() && (#[trigger] next.grants[i]).tool == g.tool
                        ==> next.grants[i] == g
                &&& forall|i: int|
                    0 <= i < s.grants.len() && (#[trigger] s.grants[i]).tool != g.tool
                        ==> next.grants.contains(s.grants[i])
                &&& forall|i: int|
                    0 <= i < next.requests.len() ==> paths::last_name(
                        (#[trigger] next.requests[i]).tool,
                    ) != g.tool
            }
            &&& result is Err ==> next == s
        }),
{
    search::lemma_first_at(s.requests, request::request_with_id(id), at);
    let decision = DecisionModel::Allow { scope, once, until, schedule };
    if let Ok(Some(g)) = request::decided(s, id, decision, binary).1 {
        law_given_grant_stands_alone(s, g);
        crate::laws::grants::law_commit(s, g);
    }
}

/// When an approval succeeds: the request is pending, its tool resolves, the machines
/// are named and known, single use and schedule are not both asked for, and the tool
/// has no grant yet.
pub proof fn law_approval_succeeds(
    s: StoreModel,
    id: Seq<char>,
    scope: ScopeModel,
    once: bool,
    until: Option<TimestampModel>,
    schedule: Option<ScheduleModel>,
    path: Seq<char>,
    at: int,
)
    requires
        id.len() > 0,
        0 <= at < s.requests.len(),
        s.requests[at].id == id,
        forall|j: int| 0 <= j < at ==> (#[trigger] s.requests[j]).id != id,
        limits::tool_outcome(s.requests[at].tool) is Ok,
        !(once && schedule is Some),
        scope is Requester ==> s.requests[at].from == s.body_name || exists|p: int|
            0 <= p < s.peers.len() && (#[trigger] s.peers[p]).name == s.requests[at].from,
        scope matches ScopeModel::Bodies(names) ==> names.len() > 0 && forall|i: int|
            0 <= i < names.len() ==> (#[trigger] names[i] == s.body_name || exists|p: int|
                0 <= p < s.peers.len() && (#[trigger] s.peers[p]).name == names[i]),
        forall|i: int|
            0 <= i < s.grants.len() ==> (#[trigger] s.grants[i]).tool != paths::last_name(
                s.requests[at].tool,
            ),
    ensures
        request::decided(
            s,
            id,
            DecisionModel::Allow { scope, once, until, schedule },
            Ok::<Seq<char>, ErrorModel>(path),
        ).1 matches Ok(Some(_)),
{
    search::lemma_first_at(s.requests, request::request_with_id(id), at);
    let row = s.requests[at];
    let names = match scope {
        ScopeModel::Requester => seq![row.from],
        ScopeModel::Bodies(names) => names,
    };
    law_grant_has_its_terms(
        s,
        row.tool,
        names,
        once,
        until,
        schedule,
        None,
        Ok::<Seq<char>, ErrorModel>(path),
    );
    search::lemma_first_none(s.grants, grant::grant_of_tool(paths::last_name(row.tool)));
}

/// A denial takes away the one request with that ID and gives nothing. Where no
/// request has the ID, no decision does anything.
pub proof fn law_denial_gives_nothing(
    s: StoreModel,
    id: Seq<char>,
    decision: DecisionModel,
    binary: Outcome<Seq<char>>,
    at: int,
)
    ensures
        id.len() > 0 && 0 <= at < s.requests.len() && s.requests[at].id == id && (forall|j: int|
            0 <= j < at ==> (#[trigger] s.requests[j]).id != id) ==> request::decided(
            s,
            id,
            DecisionModel::Deny,
            binary,
        ) == (
            StoreModel { requests: s.requests.remove(at), ..s },
            Ok::<Option<GrantModel>, ErrorModel>(None),
        ),
        id.len() == 0 || (forall|j: int|
            0 <= j < s.requests.len() ==> (#[trigger] s.requests[j]).id != id) ==> request::decided(
            s,
            id,
            decision,
            binary,
        ) == (
            s,
            Err::<Option<GrantModel>, ErrorModel>(
                ErrorModel::Usage("request is no longer pending; run clix pending"@),
            ),
        ),
{
    let test = request::request_with_id(id);
    search::lemma_first(s.requests, test);
    if 0 <= at < s.requests.len() && s.requests[at].id == id && (forall|j: int|
        0 <= j < at ==> (#[trigger] s.requests[j]).id != id) {
        search::lemma_first_at(s.requests, test, at);
    }
}

/// The actions of a notification: once or by default for one run, allow for good,
/// each for the machine that asked alone; deny denies; nothing else decides.
pub proof fn law_actions(action: Seq<char>)
    ensures
        ({
            let result: Outcome<DecisionModel> = request::action_decision(action);
            let allowed = |once: bool|
                Ok::<DecisionModel, ErrorModel>(
                    DecisionModel::Allow {
                        scope: ScopeModel::Requester,
                        once,
                        until: None,
                        schedule: None,
                    },
                );
            &&& action == "default"@ ==> result == allowed(true)
            &&& action == "once"@ ==> result == allowed(true)
            &&& action == "allow"@ ==> result == allowed(false)
            &&& action == "deny"@ ==> result == Ok::<DecisionModel, ErrorModel>(DecisionModel::Deny)
            &&& action != "default"@ && action != "once"@ && action != "allow"@ && action != "deny"@
                ==> result is Err
        }),
{
    reveal_strlit("default");
    reveal_strlit("once");
    reveal_strlit("allow");
    reveal_strlit("deny");
    assert("default"@.len() == 7 && "allow"@.len() == 5 && "once"@.len() == 4 && "deny"@.len()
        == 4);
    assert("deny"@[0] == 'd' && "once"@[0] == 'o');
}

/// Taking a grant away by its tool's name, or by its program's path, removes the
/// first that matches and no other, and with it the pending requests for that tool.
pub proof fn law_removal_takes_one(s: StoreModel, tool: Seq<char>, path: Option<Seq<char>>, at: int)
    requires
        0 <= at < s.grants.len(),
        path is None ==> s.grants[at].tool == tool && forall|j: int|
            0 <= j < at ==> (#[trigger] s.grants[j]).tool != tool,
        path matches Some(p) ==> paths::same_place(s.grants[at].binary, p) && forall|j: int|
            0 <= j < at ==> !paths::same_place((#[trigger] s.grants[j]).binary, p),
    ensures
        ({
            let (next, result) = grant::grant_removed(s, tool, path);
            &&& result is Ok
            &&& next.grants == s.grants.remove(at)
            &&& forall|i: int|
                0 <= i < s.requests.len() ==> (next.requests.contains(#[trigger] s.requests[i])
                    <==> paths::last_name(s.requests[i].tool) != s.grants[at].tool)
            &&& forall|i: int|
                0 <= i < next.requests.len() ==> s.requests.contains(#[trigger] next.requests[i])
            &&& next == (StoreModel { grants: next.grants, requests: next.requests, ..s })
        }),
{
    search::lemma_first_at(s.grants, grant::removal_match(tool, path), at);
    let gone = s.grants[at].tool;
    let rows = search::kept(s.requests, grant::other_request(gone));
    search::lemma_kept(s.requests, grant::other_request(gone));
    assert forall|i: int| 0 <= i < s.requests.len() implies (rows.contains(#[trigger] s.requests[i])
        <==> paths::last_name(s.requests[i].tool) != gone) by {
        if rows.contains(s.requests[i]) {
            let j = choose|j: int| 0 <= j < rows.len() && rows[j] == s.requests[i];
            assert(grant::other_request(gone)(rows[j]));
        }
        if paths::last_name(s.requests[i].tool) != gone {
            assert(grant::other_request(gone)(s.requests[i]));
        }
    }
}

/// Removing what is not there is refused and changes nothing.
pub proof fn law_removal_of_nothing(s: StoreModel, tool: Seq<char>, path: Option<Seq<char>>)
    requires
        path is None ==> forall|j: int|
            0 <= j < s.grants.len() ==> (#[trigger] s.grants[j]).tool != tool,
        path matches Some(p) ==> forall|j: int|
            0 <= j < s.grants.len() ==> !paths::same_place((#[trigger] s.grants[j]).binary, p),
    ensures
        grant::grant_removed(s, tool, path) == (
            s,
            Err::<(), ErrorModel>(ErrorModel::NotAdded { tool, body: s.body_name }),
        ),
{
    search::lemma_first_none(s.grants, grant::removal_match(tool, path));
}

/// Asking leaves exactly one more row for a machine and tool that have none, and
/// else refreshes the row that they have under the ID it had. All other rows stay.
pub proof fn law_asking_leaves_a_row(
    s: StoreModel,
    from: Seq<char>,
    tool: Seq<char>,
    fresh_id: Seq<char>,
)
    requires
        limits::tool_outcome(tool) is Ok,
    ensures
        ({
            let (next, result) = request::upserted(s, from, tool, fresh_id);
            let known = exists|i: int|
                0 <= i < s.requests.len() && (#[trigger] s.requests[i]).from == from
                    && s.requests[i].tool == tool;
            &&& result is Ok
            &&& result->Ok_0.from == from && result->Ok_0.tool == tool && result->Ok_0.once_suggested
            &&& next.requests.contains(result->Ok_0)
            &&& !known ==> result->Ok_0.id == fresh_id && next.requests == s.requests.push(
                result->Ok_0,
            )
            &&& known ==> {
                &&& next.requests.len() == s.requests.len()
                &&& forall|i: int|
                    0 <= i < s.requests.len() ==> (#[trigger] next.requests[i]).id
                        == s.requests[i].id && next.requests[i].from == s.requests[i].from
                        && next.requests[i].tool == s.requests[i].tool
                &&& forall|i: int|
                    0 <= i < s.requests.len() && !(s.requests[i].from == from
                        && s.requests[i].tool == tool) ==> #[trigger] next.requests[i]
                        == s.requests[i]
                &&& exists|i: int|
                    0 <= i < s.requests.len() && (#[trigger] s.requests[i]).from == from
                        && s.requests[i].tool == tool && s.requests[i].id == result->Ok_0.id
            }
            &&& next == (StoreModel { requests: next.requests, ..s })
        }),
{
    let n = s.requests.len() as int;
    lemma_last_row_is_last(s.requests, from, tool, n);
    let (next, result) = request::upserted(s, from, tool, fresh_id);
    match request::last_row(s.requests, from, tool, n) {
        Some(at) => {
            assert(next.requests[at] == result->Ok_0);
            assert(s.requests[at].from == from && s.requests[at].tool == tool);
        },
        None => {
            assert(next.requests[n] == result->Ok_0);
        },
    }
}

proof fn lemma_last_row_is_last(rows: Seq<RequestModel>, from: Seq<char>, tool: Seq<char>, n: int)
    requires
        0 <= n <= rows.len(),
    ensures
        match request::last_row(rows, from, tool, n) {
            Some(at) => 0 <= at < n && rows[at].from == from && rows[at].tool == tool,
            None => forall|i: int|
                0 <= i < n ==> !((#[trigger] rows[i]).from == from && rows[i].tool == tool),
        },
    decreases n,
{
    if n > 0 {
        lemma_last_row_is_last(rows, from, tool, n - 1);
    }
}

/// A delivery with a new ID is recorded as asking is, and leaves its receipt. One
/// whose ID that machine has used for another tool is refused.
pub proof fn law_delivery_leaves_a_receipt(
    s: StoreModel,
    from: Seq<char>,
    tool: Seq<char>,
    id: Seq<char>,
    fresh_id: Seq<char>,
)
    requires
        limits::tool_outcome(tool) is Ok,
        limits::identifier_outcome(id) is Ok,
    ensures
        ({
            let (next, result) = request::received(s, from, tool, Some(id), fresh_id);
            let asked = request::received(s, from, tool, None, fresh_id);
            let seen = |r: RequestReceiptModel| r.delivery_id == id && r.request.from == from;
            &&& (forall|i: int|
                0 <= i < s.request_receipts.len() ==> !seen(#[trigger] s.request_receipts[i]))
                ==> {
                &&& result == asked.1
                &&& result is Ok
                &&& next.requests == asked.0.requests
                &&& next.request_receipts == s.request_receipts.push(
                    RequestReceiptModel { delivery_id: id, request: result->Ok_0 },
                )
            }
            &&& (forall|i: int|
                0 <= i < s.request_receipts.len() && seen(#[trigger] s.request_receipts[i])
                    ==> s.request_receipts[i].request.tool != tool) && (exists|i: int|
                0 <= i < s.request_receipts.len() && seen(#[trigger] s.request_receipts[i])) ==> (
            next,
            result,
            ) == (
                s,
                Err::<RequestModel, ErrorModel>(
                    ErrorModel::Protocol("request ID belongs to a different tool"@),
                ),
            )
            &&& asked == request::upserted(s, from, tool, fresh_id)
        }),
{
    search::lemma_first(s.request_receipts, request::receipt_of(id, from));
}

/// Two grants are one permission where they name the same tool at the same place, the
/// same machines, the same arguments and the same time. Whether a run has one of them in
/// use makes no difference.
pub proof fn law_one_permission(a: GrantModel, b: GrantModel)
    ensures
        grant::alike(a, b) <==> a.tool == b.tool && paths::same_place(a.binary, b.binary)
            && a.allow_from == b.allow_from && a.once == b.once && a.until == b.until && a.schedule
            == b.schedule && a.args == b.args,
        grant::alike(a, a),
        a.binary == b.binary && b == (GrantModel { reservation: b.reservation, ..a })
            ==> grant::alike(a, b),
{
}

} // verus!
