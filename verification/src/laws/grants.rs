//! Grants and the requests that lead to them: one grant for a tool, decisions by
//! exact ID, and no decision that an older one overturns.

use vstd::prelude::*;

use crate::error::{ErrorModel, Outcome};
use crate::exec;
use crate::exec::RunOutcomeModel;
use crate::grant;
use crate::history::CertificateModel;
use crate::job;
use crate::paths;
use crate::request;
use crate::request::{DecisionModel, ScopeModel};
use crate::search;
use crate::store::StoreModel;
use crate::types::{GrantModel, JobModel, LocalTimeModel, RequestModel};

verus! {

/// No tool has two grants.
pub open spec fn one_per_tool(grants: Seq<GrantModel>) -> bool {
    forall|i: int, j: int|
        0 <= i < j < grants.len() ==> (#[trigger] grants[i]).tool != (#[trigger] grants[j]).tool
}

/// Whatever is kept of distinct tools is distinct.
proof fn lemma_kept_distinct(grants: Seq<GrantModel>, test: spec_fn(GrantModel) -> bool)
    requires
        one_per_tool(grants),
    ensures
        one_per_tool(search::kept(grants, test)),
    decreases grants.len(),
{
    if grants.len() > 0 {
        let head = grants.drop_last();
        assert forall|i: int, j: int| 0 <= i < j < head.len() implies (#[trigger] head[i]).tool != (
        #[trigger] head[j]).tool by {
            assert(grants[i].tool != grants[j].tool);
        }
        lemma_kept_distinct(head, test);
        search::lemma_kept(head, test);
        let rest = search::kept(head, test);
        if test(grants.last()) {
            let all = rest.push(grants.last());
            assert forall|i: int, j: int| 0 <= i < j < all.len() implies (#[trigger] all[i]).tool != (
            #[trigger] all[j]).tool by {
                if j == rest.len() {
                    assert(head.contains(rest[i]));
                    let at = choose|at: int| 0 <= at < head.len() && head[at] == rest[i];
                    assert(grants[at].tool != grants[grants.len() - 1].tool);
                } else {
                    assert(rest[i].tool != rest[j].tool);
                }
            }
        }
    }
}

/// A grant takes its tool's only place, and pending requests for that tool are gone.
pub proof fn law_commit(s: StoreModel, grant: GrantModel)
    ensures
        one_per_tool(s.grants) ==> one_per_tool(grant::committed(s, grant).grants),
        search::found(grant::committed(s, grant).grants, grant::grant_of_tool(grant.tool)) == Some(grant),
        forall|i: int|
            0 <= i < grant::committed(s, grant).requests.len() ==> paths::last_name(
                (#[trigger] grant::committed(s, grant).requests[i]).tool,
            ) != grant.tool,
{
    let test = grant::other_tool(grant.tool);
    let rest = search::kept(s.grants, test);
    let all = grant::committed(s, grant).grants;
    search::lemma_kept(s.grants, test);
    search::lemma_kept(s.requests, grant::other_request(grant.tool));
    assert forall|j: int| 0 <= j < rest.len() implies !grant::grant_of_tool(grant.tool)(
        #[trigger] all[j],
    ) by {
        assert(all[j] == rest[j]);
        assert(test(rest[j]));
    }
    search::lemma_first_at(all, grant::grant_of_tool(grant.tool), rest.len() as int);
    if one_per_tool(s.grants) {
        lemma_kept_distinct(s.grants, test);
        assert forall|i: int, j: int| 0 <= i < j < all.len() implies (#[trigger] all[i]).tool != (
        #[trigger] all[j]).tool by {
            if j == rest.len() {
                assert(test(rest[i]));
            } else {
                assert(rest[i].tool != rest[j].tool);
            }
        }
    }
    assert forall|i: int| 0 <= i < grant::committed(s, grant).requests.len() implies paths::last_name(
        (#[trigger] grant::committed(s, grant).requests[i]).tool,
    ) != grant.tool by {
        assert(grant::other_request(grant.tool)(search::kept(s.requests, grant::other_request(grant.tool))[i]));
    }
}

/// A removed tool is not granted any more, and pending requests for it are gone.
pub proof fn law_remove(
    s: StoreModel,
    tool: Seq<char>,
    path: Option<Seq<char>>,
    from: Seq<char>,
    now: LocalTimeModel,
)
    requires
        one_per_tool(s.grants),
        grant::grant_removed(s, tool, path).1 is Ok,
    ensures
        one_per_tool(grant::grant_removed(s, tool, path).0.grants),
        ({
            let gone = s.grants[search::first(s.grants, grant::removal_match(tool, path))->0].tool;
            &&& path is None ==> gone == tool
            &&& grant::check_outcome(grant::grant_removed(s, tool, path).0, gone, from, now) == Err::<
                GrantModel,
                ErrorModel,
            >(ErrorModel::NotAdded { tool: gone, body: s.body_name })
            &&& forall|i: int|
                0 <= i < grant::grant_removed(s, tool, path).0.requests.len() ==> paths::last_name(
                    (#[trigger] grant::grant_removed(s, tool, path).0.requests[i]).tool,
                ) != gone
        }),
{
    let test = grant::removal_match(tool, path);
    search::lemma_first(s.grants, test);
    let at = search::first(s.grants, test)->0;
    let gone = s.grants[at].tool;
    let next = grant::grant_removed(s, tool, path).0;
    lemma_removed_distinct(s.grants, at);
    assert forall|j: int| 0 <= j < next.grants.len() implies !grant::grant_of_tool(gone)(
        #[trigger] next.grants[j],
    ) by {
        let i = if j < at {
            j
        } else {
            j + 1
        };
        assert(next.grants[j] == s.grants[i]);
        if i < at {
            assert(s.grants[i].tool != s.grants[at].tool);
        } else {
            assert(s.grants[at].tool != s.grants[i].tool);
        }
    }
    search::lemma_first_none(next.grants, grant::grant_of_tool(gone));
    search::lemma_kept(s.requests, grant::other_request(gone));
    assert forall|i: int| 0 <= i < next.requests.len() implies paths::last_name(
        (#[trigger] next.requests[i]).tool,
    ) != gone by {
        assert(grant::other_request(gone)(search::kept(s.requests, grant::other_request(gone))[i]));
    }
}

proof fn lemma_removed_distinct(grants: Seq<GrantModel>, at: int)
    requires
        one_per_tool(grants),
        0 <= at < grants.len(),
    ensures
        one_per_tool(grants.remove(at)),
{
    let rest = grants.remove(at);
    assert forall|i: int, j: int| 0 <= i < j < rest.len() implies (#[trigger] rest[i]).tool != (
    #[trigger] rest[j]).tool by {
        let a = if i < at {
            i
        } else {
            i + 1
        };
        let b = if j < at {
            j
        } else {
            j + 1
        };
        assert(grants[a].tool != grants[b].tool);
    }
}

proof fn lemma_updated_distinct(grants: Seq<GrantModel>, at: int, grant: GrantModel)
    requires
        one_per_tool(grants),
        0 <= at < grants.len(),
        grant.tool == grants[at].tool,
    ensures
        one_per_tool(grants.update(at, grant)),
{
    let rest = grants.update(at, grant);
    assert forall|i: int, j: int| 0 <= i < j < rest.len() implies (#[trigger] rest[i]).tool != (
    #[trigger] rest[j]).tool by {
        assert(grants[i].tool != grants[j].tool);
    }
}

/// Submitting a command keeps one grant for each tool.
pub proof fn law_submit_keeps_one_per_tool(
    s: StoreModel,
    free: bool,
    from: Seq<char>,
    argv: Seq<Seq<char>>,
    id: Seq<char>,
    certificate: Option<CertificateModel>,
    now: LocalTimeModel,
    fresh_id: Seq<char>,
)
    requires
        one_per_tool(s.grants),
    ensures
        one_per_tool(exec::submitted(s, free, from, argv, id, certificate, now, fresh_id).0.grants),
{
    let tool = argv[0];
    search::lemma_first(s.grants, grant::grant_of_tool(tool));
    if let Some(at) = search::first(s.grants, grant::grant_of_tool(tool)) {
        lemma_updated_distinct(
            s.grants,
            at,
            GrantModel { reservation: Some(id), ..s.grants[at] },
        );
    }
}

/// The end of a run keeps one grant for each tool.
pub proof fn law_finish_keeps_one_per_tool(
    s: StoreModel,
    grant: GrantModel,
    run: JobModel,
    end: RunOutcomeModel,
)
    requires
        one_per_tool(s.grants),
    ensures
        one_per_tool(exec::finished(s, grant, run, end).0.grants),
{
    search::lemma_first(s.grants, exec::held_for(grant.tool, run.id));
    if let Some(at) = search::first(s.grants, exec::held_for(grant.tool, run.id)) {
        lemma_removed_distinct(s.grants, at);
        lemma_updated_distinct(s.grants, at, GrantModel { reservation: None, ..s.grants[at] });
    }
}

/// After one successful run, a single-use grant admits nothing more.
pub proof fn law_once_used_up(
    s: StoreModel,
    grant: GrantModel,
    run: JobModel,
    end: RunOutcomeModel,
    from: Seq<char>,
    now: LocalTimeModel,
)
    requires
        one_per_tool(s.grants),
        grant.once,
        search::first(s.jobs, job::job_with_id(run.id)) is Some,
        search::first(s.grants, exec::held_for(grant.tool, run.id)) is Some,
        exec::succeeded(end) == Some(true),
    ensures
        grant::check_outcome(exec::finished(s, grant, run, end).0, grant.tool, from, now) == Err::<
            GrantModel,
            ErrorModel,
        >(ErrorModel::NotAdded { tool: grant.tool, body: s.body_name }),
{
    search::lemma_first(s.grants, exec::held_for(grant.tool, run.id));
    let at = search::first(s.grants, exec::held_for(grant.tool, run.id))->0;
    let next = s.grants.remove(at);
    assert forall|j: int| 0 <= j < next.len() implies !grant::grant_of_tool(grant.tool)(
        #[trigger] next[j],
    ) by {
        let i = if j < at {
            j
        } else {
            j + 1
        };
        assert(next[j] == s.grants[i]);
        if i < at {
            assert(s.grants[i].tool != s.grants[at].tool);
        } else {
            assert(s.grants[at].tool != s.grants[i].tool);
        }
    }
    search::lemma_first_none(next, grant::grant_of_tool(grant.tool));
}

/// A refused decision changes nothing. A decision that is carried out concerns the
/// request with exactly that ID: a denial removes it alone and grants nothing.
pub proof fn law_decision_by_id(
    s: StoreModel,
    id: Seq<char>,
    decision: DecisionModel,
    binary: Outcome<Seq<char>>,
)
    ensures
        request::decided(s, id, decision, binary).1 is Err ==> request::decided(s, id, decision, binary).0 == s,
        request::decided(s, id, decision, binary).1 is Ok ==> {
            let at = search::first(s.requests, request::request_with_id(id))->0;
            &&& 0 <= at < s.requests.len()
            &&& s.requests[at].id == id
            &&& id.len() > 0
            &&& decision is Deny ==> request::decided(s, id, decision, binary).0 == (StoreModel {
                requests: s.requests.remove(at),
                ..s
            })
            &&& decision is Allow ==> request::decided(s, id, decision, binary).1->Ok_0 is Some
                && request::decided(s, id, decision, binary).1->Ok_0->0.tool == paths::last_name(
                s.requests[at].tool,
            )
        },
        (forall|i: int| 0 <= i < s.requests.len() ==> (#[trigger] s.requests[i]).id != id)
            ==> request::decided(s, id, decision, binary).1 is Err,
{
    search::lemma_first(s.requests, request::request_with_id(id));
}

/// Approving a request serves the machine that asked, and no other, unless the
/// owner names others; it never grants every machine.
pub proof fn law_approval_is_scoped(
    s: StoreModel,
    id: Seq<char>,
    decision: DecisionModel,
    binary: Outcome<Seq<char>>,
)
    requires
        decision is Allow,
        request::decided(s, id, decision, binary).1 is Ok,
    ensures
        ({
            let grant = request::decided(s, id, decision, binary).1->Ok_0->0;
            let asker = s.requests[search::first(s.requests, request::request_with_id(id))->0].from;
            &&& grant.allow_from is Some
            &&& decision->scope == ScopeModel::Requester ==> grant.allow_from->0 == seq![asker]
        }),
{
    search::lemma_first(s.requests, request::request_with_id(id));
}

/// Approving never replaces a different grant for the same tool.
pub proof fn law_approval_keeps_other_grant(
    s: StoreModel,
    id: Seq<char>,
    decision: DecisionModel,
    binary: Outcome<Seq<char>>,
    at: int,
)
    requires
        one_per_tool(s.grants),
        0 <= at < s.grants.len(),
        request::decided(s, id, decision, binary).1 matches Ok(Some(grant)) ==> !grant::alike(s.grants[at], grant),
    ensures
        request::decided(s, id, decision, binary).0.grants.contains(s.grants[at]),
{
    let (next, result) = request::decided(s, id, decision, binary);
    if let Ok(Some(grant)) = result {
        let test = grant::other_tool(grant.tool);
        search::lemma_first(s.grants, grant::grant_of_tool(grant.tool));
        if s.grants[at].tool == grant.tool {
            assert(grant::grant_of_tool(grant.tool)(s.grants[at]));
            let held = search::first(s.grants, grant::grant_of_tool(grant.tool))->0;
            if held < at {
                assert(s.grants[held].tool != s.grants[at].tool);
            } else if at < held {
                assert(s.grants[at].tool != s.grants[held].tool);
            }
        }
        search::lemma_kept(s.grants, test);
        assert(test(s.grants[at]));
        let rest = search::kept(s.grants, test);
        let j = choose|j: int| 0 <= j < rest.len() && rest[j] == s.grants[at];
        assert(next.grants[j] == s.grants[at]);
    } else {
        assert(next.grants[at] == s.grants[at]);
    }
}

/// A delivery that arrives again changes nothing and is answered alike, whatever
/// was decided meanwhile about the request itself.
pub proof fn law_delivery_once(
    s: StoreModel,
    from: Seq<char>,
    tool: Seq<char>,
    id: Seq<char>,
    fresh_id: Seq<char>,
    later: StoreModel,
    later_id: Seq<char>,
)
    requires
        request::received(s, from, tool, Some(id), fresh_id).1 is Ok,
        later.request_receipts == request::received(s, from, tool, Some(id), fresh_id).0.request_receipts,
    ensures
        request::received(later, from, tool, Some(id), later_id) == (
            later,
            request::received(s, from, tool, Some(id), fresh_id).1,
        ),
{
    let test = request::receipt_of(id, from);
    search::lemma_first(s.request_receipts, test);
    if search::first(s.request_receipts, test) is None {
        let receipts = later.request_receipts;
        let n = s.request_receipts.len();
        lemma_row_is_of(s, from, tool, fresh_id);
        assert(receipts.len() == n + 1);
        assert forall|j: int| 0 <= j < n implies !test(#[trigger] receipts[j]) by {
            assert(receipts[j] == s.request_receipts[j]);
        }
        search::lemma_first_at(receipts, test, n as int);
    }
}

pub proof fn lemma_last_row(rows: Seq<RequestModel>, from: Seq<char>, tool: Seq<char>, n: int)
    requires
        0 <= n <= rows.len(),
    ensures
        request::last_row(rows, from, tool, n) matches Some(at) ==> 0 <= at < n && rows[at].from == from
            && rows[at].tool == tool,
    decreases n,
{
    if n > 0 {
        lemma_last_row(rows, from, tool, n - 1);
    }
}

/// A recorded request is from the machine that asked, for the tool it asked for.
proof fn lemma_row_is_of(s: StoreModel, from: Seq<char>, tool: Seq<char>, fresh_id: Seq<char>)
    ensures
        request::upserted(s, from, tool, fresh_id).1 matches Ok(row) ==> row.from == from && row.tool == tool,
{
    lemma_last_row(s.requests, from, tool, s.requests.len() as int);
}

/// Asking grants nothing: only the list of requests changes.
pub proof fn law_request_grants_nothing(
    s: StoreModel,
    from: Seq<char>,
    tool: Seq<char>,
    id: Option<Seq<char>>,
    fresh_id: Seq<char>,
)
    ensures
        request::received(s, from, tool, id, fresh_id).0 == (StoreModel {
            requests: request::received(s, from, tool, id, fresh_id).0.requests,
            request_receipts: request::received(s, from, tool, id, fresh_id).0.request_receipts,
            ..s
        }),
{
}

} // verus!
