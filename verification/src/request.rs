//! Requests for a grant, and what the owner decides about them.

use vstd::prelude::*;

use crate::data::Data;
use crate::error;
use crate::error::{protocol, usage, ClixError, ErrorModel, Outcome, Result};
use crate::grant;
use crate::grant::{build, commit, find_grant, same_permission};
use crate::history::find_peer;
use crate::history::wire;
use crate::limits;
use crate::search;
use crate::store::{Store, StoreModel};
use crate::text::{cat4, cat2, owned, text_same};
use crate::types::{
    BodyId, Grant, GrantModel, OutboundRequest, OutboundRequestModel, Request, RequestModel,
    RequestReceipt, RequestReceiptModel, Schedule, ScheduleModel, Timestamp, TimestampModel,
};

verus! {

/// The last row from a machine for a tool, among the first `n`.
pub open spec fn last_row(
    rows: Seq<RequestModel>,
    from: Seq<char>,
    tool: Seq<char>,
    n: int,
) -> Option<int>
    decreases n,
{
    if n <= 0 {
        None
    } else if rows[n - 1].from == from && rows[n - 1].tool == tool {
        Some(n - 1)
    } else {
        last_row(rows, from, tool, n - 1)
    }
}

/// A request recorded: the same machine and tool refresh their row.
pub open spec fn upserted(
    s: StoreModel,
    from: Seq<char>,
    tool: Seq<char>,
    fresh_id: Seq<char>,
) -> (StoreModel, Outcome<RequestModel>) {
    if limits::tool_outcome(tool) is Err {
        (s, Err(limits::tool_outcome(tool)->Err_0))
    } else {
        match last_row(s.requests, from, tool, s.requests.len() as int) {
            Some(at) => {
                let row = RequestModel { once_suggested: true, ..s.requests[at] };
                (StoreModel { requests: s.requests.update(at, row), ..s }, Ok(row))
            },
            None => {
                let row = RequestModel { id: fresh_id, from, tool, once_suggested: true };
                (StoreModel { requests: s.requests.push(row), ..s }, Ok(row))
            },
        }
    }
}

/// Record a grant request on this body. Same from+tool refreshes the existing
/// row; a new one gets `fresh_id`.
pub fn upsert(store: &mut Store, from: BodyId, tool: &str, fresh_id: String) -> (result: Result<
    Request,
>)
    ensures
        (final(store)@, error::outcome(result)) == upserted(old(store)@, from@, tool@, fresh_id@),
{
    if let Err(e) = crate::limits::tool(tool) {
        return Err(e);
    }
    let ghost start = store@;
    let ghost wanted = from@;
    let mut i: usize = store.requests.len();
    while i > 0
        invariant
            i <= store.requests.len(),
            start == store@,
            start == old(store)@,
            wanted == from@,
            limits::tool_outcome(tool@) is Ok,
            last_row(start.requests, wanted, tool@, start.requests.len() as int) == last_row(
                start.requests,
                wanted,
                tool@,
                i as int,
            ),
        decreases i,
    {
        i -= 1;
        assert(start.requests[i as int] == store.requests@[i as int]@);
        if store.requests[i].from.same(&from) && text_same(&store.requests[i].tool, tool) {
            let mut row = store.requests[i].dup();
            row.once_suggested = true;
            let kept = row.dup();
            store.requests[i] = row;
            assert(store.requests.deep_view() =~= start.requests.update(i as int, kept@));
            return Ok(kept);
        }
    }
    let row = Request { id: fresh_id, from, tool: owned(tool), once_suggested: true };
    let kept = row.dup();
    store.requests.push(row);
    assert(store.requests.deep_view() =~= start.requests.push(kept@));
    Ok(kept)
}

/// The receipt of one delivery from one machine.
pub open spec fn receipt_of(id: Seq<char>, from: Seq<char>) -> spec_fn(RequestReceiptModel) -> bool {
    |r: RequestReceiptModel| r.delivery_id == id && r.request.from == from
}

/// A request as a peer delivered it. A repeated delivery changes nothing.
pub open spec fn received(
    s: StoreModel,
    from: Seq<char>,
    tool: Seq<char>,
    delivery_id: Option<Seq<char>>,
    fresh_id: Seq<char>,
) -> (StoreModel, Outcome<RequestModel>) {
    if limits::tool_outcome(tool) is Err {
        (s, Err(limits::tool_outcome(tool)->Err_0))
    } else {
        match delivery_id {
            None => upserted(s, from, tool, fresh_id),
            Some(id) => if limits::identifier_outcome(id) is Err {
                (s, Err(limits::identifier_outcome(id)->Err_0))
            } else {
                match search::found(s.request_receipts, receipt_of(id, from)) {
                    Some(receipt) => if receipt.request.tool != tool {
                        (s, Err(ErrorModel::Protocol("request ID belongs to a different tool"@)))
                    } else {
                        (s, Ok(receipt.request))
                    },
                    None => {
                        let (next, row) = upserted(s, from, tool, fresh_id);
                        (
                            StoreModel {
                                request_receipts: next.request_receipts.push(
                                    RequestReceiptModel { delivery_id: id, request: row->Ok_0 },
                                ),
                                ..next
                            },
                            row,
                        )
                    },
                }
            },
        }
    }
}

fn find_receipt(receipts: &Vec<RequestReceipt>, id: &str, from: &BodyId) -> (at: Option<usize>)
    ensures
        (match at {
            Some(i) => i < receipts.len() && search::first(
                receipts.deep_view(),
                receipt_of(id@, from@),
            ) == Some(i as int),
            None => search::first(receipts.deep_view(), receipt_of(id@, from@)) is None,
        }),
{
    let ghost view = receipts.deep_view();
    let mut i: usize = 0;
    while i < receipts.len()
        invariant
            i <= receipts.len(),
            view == receipts.deep_view(),
            forall|j: int| 0 <= j < i ==> !receipt_of(id@, from@)(#[trigger] view[j]),
        decreases receipts.len() - i,
    {
        assert(view[i as int] == receipts@[i as int]@);
        if text_same(&receipts[i].delivery_id, id) && receipts[i].request.from.same(from) {
            proof {
                search::lemma_first_at(view, receipt_of(id@, from@), i as int);
            }
            return Some(i);
        }
        i += 1;
    }
    proof {
        search::lemma_first_none(view, receipt_of(id@, from@));
    }
    None
}

/// Take in a request that a peer delivered, once per delivery ID.
pub fn receive(
    store: &mut Store,
    from: BodyId,
    tool: &str,
    delivery_id: Option<&str>,
    fresh_id: String,
) -> (result: Result<Request>)
    ensures
        (final(store)@, error::outcome(result)) == received(
            old(store)@,
            from@,
            tool@,
            match delivery_id {
                Some(id) => Some(id@),
                None => None,
            },
            fresh_id@,
        ),
{
    if let Err(e) = crate::limits::tool(tool) {
        return Err(e);
    }
    let id = match delivery_id {
        Some(id) => id,
        None => return upsert(store, from, tool, fresh_id),
    };
    if let Err(e) = crate::limits::identifier(id) {
        return Err(e);
    }
    if let Some(at) = find_receipt(&store.request_receipts, id, &from) {
        assert(store@.request_receipts[at as int] == store.request_receipts@[at as int]@);
        let receipt = &store.request_receipts[at];
        if !text_same(&receipt.request.tool, tool) {
            return Err(protocol("request ID belongs to a different tool"));
        }
        return Ok(receipt.request.dup());
    }
    match upsert(store, from, tool, fresh_id) {
        Ok(request) => {
            let ghost before = store@.request_receipts;
            let receipt = RequestReceipt { delivery_id: owned(id), request: request.dup() };
            let ghost view = receipt@;
            store.request_receipts.push(receipt);
            assert(store.request_receipts.deep_view() =~= before.push(view));
            Ok(request)
        },
        Err(e) => Err(e),
    }
}

pub fn pending(store: &Store) -> (requests: &Vec<Request>)
    ensures
        requests.deep_view() == store@.requests,
{
    &store.requests
}

/// Where an outgoing request goes.
#[derive(Debug, Clone)]
pub struct Delivery {
    pub addr: String,
    pub owner_sk: Vec<u8>,
    pub owner_pk: Vec<u8>,
}

#[verifier::ext_equal]
pub struct DeliveryModel {
    pub addr: Seq<char>,
    pub owner_sk: Seq<u8>,
    pub owner_pk: Seq<u8>,
}

impl View for Delivery {
    type V = DeliveryModel;

    open spec fn view(&self) -> DeliveryModel {
        DeliveryModel { addr: self.addr@, owner_sk: self.owner_sk@, owner_pk: self.owner_pk@ }
    }
}

impl DeepView for Delivery {
    type V = DeliveryModel;

    open spec fn deep_view(&self) -> DeliveryModel {
        self@
    }
}

/// How to reach a paired machine.
pub open spec fn route(s: StoreModel, body: Seq<char>) -> Outcome<DeliveryModel> {
    match search::found(s.peers, wire::peer_named(body)) {
        None => Err(ErrorModel::Usage(body + " is not paired"@)),
        Some(peer) => match peer.addr {
            None => Err(ErrorModel::Unreachable),
            Some(addr) => Ok(
                DeliveryModel { addr, owner_sk: s.owner_sk, owner_pk: peer.owner_pk },
            ),
        },
    }
}

/// The address and keys for a call to a machine, or why there is none.
pub fn find_route(store: &Store, body: &str) -> (result: Result<Delivery>)
    ensures
        error::outcome(result) == route(store@, body@),
{
    match find_peer(&store.peers, body) {
        None => Err(ClixError::Usage(cat2(body, " is not paired"))),
        Some(at) => {
            assert(store@.peers[at as int] == store.peers@[at as int]@);
            match &store.peers[at].addr {
                None => Err(ClixError::Unreachable),
                Some(addr) => Ok(
                    Delivery {
                        addr: addr.dup(),
                        owner_sk: crate::data::bytes_dup(&store.owner_sk),
                        owner_pk: crate::data::bytes_dup(&store.peers[at].owner_pk),
                    },
                ),
            }
        },
    }
}

pub open spec fn outbound_with_id(id: Seq<char>) -> spec_fn(OutboundRequestModel) -> bool {
    |r: OutboundRequestModel| r.id == id
}

/// What the end of a delivery attempt does to the waiting requests. Nothing is
/// written for one that is gone or already known to wait.
pub open spec fn delivery_settled(
    s: StoreModel,
    id: Seq<char>,
    result: Outcome<()>,
) -> Option<StoreModel> {
    match search::first(s.outbound_requests, outbound_with_id(id)) {
        None => None,
        Some(at) => {
            let row = s.outbound_requests[at];
            match result {
                Ok(_) => Some(
                    StoreModel { outbound_requests: s.outbound_requests.remove(at), ..s },
                ),
                Err(e) => if e == ErrorModel::Unreachable {
                    if row.waiting {
                        None
                    } else {
                        Some(
                            StoreModel {
                                outbound_requests: s.outbound_requests.update(
                                    at,
                                    OutboundRequestModel { waiting: true, ..row },
                                ),
                                ..s
                            },
                        )
                    }
                } else {
                    Some(
                        StoreModel {
                            outbound_requests: s.outbound_requests.update(
                                at,
                                OutboundRequestModel { error: Some(e.message()), ..row },
                            ),
                            ..s
                        },
                    )
                },
            }
        },
    }
}

fn find_outbound(rows: &Vec<OutboundRequest>, id: &str) -> (at: Option<usize>)
    ensures
        (match at {
            Some(i) => i < rows.len() && search::first(rows.deep_view(), outbound_with_id(id@)) == Some(
                i as int,
            ),
            None => search::first(rows.deep_view(), outbound_with_id(id@)) is None,
        }),
{
    let ghost view = rows.deep_view();
    let mut i: usize = 0;
    while i < rows.len()
        invariant
            i <= rows.len(),
            view == rows.deep_view(),
            forall|j: int| 0 <= j < i ==> !outbound_with_id(id@)(#[trigger] view[j]),
        decreases rows.len() - i,
    {
        assert(view[i as int] == rows@[i as int]@);
        if text_same(&rows[i].id, id) {
            proof {
                search::lemma_first_at(view, outbound_with_id(id@), i as int);
            }
            return Some(i);
        }
        i += 1;
    }
    proof {
        search::lemma_first_none(view, outbound_with_id(id@));
    }
    None
}

/// Apply the end of a delivery attempt. False means that there is nothing to save.
pub fn settle_delivery(store: &mut Store, id: &str, result: Result<()>) -> (changed: bool)
    ensures
        changed == (delivery_settled(old(store)@, id@, error::outcome(result)) is Some),
        final(store)@ == match delivery_settled(old(store)@, id@, error::outcome(result)) {
            Some(next) => next,
            None => old(store)@,
        },
{
    let ghost start = store@;
    let at: usize = match find_outbound(&store.outbound_requests, id) {
        Some(at) => at,
        None => return false,
    };
    assert(start.outbound_requests[at as int] == store.outbound_requests@[at as int]@);
    match result {
        Ok(_) => {
            store.outbound_requests.remove(at);
            assert(store.outbound_requests.deep_view() =~= start.outbound_requests.remove(
                at as int,
            ));
            true
        },
        Err(e) => {
            let unreachable = crate::job::is_unreachable(&e);
            if unreachable && store.outbound_requests[at].waiting {
                return false;
            }
            let mut row = store.outbound_requests[at].dup();
            if unreachable {
                row.waiting = true;
            } else {
                row.error = Some(e.message());
            }
            let ghost view = row@;
            store.outbound_requests[at] = row;
            assert(store.outbound_requests.deep_view() =~= start.outbound_requests.update(
                at as int,
                view,
            ));
            true
        },
    }
}

/// Whom an approval serves.
#[derive(Debug, Clone)]
pub enum Scope {
    Requester,
    Bodies(Vec<String>),
}

#[verifier::ext_equal]
pub enum ScopeModel {
    Requester,
    Bodies(Seq<Seq<char>>),
}

impl View for Scope {
    type V = ScopeModel;

    open spec fn view(&self) -> ScopeModel {
        match self {
            Scope::Requester => ScopeModel::Requester,
            Scope::Bodies(bodies) => ScopeModel::Bodies(bodies.deep_view()),
        }
    }
}

#[derive(Debug, Clone)]
pub enum Decision {
    Allow {
        scope: Scope,
        once: bool,
        until: Option<Timestamp>,
        schedule: Option<Schedule>,
    },
    Deny,
}

#[verifier::ext_equal]
pub enum DecisionModel {
    Allow {
        scope: ScopeModel,
        once: bool,
        until: Option<TimestampModel>,
        schedule: Option<ScheduleModel>,
    },
    Deny,
}

impl View for Decision {
    type V = DecisionModel;

    open spec fn view(&self) -> DecisionModel {
        match self {
            Decision::Allow { scope, once, until, schedule } => DecisionModel::Allow {
                scope: scope@,
                once: *once,
                until: until.deep_view(),
                schedule: schedule.deep_view(),
            },
            Decision::Deny => DecisionModel::Deny,
        }
    }
}

impl DeepView for Decision {
    type V = DecisionModel;

    open spec fn deep_view(&self) -> DecisionModel {
        self@
    }
}

/// What the actions of a notification mean.
pub open spec fn action_decision(action: Seq<char>) -> Outcome<DecisionModel> {
    if action == "default"@ || action == "once"@ || action == "allow"@ {
        Ok(
            DecisionModel::Allow {
                scope: ScopeModel::Requester,
                once: action != "allow"@,
                until: None,
                schedule: None,
            },
        )
    } else if action == "deny"@ {
        Ok(DecisionModel::Deny)
    } else {
        Err(ErrorModel::Usage("unknown request action"@))
    }
}

impl Decision {
    /// Native action names are translated once, with their authority explicit.
    /// "allow" persists but is scoped to the requesting machine, not all paired
    /// machines. Broad grants are explicit: clix add --all.
    pub fn from_action(action: &str) -> (result: Result<Decision>)
        ensures
            error::outcome(result) == action_decision(action@),
    {
        proof {
            reveal_strlit("default");
            reveal_strlit("once");
            reveal_strlit("allow");
            reveal_strlit("deny");
        }
        if text_same(action, "default") || text_same(action, "once") {
            assert(action@ != "allow"@) by {
                assert("default"@.len() == 7 && "allow"@.len() == 5 && "once"@.len() == 4);
            }
            Ok(
                Decision::Allow {
                    scope: Scope::Requester,
                    once: true,
                    until: None,
                    schedule: None,
                },
            )
        } else if text_same(action, "allow") {
            Ok(
                Decision::Allow {
                    scope: Scope::Requester,
                    once: false,
                    until: None,
                    schedule: None,
                },
            )
        } else if text_same(action, "deny") {
            Ok(Decision::Deny)
        } else {
            Err(usage("unknown request action"))
        }
    }
}

pub open spec fn request_with_id(id: Seq<char>) -> spec_fn(RequestModel) -> bool {
    |r: RequestModel| r.id == id
}

/// The machines that an approval names.
pub open spec fn scope_names(scope: ScopeModel, from: Seq<char>) -> Outcome<Seq<Seq<char>>> {
    match scope {
        ScopeModel::Requester => Ok(seq![from]),
        ScopeModel::Bodies(bodies) => if bodies.len() == 0 {
            Err(ErrorModel::Usage("approval body list must not be empty"@))
        } else {
            Ok(bodies)
        },
    }
}

pub open spec fn other_grant(tool: Seq<char>, body: Seq<char>) -> ErrorModel {
    ErrorModel::Usage(
        tool + " already has a grant on "@ + body
            + "; change it with clix add / clix remove rather than approving this request"@,
    )
}

/// What becomes of one pending request. IDs never select another row, and an
/// approval never replaces a different grant.
pub open spec fn decided(
    s: StoreModel,
    id: Seq<char>,
    decision: DecisionModel,
    binary: Outcome<Seq<char>>,
) -> (StoreModel, Outcome<Option<GrantModel>>) {
    match search::first(s.requests, request_with_id(id)) {
        Some(at) if id.len() > 0 => {
            let row = s.requests[at];
            match decision {
                DecisionModel::Deny => (
                    StoreModel { requests: s.requests.remove(at), ..s },
                    Ok(None),
                ),
                DecisionModel::Allow { scope, once, until, schedule } => {
                    match scope_names(scope, row.from) {
                        Err(e) => (s, Err(e)),
                        Ok(names) => match grant::built(
                            s,
                            row.tool,
                            names,
                            once,
                            until,
                            schedule,
                            None,
                            binary,
                        ) {
                            Err(e) => (s, Err(e)),
                            Ok(grant) => match search::found(s.grants, grant::grant_of_tool(grant.tool)) {
                                Some(existing) if !grant::alike(existing, grant) => (
                                    s,
                                    Err(other_grant(grant.tool, s.body_name)),
                                ),
                                _ => (grant::committed(s, grant), Ok(Some(grant))),
                            },
                        },
                    }
                },
            }
        },
        _ => (s, Err(ErrorModel::Usage("request is no longer pending; run clix pending"@))),
    }
}

pub fn find_request(rows: &Vec<Request>, id: &str) -> (at: Option<usize>)
    ensures
        (match at {
            Some(i) => i < rows.len() && search::first(rows.deep_view(), request_with_id(id@)) == Some(
                i as int,
            ),
            None => search::first(rows.deep_view(), request_with_id(id@)) is None,
        }),
{
    let ghost view = rows.deep_view();
    let mut i: usize = 0;
    while i < rows.len()
        invariant
            i <= rows.len(),
            view == rows.deep_view(),
            forall|j: int| 0 <= j < i ==> !request_with_id(id@)(#[trigger] view[j]),
        decreases rows.len() - i,
    {
        assert(view[i as int] == rows@[i as int]@);
        if text_same(&rows[i].id, id) {
            proof {
                search::lemma_first_at(view, request_with_id(id@), i as int);
            }
            return Some(i);
        }
        i += 1;
    }
    proof {
        search::lemma_first_none(view, request_with_id(id@));
    }
    None
}

fn names_of(scope: Scope, from: &BodyId) -> (result: Result<Vec<String>>)
    ensures
        error::outcome(result) == scope_names(scope@, from@),
{
    match scope {
        Scope::Requester => {
            let mut names: Vec<String> = Vec::new();
            names.push(from.0.dup());
            assert(names.deep_view() =~= seq![from@]);
            Ok(names)
        },
        Scope::Bodies(bodies) => if bodies.len() == 0 {
            Err(usage("approval body list must not be empty"))
        } else {
            Ok(bodies)
        },
    }
}

/// Decide one pending request; `binary` is what its tool resolves to here.
pub fn decide(store: &mut Store, id: &str, decision: Decision, binary: Result<String>) -> (result:
    Result<Option<Grant>>)
    ensures
        (final(store)@, error::outcome(result)) == decided(
            old(store)@,
            id@,
            decision@,
            error::outcome(binary),
        ),
{
    let ghost start = store@;
    let at: usize = match find_request(&store.requests, id) {
        Some(at) => at,
        None => return Err(usage("request is no longer pending; run clix pending")),
    };
    if id.is_empty() {
        return Err(usage("request is no longer pending; run clix pending"));
    }
    assert(start.requests[at as int] == store.requests@[at as int]@);
    match decision {
        Decision::Deny => {
            store.requests.remove(at);
            assert(store.requests.deep_view() =~= start.requests.remove(at as int));
            Ok(None)
        },
        Decision::Allow { scope, once, until, schedule } => {
            let names = match names_of(scope, &store.requests[at].from) {
                Ok(names) => names,
                Err(e) => return Err(e),
            };
            let grant = match build(
                store,
                &store.requests[at].tool,
                &names,
                once,
                until,
                schedule,
                None,
                binary,
            ) {
                Ok(grant) => grant,
                Err(e) => return Err(e),
            };
            if let Some(g) = find_grant(&store.grants, &grant.tool) {
                assert(start.grants[g as int] == store.grants@[g as int]@);
                if !same_permission(&store.grants[g], &grant) {
                    return Err(
                        ClixError::Usage(
                            cat4(
                                &grant.tool,
                                " already has a grant on ",
                                &store.body_name,
                                "; change it with clix add / clix remove rather than approving this request",
                            ),
                        ),
                    );
                }
            }
            commit(store, &grant);
            Ok(Some(grant))
        },
    }
}

} // verus!
