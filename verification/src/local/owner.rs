//! What the sidecar makes of an owner's request.

use vstd::prelude::*;

use crate::cli::values;
use crate::cli::values::parse_ampm;
use crate::data::Data;
use crate::error;
use crate::error::{usage, ClixError, ErrorModel, Outcome, Result};
use crate::history::find_peer;
use crate::history::wire;
use crate::job;
use crate::job::{find_job, is_terminal};
use crate::request;
use crate::request::{find_route, Delivery, DeliveryModel};
use crate::scan;
use crate::scan::{after_prefix, to_lower, trim};
use crate::search;
use crate::store::{Store, StoreModel};
use crate::table;
use crate::text;
use crate::text::{cat2, cat3, decimal_text, owned, text_same};
use crate::types::{
    BodyId, Job, JobModel, JobStatus, JobStatusModel, OutboundRequest, OutboundRequestModel, Schedule,
    ScheduleModel, TimeOfDay, TimeOfDayModel, Timestamp, TimestampModel, Weekday,
};

verus! {

/// What an owner may ask for.
#[derive(Debug, Clone, Copy, PartialEq, Eq, Structural)]
pub enum OwnerOp {
    Add,
    Hands,
    Remove,
    Log,
    Status,
    PairStart,
    PairJoin,
    PairAwait,
    Request,
    Pending,
    AllowRequest,
    DenyRequest,
    Exec,
    JobInspect,
    JobOutput,
    JobRetry,
    StorageStatus,
    StoragePrune,
    PinOn,
    PinOff,
    PinSync,
    PinConflicts,
    PinTakePeer,
    RecoveryList,
    RecoveryInspect,
    RecoveryExport,
    RecoveryResolve,
    RecoveryDiscard,
}

impl DeepView for OwnerOp {
    type V = OwnerOp;

    open spec fn deep_view(&self) -> OwnerOp {
        *self
    }
}

/// A decision names a request: there is no bare `allow` or `deny`.
pub open spec fn owner_op_outcome(op: Option<Seq<char>>) -> Outcome<OwnerOp> {
    match op {
        None => Err(ErrorModel::Usage("missing op"@)),
        Some(op) => if op == "add"@ {
            Ok(OwnerOp::Add)
        } else if op == "hands"@ {
            Ok(OwnerOp::Hands)
        } else if op == "remove"@ {
            Ok(OwnerOp::Remove)
        } else if op == "log"@ {
            Ok(OwnerOp::Log)
        } else if op == "status"@ {
            Ok(OwnerOp::Status)
        } else if op == "pair_start"@ {
            Ok(OwnerOp::PairStart)
        } else if op == "pair_join"@ {
            Ok(OwnerOp::PairJoin)
        } else if op == "pair_await"@ {
            Ok(OwnerOp::PairAwait)
        } else if op == "request"@ {
            Ok(OwnerOp::Request)
        } else if op == "pending"@ {
            Ok(OwnerOp::Pending)
        } else if op == "allow_request"@ {
            Ok(OwnerOp::AllowRequest)
        } else if op == "deny_request"@ {
            Ok(OwnerOp::DenyRequest)
        } else if op == "exec"@ {
            Ok(OwnerOp::Exec)
        } else if op == "job_inspect"@ {
            Ok(OwnerOp::JobInspect)
        } else if op == "job_output"@ {
            Ok(OwnerOp::JobOutput)
        } else if op == "job_retry"@ {
            Ok(OwnerOp::JobRetry)
        } else if op == "storage_status"@ {
            Ok(OwnerOp::StorageStatus)
        } else if op == "storage_prune"@ {
            Ok(OwnerOp::StoragePrune)
        } else if op == "pin_on"@ {
            Ok(OwnerOp::PinOn)
        } else if op == "pin_off"@ {
            Ok(OwnerOp::PinOff)
        } else if op == "pin_sync"@ {
            Ok(OwnerOp::PinSync)
        } else if op == "pin_conflicts"@ {
            Ok(OwnerOp::PinConflicts)
        } else if op == "pin_take_peer"@ {
            Ok(OwnerOp::PinTakePeer)
        } else if op == "pin_recovery_list"@ {
            Ok(OwnerOp::RecoveryList)
        } else if op == "pin_recovery_inspect"@ {
            Ok(OwnerOp::RecoveryInspect)
        } else if op == "pin_recovery_export"@ {
            Ok(OwnerOp::RecoveryExport)
        } else if op == "pin_recovery_resolve"@ {
            Ok(OwnerOp::RecoveryResolve)
        } else if op == "pin_recovery_discard"@ {
            Ok(OwnerOp::RecoveryDiscard)
        } else if scan::begins(op, "pin_"@) {
            Err(ErrorModel::Usage("unknown pin owner operation"@))
        } else {
            Err(ErrorModel::Usage("unknown op: "@ + op))
        },
    }
}

pub fn owner_op(op: Option<&str>) -> (result: Result<OwnerOp>)
    ensures
        error::outcome(result) == owner_op_outcome(
            match op {
                Some(op) => Some(op@),
                None => None,
            },
        ),
{
    let op = match op {
        Some(op) => op,
        None => return Err(usage("missing op")),
    };
    if text_same(op, "add") {
        Ok(OwnerOp::Add)
    } else if text_same(op, "hands") {
        Ok(OwnerOp::Hands)
    } else if text_same(op, "remove") {
        Ok(OwnerOp::Remove)
    } else if text_same(op, "log") {
        Ok(OwnerOp::Log)
    } else if text_same(op, "status") {
        Ok(OwnerOp::Status)
    } else if text_same(op, "pair_start") {
        Ok(OwnerOp::PairStart)
    } else if text_same(op, "pair_join") {
        Ok(OwnerOp::PairJoin)
    } else if text_same(op, "pair_await") {
        Ok(OwnerOp::PairAwait)
    } else if text_same(op, "request") {
        Ok(OwnerOp::Request)
    } else if text_same(op, "pending") {
        Ok(OwnerOp::Pending)
    } else if text_same(op, "allow_request") {
        Ok(OwnerOp::AllowRequest)
    } else if text_same(op, "deny_request") {
        Ok(OwnerOp::DenyRequest)
    } else if text_same(op, "exec") {
        Ok(OwnerOp::Exec)
    } else if text_same(op, "job_inspect") {
        Ok(OwnerOp::JobInspect)
    } else if text_same(op, "job_output") {
        Ok(OwnerOp::JobOutput)
    } else if text_same(op, "job_retry") {
        Ok(OwnerOp::JobRetry)
    } else if text_same(op, "storage_status") {
        Ok(OwnerOp::StorageStatus)
    } else if text_same(op, "storage_prune") {
        Ok(OwnerOp::StoragePrune)
    } else if text_same(op, "pin_on") {
        Ok(OwnerOp::PinOn)
    } else if text_same(op, "pin_off") {
        Ok(OwnerOp::PinOff)
    } else if text_same(op, "pin_sync") {
        Ok(OwnerOp::PinSync)
    } else if text_same(op, "pin_conflicts") {
        Ok(OwnerOp::PinConflicts)
    } else if text_same(op, "pin_take_peer") {
        Ok(OwnerOp::PinTakePeer)
    } else if text_same(op, "pin_recovery_list") {
        Ok(OwnerOp::RecoveryList)
    } else if text_same(op, "pin_recovery_inspect") {
        Ok(OwnerOp::RecoveryInspect)
    } else if text_same(op, "pin_recovery_export") {
        Ok(OwnerOp::RecoveryExport)
    } else if text_same(op, "pin_recovery_resolve") {
        Ok(OwnerOp::RecoveryResolve)
    } else if text_same(op, "pin_recovery_discard") {
        Ok(OwnerOp::RecoveryDiscard)
    } else if after_prefix(op, "pin_").is_some() {
        Err(usage("unknown pin owner operation"))
    } else {
        Err(ClixError::Usage(cat2("unknown op: ", op)))
    }
}

/// A text that must be there.
pub open spec fn field_outcome(name: Seq<char>, value: Option<Seq<char>>) -> Outcome<Seq<char>> {
    match value {
        Some(text) if text.len() > 0 => Ok(text),
        _ => Err(ErrorModel::Usage("missing "@ + name)),
    }
}

pub fn field(name: &str, value: Option<String>) -> (result: Result<String>)
    ensures
        error::outcome(result) == field_outcome(name@, value.deep_view()),
{
    match value {
        Some(text) => {
            if text.as_str().is_empty() {
                return Err(ClixError::Usage(cat2("missing ", name)));
            }
            Ok(text)
        },
        None => Err(ClixError::Usage(cat2("missing ", name))),
    }
}

/// A text that must be there for a command to make sense.
pub fn required(value: Option<String>, hint: &str) -> (result: Result<String>)
    ensures
        error::outcome(result) == match value.deep_view() {
            Some(text) => Ok::<Seq<char>, ErrorModel>(text),
            None => Err::<Seq<char>, ErrorModel>(ErrorModel::Usage(hint@)),
        },
{
    match value {
        Some(text) => Ok(text),
        None => Err(usage(hint)),
    }
}

/// Some texts: a list, of which only the texts count, one text, or neither.
#[derive(Debug, Clone)]
pub enum Texts {
    List(Vec<Option<String>>),
    One(String),
    Neither,
}

/// The texts of a list, without the items that are none.
pub open spec fn present(items: Seq<Option<Seq<char>>>) -> Seq<Seq<char>>
    decreases items.len(),
{
    if items.len() == 0 {
        Seq::empty()
    } else {
        match items.last() {
            Some(text) => present(items.drop_last()).push(text),
            None => present(items.drop_last()),
        }
    }
}

pub open spec fn string_list(texts: Texts) -> Seq<Seq<char>> {
    match texts {
        Texts::List(items) => present(items.deep_view()),
        Texts::One(text) => seq![text@],
        Texts::Neither => Seq::empty(),
    }
}

pub fn json_string_list(texts: &Texts) -> (list: Vec<String>)
    ensures
        list.deep_view() == string_list(*texts),
{
    match texts {
        Texts::List(items) => {
            let ghost view = items.deep_view();
            let mut list: Vec<String> = Vec::new();
            let mut i: usize = 0;
            assert(view.take(0) =~= Seq::<Option<Seq<char>>>::empty());
            assert(list.deep_view() =~= present(view.take(0)));
            while i < items.len()
                invariant
                    i <= items.len(),
                    view == items.deep_view(),
                    list.deep_view() == present(view.take(i as int)),
                decreases items.len() - i,
            {
                let ghost before = list.deep_view();
                let ghost step = view.take(i + 1);
                assert(step.drop_last() =~= view.take(i as int));
                assert(step.last() == items@[i as int].deep_view());
                if let Some(text) = &items[i] {
                    list.push(text.dup());
                    assert(list.deep_view() =~= before.push(text@));
                }
                i += 1;
            }
            assert(view.take(i as int) =~= view);
            list
        },
        Texts::One(text) => {
            let list: Vec<String> = vec![text.dup()];
            assert(list.deep_view() =~= seq![text@]);
            list
        },
        Texts::Neither => {
            let list: Vec<String> = Vec::new();
            assert(list.deep_view() =~= Seq::<Seq<char>>::empty());
            list
        },
    }
}

/// When a grant ends: some seconds from now, or at a second of its own.
pub open spec fn until_of(now: TimestampModel, for_secs: Option<u64>, until: Option<u64>) -> Option<
    TimestampModel,
> {
    match for_secs {
        Some(secs) => Some(TimestampModel { secs: (now.secs + secs) as i64, nanos: now.nanos }),
        None => match until {
            Some(secs) => Some(TimestampModel { secs: secs as i64, nanos: 0 }),
            None => None,
        },
    }
}

pub fn rpc_until(now: &Timestamp, for_secs: Option<u64>, until: Option<u64>) -> (end: Option<Timestamp>)
    requires
        for_secs matches Some(secs) ==> now@.secs + secs <= i64::MAX,
        until matches Some(secs) ==> secs <= i64::MAX,
    ensures
        end.deep_view() == until_of(now@, for_secs, until),
{
    match for_secs {
        Some(secs) => {
            let end: i128 = now.secs as i128 + secs as i128;
            Some(Timestamp { secs: end as i64, nanos: now.nanos })
        },
        None => match until {
            Some(secs) => Some(Timestamp { secs: secs as i64, nanos: 0 }),
            None => None,
        },
    }
}

pub open spec fn weekday_of(day: Seq<char>) -> Outcome<Weekday> {
    let name = scan::lowered(scan::trimmed(day));
    if name == "mon"@ {
        Ok(Weekday::Mon)
    } else if name == "tue"@ {
        Ok(Weekday::Tue)
    } else if name == "wed"@ {
        Ok(Weekday::Wed)
    } else if name == "thu"@ {
        Ok(Weekday::Thu)
    } else if name == "fri"@ {
        Ok(Weekday::Fri)
    } else if name == "sat"@ {
        Ok(Weekday::Sat)
    } else if name == "sun"@ {
        Ok(Weekday::Sun)
    } else {
        Err(values::bad_weekday(day))
    }
}

pub fn parse_weekday(day: &str) -> (result: Result<Weekday>)
    ensures
        error::outcome(result) == weekday_of(day@),
{
    let name = to_lower(&trim(day));
    if text_same(&name, "mon") {
        Ok(Weekday::Mon)
    } else if text_same(&name, "tue") {
        Ok(Weekday::Tue)
    } else if text_same(&name, "wed") {
        Ok(Weekday::Wed)
    } else if text_same(&name, "thu") {
        Ok(Weekday::Thu)
    } else if text_same(&name, "fri") {
        Ok(Weekday::Fri)
    } else if text_same(&name, "sat") {
        Ok(Weekday::Sat)
    } else if text_same(&name, "sun") {
        Ok(Weekday::Sun)
    } else {
        Err(ClixError::Usage(cat3("unknown weekday '", day, "' (use mon..sun)")))
    }
}

/// A day of the month as it was sent: a whole number, or something else as text.
#[derive(Debug, Clone)]
pub enum SentDate {
    Whole(u64),
    Other(String),
}

#[verifier::ext_equal]
pub enum SentDateModel {
    Whole(u64),
    Other(Seq<char>),
}

impl View for SentDate {
    type V = SentDateModel;

    open spec fn view(&self) -> SentDateModel {
        match self {
            SentDate::Whole(n) => SentDateModel::Whole(*n),
            SentDate::Other(text) => SentDateModel::Other(text@),
        }
    }
}

impl DeepView for SentDate {
    type V = SentDateModel;

    open spec fn deep_view(&self) -> SentDateModel {
        self@
    }
}

pub open spec fn bad_date(text: Seq<char>) -> ErrorModel {
    ErrorModel::Usage("bad date '"@ + text + "' (use 1–31)"@)
}

pub open spec fn sent_date(date: SentDateModel) -> Outcome<u8> {
    match date {
        SentDateModel::Whole(n) => if 1 <= n <= 31 {
            Ok(n as u8)
        } else {
            Err(bad_date(text::decimal(n as nat)))
        },
        SentDateModel::Other(text) => Err(bad_date(text)),
    }
}

fn read_date(date: &SentDate) -> (result: Result<u8>)
    ensures
        error::outcome(result) == sent_date(date@),
{
    match date {
        SentDate::Whole(n) => {
            if 1 <= *n && *n <= 31 {
                return Ok(*n as u8);
            }
            let text = decimal_text(*n);
            Err(ClixError::Usage(cat3("bad date '", &text, "' (use 1–31)")))
        },
        SentDate::Other(text) => Err(
            ClixError::Usage(cat3("bad date '", text, "' (use 1–31)")),
        ),
    }
}

/// The weekdays from `i` on; an item that is no text is no weekday.
pub open spec fn sent_days(days: Seq<Option<Seq<char>>>, i: int, read: Seq<Weekday>) -> Outcome<
    Seq<Weekday>,
>
    decreases days.len() - i,
{
    if i >= days.len() {
        Ok(read)
    } else {
        match days[i] {
            None => Err(ErrorModel::Usage("unknown weekday (use mon..sun)"@)),
            Some(text) => match weekday_of(text) {
                Ok(day) => sent_days(days, i + 1, read.push(day)),
                Err(e) => Err(e),
            },
        }
    }
}

pub open spec fn sent_dates(dates: Seq<SentDateModel>, i: int, read: Seq<u8>) -> Outcome<Seq<u8>>
    decreases dates.len() - i,
{
    if i >= dates.len() {
        Ok(read)
    } else {
        match sent_date(dates[i]) {
            Ok(n) => sent_dates(dates, i + 1, read.push(n)),
            Err(e) => Err(e),
        }
    }
}

pub open spec fn working_days() -> Seq<Weekday> {
    seq![Weekday::Mon, Weekday::Tue, Weekday::Wed, Weekday::Thu, Weekday::Fri]
}

/// A time of day from text, where there is one.
pub open spec fn sent_time(text: Option<Seq<char>>) -> Outcome<Option<TimeOfDayModel>> {
    match text {
        None => Ok(None),
        Some(text) => match values::ampm_outcome(text) {
            Ok(minutes) => Ok(Some(TimeOfDayModel { seconds: (minutes * 60) as u32, nanos: 0 })),
            Err(e) => Err(e),
        },
    }
}

/// The schedule of a request: none where it names nothing.
pub open spec fn schedule_of(
    weekdays: bool,
    days: Seq<Option<Seq<char>>>,
    dates: Seq<SentDateModel>,
    from: Option<Seq<char>>,
    to: Option<Seq<char>>,
) -> Outcome<Option<ScheduleModel>> {
    if weekdays && days.len() > 0 {
        Err(ErrorModel::Usage("use --days or --weekdays, not both"@))
    } else {
        let named = if weekdays {
            working_days()
        } else {
            Seq::empty()
        };
        match sent_days(days, 0, named) {
            Err(e) => Err(e),
            Ok(days) => match sent_dates(dates, 0, Seq::empty()) {
                Err(e) => Err(e),
                Ok(dates) => match sent_time(from) {
                    Err(e) => Err(e),
                    Ok(from) => match sent_time(to) {
                        Err(e) => Err(e),
                        Ok(to) => if days.len() == 0 && dates.len() == 0 && from is None && to is None {
                            Ok(None)
                        } else {
                            Ok(Some(ScheduleModel { days, dates, from, to }))
                        },
                    },
                },
            },
        }
    }
}

fn read_time(text: Option<&str>) -> (result: Result<Option<TimeOfDay>>)
    ensures
        error::outcome(result) == sent_time(
            match text {
                Some(text) => Some(text@),
                None => None,
            },
        ),
{
    match text {
        None => Ok(None),
        Some(text) => match parse_ampm(text) {
            Ok(minutes) => Ok(Some(TimeOfDay { seconds: minutes * 60, nanos: 0 })),
            Err(e) => Err(e),
        },
    }
}

fn read_days(days: &Vec<Option<String>>, weekdays: bool) -> (result: Result<Vec<Weekday>>)
    ensures
        error::outcome(result) == sent_days(
            days.deep_view(),
            0,
            if weekdays {
                working_days()
            } else {
                Seq::empty()
            },
        ),
{
    let ghost view = days.deep_view();
    let mut read: Vec<Weekday> = Vec::new();
    if weekdays {
        read.push(Weekday::Mon);
        read.push(Weekday::Tue);
        read.push(Weekday::Wed);
        read.push(Weekday::Thu);
        read.push(Weekday::Fri);
        assert(read.deep_view() =~= working_days());
    } else {
        assert(read.deep_view() =~= Seq::<Weekday>::empty());
    }
    let ghost named = read.deep_view();
    let mut i: usize = 0;
    while i < days.len()
        invariant
            i <= days.len(),
            view == days.deep_view(),
            sent_days(view, 0, named) == sent_days(view, i as int, read.deep_view()),
            named == if weekdays {
                working_days()
            } else {
                Seq::empty()
            },
        decreases days.len() - i,
    {
        let ghost before = read.deep_view();
        assert(view[i as int] == days@[i as int].deep_view());
        match &days[i] {
            None => return Err(usage("unknown weekday (use mon..sun)")),
            Some(text) => match parse_weekday(text) {
                Ok(day) => {
                    read.push(day);
                    assert(read.deep_view() =~= before.push(day));
                },
                Err(e) => return Err(e),
            },
        }
        i += 1;
    }
    Ok(read)
}

fn read_dates(dates: &Vec<SentDate>) -> (result: Result<Vec<u8>>)
    ensures
        crate::history::wire::bytes_outcome(result) == sent_dates(
            dates.deep_view(),
            0,
            Seq::empty(),
        ),
{
    let ghost view = dates.deep_view();
    let mut read: Vec<u8> = Vec::new();
    let mut i: usize = 0;
    while i < dates.len()
        invariant
            i <= dates.len(),
            view == dates.deep_view(),
            sent_dates(view, 0, Seq::empty()) == sent_dates(view, i as int, read@),
        decreases dates.len() - i,
    {
        assert(view[i as int] == dates@[i as int]@);
        match read_date(&dates[i]) {
            Ok(n) => read.push(n),
            Err(e) => return Err(e),
        }
        i += 1;
    }
    Ok(read)
}

pub fn rpc_schedule(
    weekdays: bool,
    days: &Vec<Option<String>>,
    dates: &Vec<SentDate>,
    from: Option<&str>,
    to: Option<&str>,
) -> (result: Result<Option<Schedule>>)
    ensures
        error::outcome(result) == schedule_of(
            weekdays,
            days.deep_view(),
            dates.deep_view(),
            match from {
                Some(text) => Some(text@),
                None => None,
            },
            match to {
                Some(text) => Some(text@),
                None => None,
            },
        ),
{
    if weekdays && days.len() > 0 {
        return Err(usage("use --days or --weekdays, not both"));
    }
    let days = match read_days(days, weekdays) {
        Ok(days) => days,
        Err(e) => return Err(e),
    };
    let dates = match read_dates(dates) {
        Ok(dates) => dates,
        Err(e) => return Err(e),
    };
    let from = match read_time(from) {
        Ok(from) => from,
        Err(e) => return Err(e),
    };
    let to = match read_time(to) {
        Ok(to) => to,
        Err(e) => return Err(e),
    };
    if days.len() == 0 && dates.len() == 0 && from.is_none() && to.is_none() {
        return Ok(None);
    }
    Ok(Some(Schedule { days, dates, from, to }))
}

/// Where a command runs.
#[derive(Debug, Clone, PartialEq, Eq)]
pub enum ExecRoute {
    /// On this machine.
    Here,
    /// On the paired machine of that name.
    There(String),
    /// Nowhere, and why.
    Denied(String),
}

#[verifier::ext_equal]
pub enum ExecRouteModel {
    Here,
    There(Seq<char>),
    Denied(Seq<char>),
}

impl View for ExecRoute {
    type V = ExecRouteModel;

    open spec fn view(&self) -> ExecRouteModel {
        match self {
            ExecRoute::Here => ExecRouteModel::Here,
            ExecRoute::There(body) => ExecRouteModel::There(body@),
            ExecRoute::Denied(reason) => ExecRouteModel::Denied(reason@),
        }
    }
}

impl DeepView for ExecRoute {
    type V = ExecRouteModel;

    open spec fn deep_view(&self) -> ExecRouteModel {
        self@
    }
}

/// A command stays on the machine it names; an unknown machine runs nothing.
pub open spec fn exec_route_outcome(
    s: StoreModel,
    body: Option<Seq<char>>,
    argv: Seq<Seq<char>>,
) -> Outcome<ExecRouteModel> {
    match body {
        None => Err(ErrorModel::Usage("usage: clix <body> <cmd>…"@)),
        Some(body) => if argv.len() == 0 {
            Err(ErrorModel::Usage("usage: clix <body> <cmd>…"@))
        } else if body == s.body_name {
            Ok(ExecRouteModel::Here)
        } else {
            match search::found(s.peers, wire::peer_named(body)) {
                Some(peer) if peer.addr is Some => Ok(ExecRouteModel::There(body)),
                _ => Ok(ExecRouteModel::Denied(body + " is not this body"@)),
            }
        },
    }
}

pub fn exec_route(store: &Store, body: Option<&str>, argv: &Vec<String>) -> (result: Result<ExecRoute>)
    ensures
        error::outcome(result) == exec_route_outcome(
            store@,
            match body {
                Some(body) => Some(body@),
                None => None,
            },
            argv.deep_view(),
        ),
{
    let body = match body {
        Some(body) => body,
        None => return Err(usage("usage: clix <body> <cmd>…")),
    };
    if argv.len() == 0 {
        return Err(usage("usage: clix <body> <cmd>…"));
    }
    if text_same(body, &store.body_name) {
        return Ok(ExecRoute::Here);
    }
    if let Some(at) = find_peer(&store.peers, body) {
        assert(store@.peers[at as int] == store.peers@[at as int]@);
        if store.peers[at].addr.is_some() {
            return Ok(ExecRoute::There(owned(body)));
        }
    }
    Ok(ExecRoute::Denied(cat2(body, " is not this body")))
}

/// Where a request for a tool goes: to a peer, or (none) to this machine itself.
pub open spec fn request_route_outcome(
    s: StoreModel,
    body: Seq<char>,
    tool: Option<Seq<char>>,
) -> Outcome<Option<DeliveryModel>> {
    if !(tool is Some && tool->0.len() > 0) {
        Err(ErrorModel::Usage("usage: clix request <body> <tool>"@))
    } else if body.len() == 0 || body == s.body_name {
        Ok(None)
    } else {
        match request::route(s, body) {
            Ok(delivery) => Ok(Some(delivery)),
            Err(_) => Err(ErrorModel::Usage(body + " is not this body"@)),
        }
    }
}

pub fn request_route(store: &Store, body: &str, tool: Option<&str>) -> (result: Result<Option<Delivery>>)
    ensures
        error::outcome(result) == request_route_outcome(
            store@,
            body@,
            match tool {
                Some(tool) => Some(tool@),
                None => None,
            },
        ),
{
    let named: bool = match tool {
        Some(tool) => !tool.is_empty(),
        None => false,
    };
    if !named {
        return Err(usage("usage: clix request <body> <tool>"));
    }
    if body.is_empty() || text_same(body, &store.body_name) {
        return Ok(None);
    }
    match find_route(store, body) {
        Ok(delivery) => Ok(Some(delivery)),
        Err(_) => Err(ClixError::Usage(cat2(body, " is not this body"))),
    }
}

/// A request for another machine, noted until it is delivered. It runs nothing.
pub fn queue_request(store: &mut Store, id: String, body: String, tool: String)
    ensures
        final(store)@ == (StoreModel {
            outbound_requests: old(store)@.outbound_requests.push(
                OutboundRequestModel { id: id@, body: body@, tool: tool@, waiting: false, error: None },
            ),
            ..old(store)@
        }),
{
    let ghost start = store@.outbound_requests;
    let request = OutboundRequest { id, body: BodyId(body), tool, waiting: false, error: None };
    let ghost added = request@;
    store.outbound_requests.push(request);
    assert(store.outbound_requests.deep_view() =~= start.push(added));
}

/// How often a command that is not waited for is looked at before it is told as
/// it stands.
pub const SOON_LOOKS: u32 = 20;

/// Whether a command that is not waited for is told now: it has left its queue,
/// or it was looked at often enough.
pub fn told_soon(job: &Job, looks: u32) -> (yes: bool)
    ensures
        yes == (!(job@.status is Queued) || looks >= SOON_LOOKS),
{
    let queued: bool = match &job.status {
        JobStatus::Queued => true,
        _ => false,
    };
    !queued || looks >= SOON_LOOKS
}

/// What a client that waits for a command is told.
#[derive(Debug, Clone, Copy, PartialEq, Eq, Structural)]
pub enum WaitStep {
    /// The outcome; the wait is over.
    Answer,
    /// That the command waits, once.
    Tell,
    /// Nothing yet.
    Wait,
}

pub open spec fn wait_answer(status: JobStatusModel, told: bool) -> WaitStep {
    if job::terminal(status) {
        WaitStep::Answer
    } else if !told && (status is WaitingBody || status is WaitingCapacity) {
        WaitStep::Tell
    } else {
        WaitStep::Wait
    }
}

/// `told` says that the client already knows that the command waits.
pub fn wait_step(job: &Job, told: bool) -> (step: WaitStep)
    ensures
        step == wait_answer(job@.status, told),
{
    if is_terminal(&job.status) {
        return WaitStep::Answer;
    }
    match &job.status {
        JobStatus::WaitingBody => if told {
            WaitStep::Wait
        } else {
            WaitStep::Tell
        },
        JobStatus::WaitingCapacity => if told {
            WaitStep::Wait
        } else {
            WaitStep::Tell
        },
        _ => WaitStep::Wait,
    }
}

/// A client that waits hears at most once that its command waits, and hears the
/// outcome as soon as there is one.
pub proof fn law_waiting_is_told_once(status: JobStatusModel)
    ensures
        wait_answer(status, true) != WaitStep::Tell,
        wait_answer(status, true) == WaitStep::Answer <==> job::terminal(status),
        wait_answer(status, false) == WaitStep::Answer <==> job::terminal(status),
{
}

/// A command that this machine asks for, before it has gone anywhere.
pub open spec fn queued_job(
    s: StoreModel,
    body: Seq<char>,
    argv: Seq<Seq<char>>,
    id: Seq<char>,
) -> JobModel {
    JobModel {
        id,
        body,
        argv,
        from: s.body_name,
        status: JobStatusModel::Queued,
        stdout: Seq::empty(),
        stderr: Seq::empty(),
    }
}

pub fn queue_job(store: &Store, body: &str, argv: &Vec<String>, id: String) -> (job: Job)
    ensures
        job@ == queued_job(store@, body@, argv.deep_view(), id@),
{
    let job = Job {
        id,
        body: BodyId(owned(body)),
        argv: argv.dup(),
        from: BodyId(store.body_name.dup()),
        status: JobStatus::Queued,
        stdout: Vec::new(),
        stderr: Vec::new(),
    };
    assert(job.stdout@ =~= Seq::empty());
    assert(job.stderr@ =~= Seq::empty());
    job
}

/// A second attempt is a new job that names the first.
pub open spec fn retried(s: StoreModel, id: Seq<char>, fresh_id: Seq<char>) -> (
    StoreModel,
    Outcome<JobModel>,
) {
    match search::found(s.jobs, job::job_with_id(id)) {
        None => (s, Err(ErrorModel::Usage("unknown job "@ + id))),
        Some(first) => if first.from != s.body_name {
            (s, Err(ErrorModel::Usage("run clix job retry on the machine that originally asked"@)))
        } else {
            let job = queued_job(s, first.body, first.argv, fresh_id);
            (
                StoreModel {
                    jobs: crate::store::with_job(s.jobs, job),
                    retry_links: table::stored(s.retry_links, fresh_id, id),
                    ..s
                },
                Ok(job),
            )
        },
    }
}

pub fn retry_job(store: &mut Store, id: &str, fresh_id: String) -> (result: Result<Job>)
    ensures
        (final(store)@, error::outcome(result)) == retried(old(store)@, id@, fresh_id@),
{
    let at: usize = match find_job(&store.jobs, id) {
        Some(at) => at,
        None => return Err(ClixError::Usage(cat2("unknown job ", id))),
    };
    assert(store@.jobs[at as int] == store.jobs@[at as int]@);
    if !store.jobs[at].from.0.same(&store.body_name) {
        return Err(usage("run clix job retry on the machine that originally asked"));
    }
    let body = store.jobs[at].body.0.dup();
    let argv = store.jobs[at].argv.dup();
    let job = queue_job(store, &body, &argv, fresh_id.dup());
    store.retry_links.put(fresh_id, owned(id));
    store.put_job(job.dup());
    Ok(job)
}

/// One stream of a finished job, while its bytes are kept.
pub fn saved_output(job: Option<&Job>, available: bool, stderr: bool) -> (result: Result<Vec<u8>>)
    ensures
        crate::history::wire::bytes_outcome(result) == match job {
            Some(job) if available => Ok::<Seq<u8>, ErrorModel>(
                if stderr {
                    job@.stderr
                } else {
                    job@.stdout
                },
            ),
            Some(_) => Err::<Seq<u8>, ErrorModel>(
                ErrorModel::Io("saved output is not available on this machine"@),
            ),
            None => Err::<Seq<u8>, ErrorModel>(ErrorModel::Usage("unknown job"@)),
        },
{
    match job {
        Some(job) => {
            if !available {
                return Err(ClixError::Io(owned("saved output is not available on this machine")));
            }
            if stderr {
                Ok(crate::data::bytes_dup(&job.stderr))
            } else {
                Ok(crate::data::bytes_dup(&job.stdout))
            }
        },
        None => Err(usage("unknown job")),
    }
}

/// A page of retained versions starts after a recovery ID, or at the beginning.
pub fn after_field(present: bool, text: Option<String>) -> (result: Result<Option<String>>)
    ensures
        error::outcome(result) == if present && text.deep_view() is None {
            Err::<Option<Seq<char>>, ErrorModel>(
                ErrorModel::Usage("after must be a recovery ID"@),
            )
        } else {
            Ok::<Option<Seq<char>>, ErrorModel>(text.deep_view())
        },
{
    if present && text.is_none() {
        return Err(usage("after must be a recovery ID"));
    }
    Ok(text)
}

} // verus!
