//! What the sidecar keeps: machines, grants, jobs and requests.

use vstd::prelude::*;

use crate::data::{bytes_dup, Data};
use crate::text::bytes_same;

verus! {

/// Display name, unique in the pair (`laptop`, `server`).
#[derive(Debug, Clone, PartialEq, Eq, Hash)]
pub struct BodyId(pub String);

impl View for BodyId {
    type V = Seq<char>;

    open spec fn view(&self) -> Seq<char> {
        self.0@
    }
}

impl DeepView for BodyId {
    type V = Seq<char>;

    open spec fn deep_view(&self) -> Seq<char> {
        self.0@
    }
}

impl Data for BodyId {
    fn dup(&self) -> (copy: Self) {
        BodyId(self.0.dup())
    }

    fn same(&self, other: &Self) -> (equal: bool) {
        self.0.same(&other.0)
    }
}

/// Owner public identity. Pairing fills this in later.
#[derive(Debug, Clone, PartialEq, Eq, Hash)]
pub struct OwnerId(pub Vec<u8>);

impl View for OwnerId {
    type V = Seq<u8>;

    open spec fn view(&self) -> Seq<u8> {
        self.0@
    }
}

#[derive(Debug, Clone, Copy, PartialEq, Eq, Structural)]
pub enum Weekday {
    Mon,
    Tue,
    Wed,
    Thu,
    Fri,
    Sat,
    Sun,
}

impl DeepView for Weekday {
    type V = Weekday;

    open spec fn deep_view(&self) -> Weekday {
        *self
    }
}

impl Data for Weekday {
    fn dup(&self) -> (copy: Self) {
        *self
    }

    fn same(&self, other: &Self) -> (equal: bool) {
        *self == *other
    }
}

/// A time of day on the local clock.
#[derive(Debug, Clone, PartialEq, Eq)]
pub struct TimeOfDay {
    /// Whole seconds since midnight.
    pub seconds: u32,
    /// The part of a second; above 999999999 within a leap second.
    pub nanos: u32,
}

/// What a `TimeOfDay` says.
#[verifier::ext_equal]
pub struct TimeOfDayModel {
    pub seconds: u32,
    pub nanos: u32,
}

impl View for TimeOfDay {
    type V = TimeOfDayModel;

    open spec fn view(&self) -> TimeOfDayModel {
        TimeOfDayModel {
            seconds: self.seconds,
            nanos: self.nanos,
        }
    }
}

impl DeepView for TimeOfDay {
    type V = TimeOfDayModel;

    open spec fn deep_view(&self) -> TimeOfDayModel {
        self@
    }
}

impl Data for TimeOfDay {
    fn dup(&self) -> (copy: Self) {
        TimeOfDay {
            seconds: self.seconds,
            nanos: self.nanos,
        }
    }

    fn same(&self, other: &Self) -> (equal: bool) {
        self.seconds == other.seconds
            && self.nanos == other.nanos
    }
}

/// A moment as the local calendar and clock show it.
#[derive(Debug, Clone, PartialEq, Eq)]
pub struct LocalTime {
    /// The same moment, counted from the epoch.
    pub instant: Timestamp,
    pub weekday: Weekday,
    /// Day of the month, from 1.
    pub day: u8,
    pub time: TimeOfDay,
}

/// What a `LocalTime` says.
#[verifier::ext_equal]
pub struct LocalTimeModel {
    pub instant: TimestampModel,
    pub weekday: Weekday,
    pub day: u8,
    pub time: TimeOfDayModel,
}

impl View for LocalTime {
    type V = LocalTimeModel;

    open spec fn view(&self) -> LocalTimeModel {
        LocalTimeModel {
            instant: self.instant.deep_view(),
            weekday: self.weekday,
            day: self.day,
            time: self.time.deep_view(),
        }
    }
}

impl DeepView for LocalTime {
    type V = LocalTimeModel;

    open spec fn deep_view(&self) -> LocalTimeModel {
        self@
    }
}

impl Data for LocalTime {
    fn dup(&self) -> (copy: Self) {
        LocalTime {
            instant: self.instant.dup(),
            weekday: self.weekday,
            day: self.day,
            time: self.time.dup(),
        }
    }

    fn same(&self, other: &Self) -> (equal: bool) {
        self.instant.same(&other.instant)
            && self.weekday == other.weekday
            && self.day == other.day
            && self.time.same(&other.time)
    }
}

/// Time since the Unix epoch; before it, the seconds are negative.
#[derive(Debug, Clone, PartialEq, Eq)]
pub struct Timestamp {
    pub secs: i64,
    pub nanos: u32,
}

/// What a `Timestamp` says.
#[verifier::ext_equal]
pub struct TimestampModel {
    pub secs: i64,
    pub nanos: u32,
}

impl View for Timestamp {
    type V = TimestampModel;

    open spec fn view(&self) -> TimestampModel {
        TimestampModel {
            secs: self.secs,
            nanos: self.nanos,
        }
    }
}

impl DeepView for Timestamp {
    type V = TimestampModel;

    open spec fn deep_view(&self) -> TimestampModel {
        self@
    }
}

impl Data for Timestamp {
    fn dup(&self) -> (copy: Self) {
        Timestamp {
            secs: self.secs,
            nanos: self.nanos,
        }
    }

    fn same(&self, other: &Self) -> (equal: bool) {
        self.secs == other.secs
            && self.nanos == other.nanos
    }
}

/// Repeating window on this box's local clock.
/// 
/// Calendar: empty `days` and `dates` means every day. If both are set, either
/// match is enough. Then `from`/`to` (if set) must contain local time.
#[derive(Debug, Clone, PartialEq, Eq)]
pub struct Schedule {
    pub days: Vec<Weekday>,
    pub dates: Vec<u8>,
    pub from: Option<TimeOfDay>,
    pub to: Option<TimeOfDay>,
}

/// What a `Schedule` says.
#[verifier::ext_equal]
pub struct ScheduleModel {
    pub days: Seq<Weekday>,
    pub dates: Seq<u8>,
    pub from: Option<TimeOfDayModel>,
    pub to: Option<TimeOfDayModel>,
}

impl View for Schedule {
    type V = ScheduleModel;

    open spec fn view(&self) -> ScheduleModel {
        ScheduleModel {
            days: self.days.deep_view(),
            dates: self.dates@,
            from: self.from.deep_view(),
            to: self.to.deep_view(),
        }
    }
}

impl DeepView for Schedule {
    type V = ScheduleModel;

    open spec fn deep_view(&self) -> ScheduleModel {
        self@
    }
}

impl Data for Schedule {
    fn dup(&self) -> (copy: Self) {
        Schedule {
            days: self.days.dup(),
            dates: bytes_dup(&self.dates),
            from: self.from.dup(),
            to: self.to.dup(),
        }
    }

    fn same(&self, other: &Self) -> (equal: bool) {
        self.days.same(&other.days)
            && bytes_same(&self.dates, &other.dates)
            && self.from.same(&other.from)
            && self.to.same(&other.to)
    }
}

#[derive(Debug, Clone, PartialEq, Eq)]
pub struct Grant {
    pub tool: String,
    /// The executable, as an absolute path.
    pub binary: String,
    pub allow_from: Option<Vec<BodyId>>,
    pub once: bool,
    pub until: Option<Timestamp>,
    pub schedule: Option<Schedule>,
    /// A successful run consumes this grant. Interrupted runs retain the reservation.
    pub reservation: Option<String>,
    /// The exact argument lists that may follow the tool; none means any.
    pub args: Option<Vec<Vec<String>>>,
}

/// What a `Grant` says.
#[verifier::ext_equal]
pub struct GrantModel {
    pub tool: Seq<char>,
    pub binary: Seq<char>,
    pub allow_from: Option<Seq<Seq<char>>>,
    pub once: bool,
    pub until: Option<TimestampModel>,
    pub schedule: Option<ScheduleModel>,
    pub reservation: Option<Seq<char>>,
    pub args: Option<Seq<Seq<Seq<char>>>>,
}

impl View for Grant {
    type V = GrantModel;

    open spec fn view(&self) -> GrantModel {
        GrantModel {
            tool: self.tool.deep_view(),
            binary: self.binary.deep_view(),
            allow_from: self.allow_from.deep_view(),
            once: self.once,
            until: self.until.deep_view(),
            schedule: self.schedule.deep_view(),
            reservation: self.reservation.deep_view(),
            args: self.args.deep_view(),
        }
    }
}

impl DeepView for Grant {
    type V = GrantModel;

    open spec fn deep_view(&self) -> GrantModel {
        self@
    }
}

impl Data for Grant {
    fn dup(&self) -> (copy: Self) {
        Grant {
            tool: self.tool.dup(),
            binary: self.binary.dup(),
            allow_from: self.allow_from.dup(),
            once: self.once,
            until: self.until.dup(),
            schedule: self.schedule.dup(),
            reservation: self.reservation.dup(),
            args: self.args.dup(),
        }
    }

    fn same(&self, other: &Self) -> (equal: bool) {
        self.tool.same(&other.tool)
            && self.binary.same(&other.binary)
            && self.allow_from.same(&other.allow_from)
            && self.once == other.once
            && self.until.same(&other.until)
            && self.schedule.same(&other.schedule)
            && self.reservation.same(&other.reservation)
            && self.args.same(&other.args)
    }
}

#[derive(Debug, Clone, PartialEq, Eq)]
pub enum JobStatus {
    Queued,
    WaitingBody,
    WaitingCapacity,
    Running,
    Done {
        exit: i32,
    },
    Denied {
        reason: String,
    },
    Failed {
        reason: String,
    },
    Uncertain {
        reason: String,
    },
}

/// What a `JobStatus` says.
#[verifier::ext_equal]
pub enum JobStatusModel {
    Queued,
    WaitingBody,
    WaitingCapacity,
    Running,
    Done {
        exit: i32,
    },
    Denied {
        reason: Seq<char>,
    },
    Failed {
        reason: Seq<char>,
    },
    Uncertain {
        reason: Seq<char>,
    },
}

impl View for JobStatus {
    type V = JobStatusModel;

    open spec fn view(&self) -> JobStatusModel {
        match self {
            JobStatus::Queued => JobStatusModel::Queued,
            JobStatus::WaitingBody => JobStatusModel::WaitingBody,
            JobStatus::WaitingCapacity => JobStatusModel::WaitingCapacity,
            JobStatus::Running => JobStatusModel::Running,
            JobStatus::Done { exit } => JobStatusModel::Done { exit: *exit },
            JobStatus::Denied { reason } => JobStatusModel::Denied { reason: reason.deep_view() },
            JobStatus::Failed { reason } => JobStatusModel::Failed { reason: reason.deep_view() },
            JobStatus::Uncertain { reason } => JobStatusModel::Uncertain { reason: reason.deep_view() },
        }
    }
}

impl DeepView for JobStatus {
    type V = JobStatusModel;

    open spec fn deep_view(&self) -> JobStatusModel {
        self@
    }
}

impl Data for JobStatus {
    fn dup(&self) -> (copy: Self) {
        match self {
            JobStatus::Queued => JobStatus::Queued,
            JobStatus::WaitingBody => JobStatus::WaitingBody,
            JobStatus::WaitingCapacity => JobStatus::WaitingCapacity,
            JobStatus::Running => JobStatus::Running,
            JobStatus::Done { exit } => JobStatus::Done { exit: *exit },
            JobStatus::Denied { reason } => JobStatus::Denied { reason: reason.dup() },
            JobStatus::Failed { reason } => JobStatus::Failed { reason: reason.dup() },
            JobStatus::Uncertain { reason } => JobStatus::Uncertain { reason: reason.dup() },
        }
    }

    fn same(&self, other: &Self) -> (equal: bool) {
        match (self, other) {
            (JobStatus::Queued, JobStatus::Queued) => true,
            (JobStatus::WaitingBody, JobStatus::WaitingBody) => true,
            (JobStatus::WaitingCapacity, JobStatus::WaitingCapacity) => true,
            (JobStatus::Running, JobStatus::Running) => true,
            (JobStatus::Done { exit: exit_a }, JobStatus::Done { exit: exit_b }) => *exit_a == *exit_b,
            (JobStatus::Denied { reason: reason_a }, JobStatus::Denied { reason: reason_b }) => reason_a.same(reason_b),
            (JobStatus::Failed { reason: reason_a }, JobStatus::Failed { reason: reason_b }) => reason_a.same(reason_b),
            (JobStatus::Uncertain { reason: reason_a }, JobStatus::Uncertain { reason: reason_b }) => reason_a.same(reason_b),
            _ => false,
        }
    }
}

#[derive(Debug, Clone, PartialEq, Eq)]
pub struct Job {
    pub id: String,
    pub body: BodyId,
    pub argv: Vec<String>,
    pub from: BodyId,
    pub status: JobStatus,
    pub stdout: Vec<u8>,
    pub stderr: Vec<u8>,
}

/// What a `Job` says.
#[verifier::ext_equal]
pub struct JobModel {
    pub id: Seq<char>,
    pub body: Seq<char>,
    pub argv: Seq<Seq<char>>,
    pub from: Seq<char>,
    pub status: JobStatusModel,
    pub stdout: Seq<u8>,
    pub stderr: Seq<u8>,
}

impl View for Job {
    type V = JobModel;

    open spec fn view(&self) -> JobModel {
        JobModel {
            id: self.id.deep_view(),
            body: self.body.deep_view(),
            argv: self.argv.deep_view(),
            from: self.from.deep_view(),
            status: self.status.deep_view(),
            stdout: self.stdout@,
            stderr: self.stderr@,
        }
    }
}

impl DeepView for Job {
    type V = JobModel;

    open spec fn deep_view(&self) -> JobModel {
        self@
    }
}

impl Data for Job {
    fn dup(&self) -> (copy: Self) {
        Job {
            id: self.id.dup(),
            body: self.body.dup(),
            argv: self.argv.dup(),
            from: self.from.dup(),
            status: self.status.dup(),
            stdout: bytes_dup(&self.stdout),
            stderr: bytes_dup(&self.stderr),
        }
    }

    fn same(&self, other: &Self) -> (equal: bool) {
        self.id.same(&other.id)
            && self.body.same(&other.body)
            && self.argv.same(&other.argv)
            && self.from.same(&other.from)
            && self.status.same(&other.status)
            && bytes_same(&self.stdout, &other.stdout)
            && bytes_same(&self.stderr, &other.stderr)
    }
}

#[derive(Debug, Clone, PartialEq, Eq)]
pub struct Peer {
    pub name: BodyId,
    pub owner_pk: Vec<u8>,
    pub addr: Option<String>,
}

/// What a `Peer` says.
#[verifier::ext_equal]
pub struct PeerModel {
    pub name: Seq<char>,
    pub owner_pk: Seq<u8>,
    pub addr: Option<Seq<char>>,
}

impl View for Peer {
    type V = PeerModel;

    open spec fn view(&self) -> PeerModel {
        PeerModel {
            name: self.name.deep_view(),
            owner_pk: self.owner_pk@,
            addr: self.addr.deep_view(),
        }
    }
}

impl DeepView for Peer {
    type V = PeerModel;

    open spec fn deep_view(&self) -> PeerModel {
        self@
    }
}

impl Data for Peer {
    fn dup(&self) -> (copy: Self) {
        Peer {
            name: self.name.dup(),
            owner_pk: bytes_dup(&self.owner_pk),
            addr: self.addr.dup(),
        }
    }

    fn same(&self, other: &Self) -> (equal: bool) {
        self.name.same(&other.name)
            && bytes_same(&self.owner_pk, &other.owner_pk)
            && self.addr.same(&other.addr)
    }
}

#[derive(Debug, Clone, PartialEq, Eq)]
pub struct Request {
    pub id: String,
    pub from: BodyId,
    pub tool: String,
    pub once_suggested: bool,
}

/// What a `Request` says.
#[verifier::ext_equal]
pub struct RequestModel {
    pub id: Seq<char>,
    pub from: Seq<char>,
    pub tool: Seq<char>,
    pub once_suggested: bool,
}

impl View for Request {
    type V = RequestModel;

    open spec fn view(&self) -> RequestModel {
        RequestModel {
            id: self.id.deep_view(),
            from: self.from.deep_view(),
            tool: self.tool.deep_view(),
            once_suggested: self.once_suggested,
        }
    }
}

impl DeepView for Request {
    type V = RequestModel;

    open spec fn deep_view(&self) -> RequestModel {
        self@
    }
}

impl Data for Request {
    fn dup(&self) -> (copy: Self) {
        Request {
            id: self.id.dup(),
            from: self.from.dup(),
            tool: self.tool.dup(),
            once_suggested: self.once_suggested,
        }
    }

    fn same(&self, other: &Self) -> (equal: bool) {
        self.id.same(&other.id)
            && self.from.same(&other.from)
            && self.tool.same(&other.tool)
            && self.once_suggested == other.once_suggested
    }
}

/// Durable delivery of a permission request, without executing a command.
#[derive(Debug, Clone, PartialEq, Eq)]
pub struct OutboundRequest {
    pub id: String,
    pub body: BodyId,
    pub tool: String,
    pub waiting: bool,
    pub error: Option<String>,
}

/// What a `OutboundRequest` says.
#[verifier::ext_equal]
pub struct OutboundRequestModel {
    pub id: Seq<char>,
    pub body: Seq<char>,
    pub tool: Seq<char>,
    pub waiting: bool,
    pub error: Option<Seq<char>>,
}

impl View for OutboundRequest {
    type V = OutboundRequestModel;

    open spec fn view(&self) -> OutboundRequestModel {
        OutboundRequestModel {
            id: self.id.deep_view(),
            body: self.body.deep_view(),
            tool: self.tool.deep_view(),
            waiting: self.waiting,
            error: self.error.deep_view(),
        }
    }
}

impl DeepView for OutboundRequest {
    type V = OutboundRequestModel;

    open spec fn deep_view(&self) -> OutboundRequestModel {
        self@
    }
}

impl Data for OutboundRequest {
    fn dup(&self) -> (copy: Self) {
        OutboundRequest {
            id: self.id.dup(),
            body: self.body.dup(),
            tool: self.tool.dup(),
            waiting: self.waiting,
            error: self.error.dup(),
        }
    }

    fn same(&self, other: &Self) -> (equal: bool) {
        self.id.same(&other.id)
            && self.body.same(&other.body)
            && self.tool.same(&other.tool)
            && self.waiting == other.waiting
            && self.error.same(&other.error)
    }
}

/// Retained after owner approval/denial so a lost acknowledgement cannot
/// recreate a prompt for the same delivery.
#[derive(Debug, Clone, PartialEq, Eq)]
pub struct RequestReceipt {
    pub delivery_id: String,
    pub request: Request,
}

/// What a `RequestReceipt` says.
#[verifier::ext_equal]
pub struct RequestReceiptModel {
    pub delivery_id: Seq<char>,
    pub request: RequestModel,
}

impl View for RequestReceipt {
    type V = RequestReceiptModel;

    open spec fn view(&self) -> RequestReceiptModel {
        RequestReceiptModel {
            delivery_id: self.delivery_id.deep_view(),
            request: self.request.deep_view(),
        }
    }
}

impl DeepView for RequestReceipt {
    type V = RequestReceiptModel;

    open spec fn deep_view(&self) -> RequestReceiptModel {
        self@
    }
}

impl Data for RequestReceipt {
    fn dup(&self) -> (copy: Self) {
        RequestReceipt {
            delivery_id: self.delivery_id.dup(),
            request: self.request.dup(),
        }
    }

    fn same(&self, other: &Self) -> (equal: bool) {
        self.delivery_id.same(&other.delivery_id)
            && self.request.same(&other.request)
    }
}

} // verus!
