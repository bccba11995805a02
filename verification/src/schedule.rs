//! When a grant's window is open.

use chrono::{Datelike, Local, LocalResult, NaiveDate, NaiveTime, TimeZone, Timelike};
use vstd::prelude::*;

use crate::types::{
    LocalTime, LocalTimeModel, Schedule, ScheduleModel, TimeOfDay, TimeOfDayModel, Timestamp,
    TimestampModel, Weekday,
};

verus! {

/// One time of day is no later than another.
pub open spec fn no_later(a: TimeOfDayModel, b: TimeOfDayModel) -> bool {
    a.seconds < b.seconds || (a.seconds == b.seconds && a.nanos <= b.nanos)
}

/// One moment is before another.
pub open spec fn earlier(a: TimestampModel, b: TimestampModel) -> bool {
    a.secs < b.secs || (a.secs == b.secs && a.nanos < b.nanos)
}

impl ScheduleModel {
    /// Empty days and dates mean every day; else either match is enough.
    pub open spec fn calendar_open(self, weekday: Weekday, day: u8) -> bool {
        (self.days.len() == 0 && self.dates.len() == 0) || self.days.contains(weekday)
            || self.dates.contains(day)
    }

    /// From one time to the other, across midnight where the first is later.
    pub open spec fn clock_open(self, time: TimeOfDayModel) -> bool {
        match (self.from, self.to) {
            (None, None) => true,
            (Some(from), None) => no_later(from, time),
            (None, Some(to)) => no_later(time, to),
            (Some(from), Some(to)) => if no_later(from, to) {
                no_later(from, time) && no_later(time, to)
            } else {
                no_later(from, time) || no_later(time, to)
            },
        }
    }

    pub open spec fn open_at(self, now: LocalTimeModel) -> bool {
        self.calendar_open(now.weekday, now.day) && self.clock_open(now.time)
    }
}

fn is_no_later(a: &TimeOfDay, b: &TimeOfDay) -> (yes: bool)
    ensures
        yes == no_later(a@, b@),
{
    a.seconds < b.seconds || (a.seconds == b.seconds && a.nanos <= b.nanos)
}

pub fn is_earlier(a: &Timestamp, b: &Timestamp) -> (yes: bool)
    ensures
        yes == earlier(a@, b@),
{
    a.secs < b.secs || (a.secs == b.secs && a.nanos < b.nanos)
}

impl Schedule {
    pub fn allows_at(&self, now: &LocalTime) -> (open: bool)
        ensures
            open == self@.open_at(now@),
    {
        self.calendar_ok(now.weekday, now.day) && self.time_ok(&now.time)
    }

    fn calendar_ok(&self, weekday: Weekday, day: u8) -> (open: bool)
        ensures
            open == self@.calendar_open(weekday, day),
    {
        if self.days.len() == 0 && self.dates.len() == 0 {
            return true;
        }
        let ghost days = self@.days;
        let mut i: usize = 0;
        while i < self.days.len()
            invariant
                i <= self.days.len(),
                days == self@.days,
                forall|j: int| 0 <= j < i ==> days[j] != weekday,
            decreases self.days.len() - i,
        {
            assert(days[i as int] == self.days@[i as int]);
            if self.days[i] == weekday {
                assert(days.contains(weekday));
                return true;
            }
            i += 1;
        }
        assert(!days.contains(weekday));
        let mut k: usize = 0;
        while k < self.dates.len()
            invariant
                k <= self.dates.len(),
                forall|j: int| 0 <= j < k ==> self.dates@[j] != day,
            decreases self.dates.len() - k,
        {
            if self.dates[k] == day {
                assert(self.dates@.contains(day));
                return true;
            }
            k += 1;
        }
        assert(!self.dates@.contains(day));
        false
    }

    fn time_ok(&self, time: &TimeOfDay) -> (open: bool)
        ensures
            open == self@.clock_open(time@),
    {
        match (&self.from, &self.to) {
            (None, None) => true,
            (Some(from), None) => is_no_later(from, time),
            (None, Some(to)) => is_no_later(time, to),
            (Some(from), Some(to)) => if is_no_later(from, to) {
                is_no_later(from, time) && is_no_later(time, to)
            } else {
                is_no_later(from, time) || is_no_later(time, to)
            },
        }
    }
}

/// A window whose start is later than its end runs across midnight: it is closed
/// only strictly between its end and its start.
pub proof fn law_overnight_window(schedule: ScheduleModel, time: TimeOfDayModel)
    requires
        schedule.from is Some,
        schedule.to is Some,
        !no_later(schedule.from->0, schedule.to->0),
    ensures
        schedule.clock_open(time) <==> !(!no_later(time, schedule.to->0) && !no_later(
            schedule.from->0,
            time,
        )),
        schedule.clock_open(schedule.from->0),
        schedule.clock_open(schedule.to->0),
{
}

/// What a local clock shows.
#[derive(Debug, Clone, Copy)]
pub struct Clock {
    /// Seconds since the epoch.
    pub secs: i64,
    /// Nanoseconds past that second.
    pub nanos: u32,
    /// Days since Monday.
    pub weekday: u32,
    /// Day of the month, from 1.
    pub day: u32,
    /// Seconds since midnight.
    pub of_day: u32,
    /// Nanoseconds of the local second.
    pub of_second: u32,
    /// Days since the first of January of the year 1, which is day 1.
    pub date: i32,
}

/// The first and the last date of the calendar, by its number.
pub const FIRST_DATE: i32 = -95746129;

pub const LAST_DATE: i32 = 95745399;

pub open spec fn dated(date: int) -> bool {
    FIRST_DATE <= date <= LAST_DATE
}

/// A local date and the seconds since its midnight can be that moment, in seconds
/// since the epoch: no time zone is a whole day from UTC.
pub open spec fn reads(secs: i64, date: int, seconds: int) -> bool {
    -86400 < (date - 719163) * 86400 + seconds - secs < 86400
}

/// What holds of every clock, whatever the time and the time zone.
pub open spec fn consistent(clock: Clock) -> bool {
    &&& clock.secs >= 0
    &&& clock.nanos < 2_000_000_000
    &&& clock.of_second == clock.nanos
    &&& clock.of_day < 86400
    &&& dated(clock.date as int)
    &&& reads(clock.secs, clock.date as int, clock.of_day as int)
    &&& clock.weekday == (clock.date - 1) % 7
    &&& 1 <= clock.day <= 31
}

/// `chrono::Local::now`. What it shows depends on the clock and the time zone.
/// The fields agree with each other: the local date and time are less than a day
/// from the moment in UTC, and the date's number gives the day of the week. That
/// it gives the day of the month too is left unsaid.
#[verifier::external_body]
fn local_clock() -> (now: Clock)
    ensures
        consistent(now),
{
    let t = Local::now();
    Clock {
        secs: t.timestamp(),
        nanos: t.timestamp_subsec_nanos(),
        weekday: t.weekday().num_days_from_monday(),
        day: t.day(),
        of_day: t.num_seconds_from_midnight(),
        of_second: t.nanosecond(),
        date: t.date_naive().num_days_from_ce(),
    }
}

/// What the local calendar may say of a date and the seconds since its midnight.
pub open spec fn resolved(moment: Option<Option<(i64, u32)>>, date: int, seconds: int) -> bool {
    &&& moment is Some <==> dated(date)
    &&& moment matches Some(Some((secs, nanos))) ==> nanos == 0 && reads(secs, date, seconds)
}

/// `chrono::TimeZone::from_local_datetime` for `Local`, on a date and the seconds
/// since its midnight: the moment, or the first of the two that it gives, in
/// seconds and nanoseconds since the epoch. Outer `None`: no such date. Inner
/// `None`: the time zone skips that time. Which moment it is depends on the time
/// zone, but it is a whole second less than a day from the same reading in UTC.
#[verifier::external_body]
fn resolve_local(date: i32, seconds: u32) -> (moment: Option<Option<(i64, u32)>>)
    requires
        seconds < 86400,
    ensures
        resolved(moment, date as int, seconds as int),
{
    let time = NaiveTime::from_num_seconds_from_midnight_opt(seconds, 0)?;
    let local = NaiveDate::from_num_days_from_ce_opt(date)?.and_time(time);
    Some(
        match Local.from_local_datetime(&local) {
            LocalResult::Single(t) => Some((t.timestamp(), t.timestamp_subsec_nanos())),
            LocalResult::Ambiguous(t, _) => Some((t.timestamp(), t.timestamp_subsec_nanos())),
            LocalResult::None => None,
        },
    )
}

/// What the local calendar says of one time of day: the moment now, and that
/// time today and tomorrow. Outer `None` means that there is no such date,
/// inner `None` that the time is skipped on that date.
#[derive(Debug, Clone, Copy)]
pub struct Moments {
    pub now: (i64, u32),
    pub today: Option<Option<(i64, u32)>>,
    pub tomorrow: Option<Option<(i64, u32)>>,
}

/// The moments belong to a clock: its moment now, and a time of day, in minutes
/// since midnight, on its date and on the one after.
pub open spec fn moments_of(moments: Moments, clock: Clock, minutes: u32) -> bool {
    &&& consistent(clock)
    &&& moments.now == (clock.secs, clock.nanos)
    &&& resolved(moments.today, clock.date as int, minutes * 60)
    &&& resolved(moments.tomorrow, clock.date + 1, minutes * 60)
}

/// Some clock shows these moments.
pub open spec fn on_a_clock(moments: Moments, minutes: u32) -> bool {
    exists|clock: Clock| moments_of(moments, clock, minutes)
}

/// The local moments of a time of day, in minutes since midnight.
pub(crate) fn local_moments(minutes: u32) -> (moments: Moments)
    requires
        minutes < 1440,
    ensures
        on_a_clock(moments, minutes),
{
    let clock = local_clock();
    let today = resolve_local(clock.date, minutes * 60);
    let tomorrow = match clock.date.checked_add(1) {
        Some(date) => resolve_local(date, minutes * 60),
        None => None,
    };
    let moments = Moments { now: (clock.secs, clock.nanos), today, tomorrow };
    assert(moments_of(moments, clock, minutes));
    moments
}

/// The day of the week that is so many days after a Monday.
pub open spec fn weekday_of(days: u32) -> Weekday {
    if days == 0 {
        Weekday::Mon
    } else if days == 1 {
        Weekday::Tue
    } else if days == 2 {
        Weekday::Wed
    } else if days == 3 {
        Weekday::Thu
    } else if days == 4 {
        Weekday::Fri
    } else if days == 5 {
        Weekday::Sat
    } else {
        Weekday::Sun
    }
}

/// The moment that a clock shows.
pub open spec fn shown(clock: Clock) -> LocalTimeModel {
    LocalTimeModel {
        instant: TimestampModel { secs: clock.secs, nanos: clock.nanos },
        weekday: weekday_of(clock.weekday),
        day: clock.day as u8,
        time: TimeOfDayModel { seconds: clock.of_day, nanos: clock.of_second },
    }
}

/// A moment from what a clock shows.
pub fn local_time(clock: Clock) -> (now: LocalTime)
    requires
        clock.day <= 31,
    ensures
        now@ == shown(clock),
{
    let weekday = if clock.weekday == 0 {
        Weekday::Mon
    } else if clock.weekday == 1 {
        Weekday::Tue
    } else if clock.weekday == 2 {
        Weekday::Wed
    } else if clock.weekday == 3 {
        Weekday::Thu
    } else if clock.weekday == 4 {
        Weekday::Fri
    } else if clock.weekday == 5 {
        Weekday::Sat
    } else {
        Weekday::Sun
    };
    LocalTime {
        instant: Timestamp { secs: clock.secs, nanos: clock.nanos },
        weekday,
        day: clock.day as u8,
        time: TimeOfDay { seconds: clock.of_day, nanos: clock.of_second },
    }
}

/// What the local clock shows.
pub fn local_now() -> (now: LocalTime)
    ensures
        exists|clock: Clock| consistent(clock) && now@ == #[trigger] shown(clock),
{
    let clock = local_clock();
    local_time(clock)
}

} // verus!
