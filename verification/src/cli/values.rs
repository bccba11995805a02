//! Values of options: weekdays, dates, times of day and durations.

use vstd::prelude::*;

use crate::error;
use crate::error::{usage, ClixError, ErrorModel, Outcome, Result};
use crate::scan;
use crate::scan::{before_suffix, parse_number, text_of, to_lower, trim};
use crate::schedule::Moments;
use crate::text;
use crate::text::{cat3, chars_of, text_bytes, text_same};
use crate::types::{Timestamp, TimestampModel};

verus! {

pub open spec fn weekday_name(name: Seq<char>) -> bool {
    name == "mon"@ || name == "tue"@ || name == "wed"@ || name == "thu"@ || name == "fri"@ || name
        == "sat"@ || name == "sun"@
}

fn is_weekday_name(name: &str) -> (yes: bool)
    ensures
        yes == weekday_name(name@),
{
    text_same(name, "mon") || text_same(name, "tue") || text_same(name, "wed") || text_same(
        name,
        "thu",
    ) || text_same(name, "fri") || text_same(name, "sat") || text_same(name, "sun")
}

pub open spec fn bad_weekday(day: Seq<char>) -> ErrorModel {
    ErrorModel::Usage("unknown weekday '"@ + day + "' (use mon..sun)"@)
}

/// The weekdays from `i` on, in small letters.
pub open spec fn days_from(days: Seq<Seq<char>>, i: int, read: Seq<Seq<char>>) -> Outcome<
    Seq<Seq<char>>,
>
    decreases days.len() - i,
{
    if i >= days.len() {
        Ok(read)
    } else if !weekday_name(scan::lowered(scan::trimmed(days[i]))) {
        Err(bad_weekday(days[i]))
    } else {
        days_from(days, i + 1, read.push(scan::lowered(scan::trimmed(days[i]))))
    }
}

pub fn validate_days(days: &Vec<String>) -> (result: Result<Vec<String>>)
    ensures
        error::outcome(result) == days_from(days.deep_view(), 0, Seq::empty()),
{
    let ghost view = days.deep_view();
    let mut read: Vec<String> = Vec::new();
    let mut i: usize = 0;
    assert(read.deep_view() =~= Seq::<Seq<char>>::empty());
    while i < days.len()
        invariant
            i <= days.len(),
            view == days.deep_view(),
            days_from(view, 0, Seq::empty()) == days_from(view, i as int, read.deep_view()),
        decreases days.len() - i,
    {
        let ghost before = read.deep_view();
        assert(view[i as int] == days@[i as int]@);
        let lower = to_lower(&trim(&days[i]));
        if !is_weekday_name(&lower) {
            return Err(
                ClixError::Usage(cat3("unknown weekday '", &days[i], "' (use mon..sun)")),
            );
        }
        let ghost name = lower@;
        read.push(lower);
        assert(read.deep_view() =~= before.push(name));
        i += 1;
    }
    Ok(read)
}

pub open spec fn bad_date(date: Seq<char>) -> ErrorModel {
    ErrorModel::Usage("bad date '"@ + date + "' (use 1–31)"@)
}

/// The dates from `i` on, as days of the month.
pub open spec fn dates_from(dates: Seq<Seq<char>>, i: int, read: Seq<u8>) -> std::result::Result<
    Seq<u8>,
    ErrorModel,
>
    decreases dates.len() - i,
{
    if i >= dates.len() {
        Ok(read)
    } else {
        match scan::bounded_number(scan::trimmed(dates[i]), 31) {
            Some(n) if n >= 1 => dates_from(dates, i + 1, read.push(n as u8)),
            _ => Err(bad_date(dates[i])),
        }
    }
}

pub fn parse_dates(dates: &Vec<String>) -> (result: Result<Vec<u8>>)
    ensures
        crate::history::wire::bytes_outcome(result) == dates_from(
            dates.deep_view(),
            0,
            Seq::empty(),
        ),
{
    let ghost view = dates.deep_view();
    let mut read: Vec<u8> = Vec::new();
    let mut i: usize = 0;
    while i < dates.len()
        invariant
            i <= dates.len(),
            view == dates.deep_view(),
            dates_from(view, 0, Seq::empty()) == dates_from(view, i as int, read@),
        decreases dates.len() - i,
    {
        assert(view[i as int] == dates@[i as int]@);
        let n: u64 = match parse_number(&trim(&dates[i]), 31) {
            Some(n) => n,
            None => 0,
        };
        if n == 0 {
            return Err(ClixError::Usage(cat3("bad date '", &dates[i], "' (use 1–31)")));
        }
        read.push(n as u8);
        i += 1;
    }
    Ok(read)
}

pub open spec fn bad_time(time: Seq<char>) -> ErrorModel {
    ErrorModel::Usage("bad time '"@ + time + "' (use am/pm, e.g. 5pm)"@)
}

/// The hour of the day from a twelve-hour clock.
pub open spec fn hour24(hour: nat, pm: bool) -> nat {
    if hour == 12 {
        if pm {
            12
        } else {
            0
        }
    } else if pm {
        hour + 12
    } else {
        hour
    }
}

/// Minutes since midnight from `9am` / `5pm`.
pub open spec fn ampm_outcome(text: Seq<char>) -> Outcome<u32> {
    let s = scan::lowered(scan::trimmed(text));
    let pm = scan::ends(s, "pm"@);
    if !pm && !scan::ends(s, "am"@) {
        Err(bad_time(s))
    } else {
        match scan::bounded_number(s.take(s.len() - 2), 12) {
            Some(hour) if hour >= 1 => Ok((60 * hour24(hour, pm)) as u32),
            _ => Err(bad_time(s)),
        }
    }
}

/// Minutes since midnight from `9am` / `5pm`. Hours only; no 24-hour clock.
pub fn parse_ampm(text: &str) -> (result: Result<u32>)
    ensures
        error::outcome(result) == ampm_outcome(text@),
        result matches Ok(minutes) ==> minutes < 1440,
{
    proof {
        reveal_strlit("pm");
        reveal_strlit("am");
    }
    let s = to_lower(&trim(text));
    let (digits, pm) = match before_suffix(&s, "pm") {
        Some(digits) => (digits, true),
        None => match before_suffix(&s, "am") {
            Some(digits) => (digits, false),
            None => return Err(
                ClixError::Usage(cat3("bad time '", &s, "' (use am/pm, e.g. 5pm)")),
            ),
        },
    };
    let hour: u64 = match parse_number(&digits, 12) {
        Some(hour) => hour,
        None => 0,
    };
    if hour == 0 {
        return Err(ClixError::Usage(cat3("bad time '", &s, "' (use am/pm, e.g. 5pm)")));
    }
    let hour: u32 = hour as u32;
    let hour: u32 = if hour == 12 {
        if pm {
            12
        } else {
            0
        }
    } else if pm {
        hour + 12
    } else {
        hour
    };
    Ok(hour * 60)
}

pub fn validate_ampm(text: &str) -> (result: Result<()>)
    ensures
        error::outcome(result) == match ampm_outcome(text@) {
            Ok(_) => Ok::<(), ErrorModel>(()),
            Err(e) => Err::<(), ErrorModel>(e),
        },
{
    match parse_ampm(text) {
        Ok(_) => Ok(()),
        Err(e) => Err(e),
    }
}

pub open spec fn bad_duration(text: Seq<char>) -> ErrorModel {
    ErrorModel::Usage("bad duration '"@ + text + "' (e.g. 2h, 30m)"@)
}

/// How many seconds a unit of time has.
pub open spec fn unit_seconds(unit: char) -> Option<nat> {
    if unit == 's' {
        Some(1)
    } else if unit == 'm' {
        Some(60)
    } else if unit == 'h' {
        Some(3600)
    } else if unit == 'd' {
        Some(86400)
    } else {
        None
    }
}

/// Seconds from a number and a unit.
pub open spec fn duration_outcome(text: Seq<char>) -> Outcome<u64> {
    let s = scan::lowered(scan::trimmed(text));
    if text::byte_len(s) < 2 {
        Err(ErrorModel::Usage("bad duration (e.g. 2h, 30m)"@))
    } else {
        match scan::bounded_number(s.drop_last(), u64::MAX as nat) {
            None => Err(bad_duration(s)),
            Some(n) => match unit_seconds(s.last()) {
                None => Err(bad_duration(s)),
                Some(each) => if n * each > u64::MAX {
                    Err(ErrorModel::Usage("duration too large"@))
                } else {
                    Ok((n * each) as u64)
                },
            },
        }
    }
}

/// Seconds from a duration such as `2h` or `30m`.
pub fn parse_duration(text: &str) -> (result: Result<u64>)
    ensures
        error::outcome(result) == duration_outcome(text@),
{
    let s = to_lower(&trim(text));
    if text_bytes(&s) < 2 {
        return Err(usage("bad duration (e.g. 2h, 30m)"));
    }
    let chars = chars_of(&s);
    proof {
        if chars.len() == 0 {
            assert(s@ =~= Seq::<char>::empty());
            assert(text::byte_len(s@) == 0) by {
                reveal_with_fuel(vstd::utf8::encode_utf8, 1);
            }
        }
    }
    let count = text_of(&chars, 0, chars.len() - 1);
    assert(count@ =~= s@.drop_last());
    let n: u64 = match parse_number(&count, u64::MAX) {
        Some(n) => n,
        None => return Err(ClixError::Usage(cat3("bad duration '", &s, "' (e.g. 2h, 30m)"))),
    };
    let unit = chars[chars.len() - 1];
    let each: u64 = if unit == 's' {
        1
    } else if unit == 'm' {
        60
    } else if unit == 'h' {
        3600
    } else if unit == 'd' {
        86400
    } else {
        return Err(ClixError::Usage(cat3("bad duration '", &s, "' (e.g. 2h, 30m)")));
    };
    match n.checked_mul(each) {
        Some(secs) => Ok(secs),
        None => Err(usage("duration too large")),
    }
}

pub open spec fn later(a: (i64, u32), b: (i64, u32)) -> bool {
    a.0 > b.0 || (a.0 == b.0 && a.1 > b.1)
}

pub open spec fn unresolved(text: Seq<char>) -> ErrorModel {
    ErrorModel::Usage("could not resolve local time '"@ + text + "'"@)
}

pub open spec fn stamp(moment: (i64, u32)) -> TimestampModel {
    TimestampModel { secs: moment.0, nanos: moment.1 }
}

/// The next time that a time of day comes round: today, or tomorrow if it is
/// already past.
pub open spec fn until_outcome(text: Seq<char>, moments: Moments) -> Outcome<TimestampModel> {
    match moments.today {
        Some(Some(today)) if later(today, moments.now) => Ok(stamp(today)),
        Some(Some(_)) => match moments.tomorrow {
            None => Err(ErrorModel::Usage("date overflow"@)),
            Some(None) => Err(unresolved(text)),
            Some(Some(tomorrow)) => Ok(stamp(tomorrow)),
        },
        _ => Err(unresolved(text)),
    }
}

/// When `--until` ends, given what the local calendar says.
pub fn resolve_until(text: &str, moments: &Moments) -> (result: Result<Timestamp>)
    ensures
        error::outcome(result) == until_outcome(text@, *moments),
{
    let now = moments.now;
    match moments.today {
        Some(Some(today)) => if today.0 > now.0 || (today.0 == now.0 && today.1 > now.1) {
            Ok(Timestamp { secs: today.0, nanos: today.1 })
        } else {
            match moments.tomorrow {
                None => Err(usage("date overflow")),
                Some(None) => Err(
                    ClixError::Usage(cat3("could not resolve local time '", text, "'")),
                ),
                Some(Some(tomorrow)) => Ok(Timestamp { secs: tomorrow.0, nanos: tomorrow.1 }),
            }
        },
        _ => Err(ClixError::Usage(cat3("could not resolve local time '", text, "'"))),
    }
}

} // verus!
