//! Text as it is taken apart and put together: pieces, white space, letters, numbers
//! and bytes, and the values that an owner writes with them.

use vstd::prelude::*;

use crate::cli::values;
use crate::error::{ErrorModel, Outcome};
use crate::local::owner;
use crate::local::owner::SentDateModel;
use crate::scan;
use crate::schedule::Moments;
use crate::text;
use crate::types::{ScheduleModel, TimestampModel, Weekday};

verus! {

/// Texts with a separator between each and the next.
pub open spec fn rejoined(pieces: Seq<Seq<char>>, separator: char) -> Seq<char>
    decreases pieces.len(),
{
    if pieces.len() == 0 {
        Seq::empty()
    } else if pieces.len() == 1 {
        pieces[0]
    } else {
        rejoined(pieces.drop_last(), separator).push(separator) + pieces.last()
    }
}

/// The pieces of a text hold no separator, and with the separators between them they
/// are the text.
pub proof fn law_pieces_make_the_text(s: Seq<char>, separator: char)
    ensures
        text::pieces(s, separator).len() > 0,
        rejoined(text::pieces(s, separator), separator) == s,
        forall|i: int|
            0 <= i < text::pieces(s, separator).len() ==> !(#[trigger] text::pieces(
                s,
                separator,
            )[i]).contains(separator),
    decreases s.len(),
{
    let all = text::pieces(s, separator);
    if s.len() == 0 {
        assert(all =~= seq![Seq::<char>::empty()]);
    } else {
        let head = text::pieces(s.drop_last(), separator);
        law_pieces_make_the_text(s.drop_last(), separator);
        if s.last() == separator {
            assert(all.drop_last() =~= head);
            assert(rejoined(all, separator) =~= s);
            assert forall|i: int| 0 <= i < all.len() implies !(#[trigger] all[i]).contains(
                separator,
            ) by {
                if i < head.len() {
                    assert(all[i] == head[i]);
                }
            }
        } else {
            let grown = head.last().push(s.last());
            assert(all.drop_last() =~= head.drop_last());
            if head.len() == 1 {
                assert(rejoined(all, separator) =~= s);
            } else {
                let rest = rejoined(head.drop_last(), separator).push(separator);
                assert(rest + grown =~= (rest + head.last()).push(s.last()));
                assert(rejoined(all, separator) =~= s);
            }
            assert forall|i: int| 0 <= i < all.len() implies !(#[trigger] all[i]).contains(
                separator,
            ) by {
                if i < head.len() - 1 {
                    assert(all[i] == head[i]);
                } else {
                    assert(!head[head.len() - 1].contains(separator));
                    if grown.contains(separator) {
                        let k = choose|k: int| 0 <= k < grown.len() && grown[k] == separator;
                        assert(head.last()[k] == separator);
                    }
                }
            }
        }
    }
}

/// Texts without the separator, joined with it, are the pieces of what they make.
pub proof fn law_joined_texts_are_the_pieces(texts: Seq<Seq<char>>, separator: char)
    requires
        texts.len() > 0,
        forall|i: int| 0 <= i < texts.len() ==> !(#[trigger] texts[i]).contains(separator),
    ensures
        text::pieces(rejoined(texts, separator), separator) == texts,
    decreases texts.len(),
{
    let none = Seq::<char>::empty();
    assert(!texts[texts.len() - 1].contains(separator));
    if texts.len() == 1 {
        text::lemma_pieces_word(none, texts[0], separator);
        assert(none + texts[0] =~= texts[0]);
        assert(text::pieces(texts[0], separator) =~= texts);
    } else {
        let head = texts.drop_last();
        assert forall|i: int| 0 <= i < head.len() implies !(#[trigger] head[i]).contains(
            separator,
        ) by {
            assert(!texts[i].contains(separator));
        }
        law_joined_texts_are_the_pieces(head, separator);
        let start = rejoined(head, separator).push(separator);
        assert(start.drop_last() =~= rejoined(head, separator));
        assert(text::pieces(start, separator) =~= head.push(none));
        text::lemma_pieces_word(start, texts.last(), separator);
        assert(none + texts.last() =~= texts.last());
        assert(text::pieces(start + texts.last(), separator) =~= texts);
    }
}

proof fn lemma_leading_spaces(s: Seq<char>)
    ensures
        0 <= scan::leading(s) <= s.len(),
        forall|i: int| 0 <= i < scan::leading(s) ==> scan::space(#[trigger] s[i]),
        scan::leading(s) < s.len() ==> !scan::space(s[scan::leading(s)]),
    decreases s.len(),
{
    if s.len() > 0 && scan::space(s[0]) {
        let rest = s.skip(1);
        lemma_leading_spaces(rest);
        assert forall|i: int| 0 <= i < scan::leading(s) implies scan::space(#[trigger] s[i]) by {
            if i > 0 {
                assert(s[i] == rest[i - 1]);
            }
        }
        if scan::leading(s) < s.len() {
            assert(s[scan::leading(s)] == rest[scan::leading(rest)]);
        }
    }
}

proof fn lemma_trimmed_end(s: Seq<char>)
    ensures
        scan::trimmed_end(s).len() <= s.len(),
        scan::trimmed_end(s) == s.take(scan::trimmed_end(s).len() as int),
        forall|i: int| scan::trimmed_end(s).len() <= i < s.len() ==> scan::space(#[trigger] s[i]),
        scan::trimmed_end(s).len() > 0 ==> !scan::space(scan::trimmed_end(s).last()),
    decreases s.len(),
{
    if s.len() > 0 && scan::space(s.last()) {
        let rest = s.drop_last();
        lemma_trimmed_end(rest);
        let kept = scan::trimmed_end(rest);
        assert(kept =~= s.take(kept.len() as int));
        assert forall|i: int| kept.len() <= i < s.len() implies scan::space(#[trigger] s[i]) by {
            if i < rest.len() {
                assert(s[i] == rest[i]);
            }
        }
    } else {
        assert(s.take(s.len() as int) =~= s);
    }
}

/// Trimming takes away white space at both ends, all of it, and nothing else.
pub proof fn law_trimming(s: Seq<char>)
    ensures
        ({
            let t = scan::trimmed(s);
            let from = scan::leading(s);
            &&& 0 <= from && from + t.len() <= s.len()
            &&& t == s.subrange(from, from + t.len())
            &&& forall|i: int|
                0 <= i < from || from + t.len() <= i < s.len() ==> scan::space(#[trigger] s[i])
            &&& t.len() > 0 ==> !scan::space(t[0]) && !scan::space(t.last())
        }),
{
    lemma_leading_spaces(s);
    let from = scan::leading(s);
    let rest = s.skip(from);
    lemma_trimmed_end(rest);
    let t = scan::trimmed(s);
    assert(t =~= s.subrange(from, from + t.len()));
    assert forall|i: int| 0 <= i < from || from + t.len() <= i < s.len() implies scan::space(
        #[trigger] s[i],
    ) by {
        if i >= from {
            assert(s[i] == rest[i - from]);
        }
    }
    if t.len() > 0 {
        assert(t[0] == s[from]);
    }
}

/// Small letters stay, capitals become their small letters, and the rest stays.
pub proof fn law_lowering(s: Seq<char>, i: int)
    requires
        0 <= i < s.len(),
    ensures
        scan::lowered(s).len() == s.len(),
        'A' <= s[i] <= 'Z' ==> scan::lowered(s)[i] as int == s[i] as int + 32,
        !('A' <= s[i] <= 'Z') ==> scan::lowered(s)[i] == s[i],
{
}

/// A number written out in decimal is read back as it was.
pub proof fn law_number_is_read_back(n: nat)
    ensures
        text::decimal(n).len() > 0,
        scan::digits_value(text::decimal(n)) == Some(n),
        scan::number(text::decimal(n)) == Some(n),
        forall|i: int|
            0 <= i < text::decimal(n).len() ==> '0' <= #[trigger] text::decimal(n)[i] <= '9',
        n > 0 ==> text::decimal(n)[0] != '0',
    decreases n,
{
    let all = text::decimal(n);
    if n >= 10 {
        law_number_is_read_back(n / 10);
        assert(all.drop_last() =~= text::decimal(n / 10));
        assert(10 * (n / 10) + n % 10 == n);
        assert forall|i: int| 0 <= i < all.len() implies '0' <= #[trigger] all[i] <= '9' by {
            if i < all.len() - 1 {
                assert(all[i] == text::decimal(n / 10)[i]);
            }
        }
    } else {
        assert(all.drop_last() =~= Seq::<char>::empty());
        assert(scan::digits_value(Seq::<char>::empty()) == Some(0nat));
        assert(all.last() as int == 48 + n);
    }
}

/// What is no run of digits is no number, and a bound keeps larger numbers out.
pub proof fn law_only_digits_are_numbers(s: Seq<char>, max: nat, i: int)
    ensures
        s.len() == 0 ==> scan::bounded_number(s, max) is None,
        0 < i < s.len() && !('0' <= s[i] <= '9') ==> scan::bounded_number(s, max) is None,
        s.len() > 0 && !('0' <= s[0] <= '9') && s[0] != '+' ==> scan::bounded_number(s, max)
            is None,
        scan::bounded_number(s, max) matches Some(n) ==> n <= max && scan::number(s) == Some(n),
        scan::number(s) matches Some(n) ==> n <= max ==> scan::bounded_number(s, max) == Some(n),
{
    if 0 < i < s.len() && !('0' <= s[i] <= '9') {
        lemma_not_digits(s, i);
        assert(s.skip(1)[i - 1] == s[i]);
        lemma_not_digits(s.skip(1), i - 1);
    }
    if s.len() > 0 && !('0' <= s[0] <= '9') {
        lemma_not_digits(s, 0);
    }
}

proof fn lemma_not_digits(s: Seq<char>, i: int)
    requires
        0 <= i < s.len(),
        !('0' <= s[i] <= '9'),
    ensures
        scan::digits_value(s) is None,
    decreases s.len(),
{
    if i < s.len() - 1 {
        assert(s.drop_last()[i] == s[i]);
        lemma_not_digits(s.drop_last(), i);
    }
}

/// Each byte is two hexadecimal digits, the higher four bits first.
pub proof fn law_hexadecimal(bytes: Seq<u8>, i: int)
    requires
        0 <= i < bytes.len(),
    ensures
        ({
            let value = |c: char|
                if '0' <= c <= '9' {
                    c as int - 48
                } else {
                    c as int - 87
                };
            let plain = |c: char| '0' <= c <= '9' || 'a' <= c <= 'f';
            let all = text::hex(bytes);
            &&& all.len() == 2 * bytes.len()
            &&& plain(all[2 * i]) && plain(all[2 * i + 1])
            &&& 16 * value(all[2 * i]) + value(all[2 * i + 1]) == bytes[i]
        }),
{
    let all = text::hex(bytes);
    assert((2 * i) / 2 == i && (2 * i + 1) / 2 == i);
    assert((2 * i) % 2 == 0 && (2 * i + 1) % 2 == 1);
    let b = bytes[i] as int;
    assert(16 * (b / 16) + b % 16 == b);
    assert(all[2 * i] == text::hex_digit(b / 16));
    assert(all[2 * i + 1] == text::hex_digit(b % 16));
}

/// Text is in the order of its bytes: the first byte that differs decides, and a
/// beginning stands before what goes on.
pub proof fn law_byte_order(a: Seq<u8>, b: Seq<u8>, at: int)
    requires
        0 <= at <= a.len(),
        0 <= at <= b.len(),
        forall|i: int| 0 <= i < at ==> #[trigger] a[i] == b[i],
    ensures
        at < a.len() && at < b.len() && a[at] != b[at] ==> (text::bytes_lt(a, b) <==> a[at]
            < b[at]),
        at == a.len() && at < b.len() ==> text::bytes_lt(a, b),
        at == b.len() ==> !text::bytes_lt(a, b),
    decreases at,
{
    if at > 0 {
        let x = a.skip(1);
        let y = b.skip(1);
        assert forall|i: int| 0 <= i < at - 1 implies #[trigger] x[i] == y[i] by {
            assert(a[i + 1] == b[i + 1]);
        }
        law_byte_order(x, y, at - 1);
        assert(a[0] == b[0]);
        if at < a.len() && at < b.len() {
            assert(x[at - 1] == a[at] && y[at - 1] == b[at]);
        }
    }
}

/// Replacing a character leaves every other one and puts the replacement wherever it
/// stood.
pub proof fn law_replacing(a: Seq<char>, c: char, from: char, to: Seq<char>)
    ensures
        scan::replaced(Seq::empty(), from, to) == Seq::<char>::empty(),
        c == from ==> scan::replaced(a.push(c), from, to) == scan::replaced(a, from, to) + to,
        c != from ==> scan::replaced(a.push(c), from, to) == scan::replaced(a, from, to).push(c),
{
    assert(a.push(c).drop_last() =~= a);
    assert(scan::replaced(a, from, to) + seq![c] =~= scan::replaced(a, from, to).push(c));
}

proof fn lemma_plain_text(s: Seq<char>)
    requires
        s.len() > 0,
        forall|i: int|
            0 <= i < s.len() ==> ('0' <= #[trigger] s[i] <= '9' || 'a' <= s[i] <= 'z'),
    ensures
        scan::lowered(scan::trimmed(s)) == s,
{
    law_trimming(s);
    let t = scan::trimmed(s);
    let from = scan::leading(s);
    if from > 0 {
        assert(scan::space(s[0]));
    }
    if from + t.len() < s.len() {
        assert(scan::space(s[from + t.len()]));
    }
    assert(t =~= s);
    assert(scan::lowered(t) =~= s);
}

/// So many seconds, minutes, hours or days are that many seconds.
pub proof fn law_durations(n: nat, unit: char)
    requires
        unit == 's' || unit == 'm' || unit == 'h' || unit == 'd',
    ensures
        ({
            let each: nat = if unit == 's' {
                1
            } else if unit == 'm' {
                60
            } else if unit == 'h' {
                3600
            } else {
                86400
            };
            let result: Outcome<u64> = values::duration_outcome(text::decimal(n).push(unit));
            &&& n * each <= u64::MAX ==> result is Ok && result->Ok_0 == n * each
            &&& n * each > u64::MAX ==> result is Err
        }),
{
    let s = text::decimal(n).push(unit);
    law_number_is_read_back(n);
    assert forall|i: int| 0 <= i < s.len() implies ('0' <= #[trigger] s[i] <= '9' || 'a' <= s[i]
        <= 'z') by {
        if i < s.len() - 1 {
            assert(s[i] == text::decimal(n)[i]);
        }
    }
    lemma_plain_text(s);
    assert(s.drop_last() =~= text::decimal(n));
    lemma_byte_len_at_least(s);
    assert(n * 1 == n);
    if n > u64::MAX {
        assert(n * 60 > u64::MAX && n * 3600 > u64::MAX && n * 86400 > u64::MAX);
    }
}

proof fn lemma_byte_len_at_least(s: Seq<char>)
    ensures
        text::byte_len(s) >= s.len(),
    decreases s.len(),
{
    if s.len() > 0 {
        lemma_byte_len_at_least(s.drop_first());
    }
}

/// A number without a unit of time is no duration.
pub proof fn law_duration_has_a_unit(digits: Seq<char>)
    requires
        digits.len() > 0,
        forall|i: int| 0 <= i < digits.len() ==> '0' <= #[trigger] digits[i] <= '9',
    ensures
        values::duration_outcome(digits) is Err,
{
    lemma_plain_text(digits);
    assert('0' <= digits[digits.len() - 1] <= '9');
}

/// The hour of a twelve-hour clock: noon is twelve in the afternoon, midnight twelve
/// in the morning, and the afternoon is twelve hours later than the morning.
pub proof fn law_clock_hours(hour: nat, pm: bool)
    ensures
        ({
            let written = text::decimal(hour) + if pm {
                "pm"@
            } else {
                "am"@
            };
            let result: Outcome<u32> = values::ampm_outcome(written);
            &&& 1 <= hour <= 12 ==> result is Ok
            &&& 1 <= hour < 12 && !pm ==> result->Ok_0 == 60 * hour
            &&& 1 <= hour < 12 && pm ==> result->Ok_0 == 60 * hour + 720
            &&& hour == 12 && pm ==> result->Ok_0 == 720
            &&& hour == 12 && !pm ==> result->Ok_0 == 0
            &&& hour == 0 || hour > 12 ==> result is Err
        }),
{
    reveal_strlit("am");
    reveal_strlit("pm");
    let tail = if pm {
        "pm"@
    } else {
        "am"@
    };
    let s = text::decimal(hour) + tail;
    law_number_is_read_back(hour);
    assert forall|i: int| 0 <= i < s.len() implies ('0' <= #[trigger] s[i] <= '9' || 'a' <= s[i]
        <= 'z') by {
        if i < s.len() - 2 {
            assert(s[i] == text::decimal(hour)[i]);
        } else {
            assert(s[i] == tail[i - (s.len() - 2)]);
        }
    }
    lemma_plain_text(s);
    assert(s.skip(s.len() - 2) =~= tail);
    assert(s.take(s.len() - 2) =~= text::decimal(hour));
    assert("am"@[0] != "pm"@[0]);
}

/// A time of day means its next occurrence: today's where that is still to come, else
/// tomorrow's.
pub proof fn law_next_occurrence(
    written: Seq<char>,
    moments: Moments,
    today: (i64, u32),
    tomorrow: (i64, u32),
)
    requires
        moments.today == Some(Some(today)),
        moments.tomorrow == Some(Some(tomorrow)),
    ensures
        ({
            let to_come = today.0 > moments.now.0 || (today.0 == moments.now.0 && today.1
                > moments.now.1);
            values::until_outcome(written, moments) == Ok::<TimestampModel, ErrorModel>(
                if to_come {
                    TimestampModel { secs: today.0, nanos: today.1 }
                } else {
                    TimestampModel { secs: tomorrow.0, nanos: tomorrow.1 }
                },
            )
        }),
{
}

/// A grant lasts so many seconds from now, or until a second of its own, or for good.
pub proof fn law_when_a_grant_ends(
    now: TimestampModel,
    for_secs: Option<u64>,
    until: Option<u64>,
)
    requires
        for_secs matches Some(secs) ==> now.secs + secs <= i64::MAX,
        until matches Some(secs) ==> secs <= i64::MAX,
    ensures
        ({
            let end = owner::until_of(now, for_secs, until);
            &&& for_secs is Some ==> end is Some && end->0.secs == now.secs + for_secs->0
                && end->0.nanos == now.nanos
            &&& for_secs is None && until is Some ==> end is Some && end->0.secs == until->0
                && end->0.nanos == 0
            &&& for_secs is None && until is None ==> end is None
        }),
{
}

/// The weekday that a name means, in either case.
pub proof fn law_weekday_names(day: Seq<char>)
    ensures
        ({
            let name = scan::lowered(scan::trimmed(day));
            let result: Outcome<Weekday> = owner::weekday_of(day);
            &&& name == "mon"@ ==> result == Ok::<Weekday, ErrorModel>(Weekday::Mon)
            &&& name == "tue"@ ==> result == Ok::<Weekday, ErrorModel>(Weekday::Tue)
            &&& name == "wed"@ ==> result == Ok::<Weekday, ErrorModel>(Weekday::Wed)
            &&& name == "thu"@ ==> result == Ok::<Weekday, ErrorModel>(Weekday::Thu)
            &&& name == "fri"@ ==> result == Ok::<Weekday, ErrorModel>(Weekday::Fri)
            &&& name == "sat"@ ==> result == Ok::<Weekday, ErrorModel>(Weekday::Sat)
            &&& name == "sun"@ ==> result == Ok::<Weekday, ErrorModel>(Weekday::Sun)
            &&& result is Ok ==> name.len() == 3
            &&& result is Err <==> !values::weekday_name(name)
        }),
{
    reveal_strlit("mon");
    reveal_strlit("tue");
    reveal_strlit("wed");
    reveal_strlit("thu");
    reveal_strlit("fri");
    reveal_strlit("sat");
    reveal_strlit("sun");
    assert("mon"@[0] == 'm' && "tue"@[0] == 't' && "tue"@[1] == 'u' && "wed"@[0] == 'w' && "thu"@[0]
        == 't' && "thu"@[1] == 'h' && "fri"@[0] == 'f' && "sat"@[0] == 's' && "sat"@[1] == 'a'
        && "sun"@[0] == 's' && "sun"@[1] == 'u');
}

proof fn lemma_sent_days(days: Seq<Option<Seq<char>>>, i: int, read: Seq<Weekday>)
    requires
        0 <= i <= days.len(),
    ensures
        owner::sent_days(days, i, read) is Ok <==> forall|j: int|
            i <= j < days.len() ==> (#[trigger] days[j]) is Some && owner::weekday_of(days[j]->0)
                is Ok,
        owner::sent_days(days, i, read) matches Ok(all) ==> all.len() == read.len() + days.len() - i
            && (forall|j: int| 0 <= j < read.len() ==> #[trigger] all[j] == read[j]) && (forall|j: int|
            i <= j < days.len() ==> owner::weekday_of((#[trigger] days[j])->0) == Ok::<
                Weekday,
                ErrorModel,
            >(all[read.len() + j - i])),
    decreases days.len() - i,
{
    if i < days.len() && days[i] is Some && owner::weekday_of(days[i]->0) is Ok {
        let day = owner::weekday_of(days[i]->0)->Ok_0;
        lemma_sent_days(days, i + 1, read.push(day));
        if let Ok(all) = owner::sent_days(days, i, read) {
            assert(all[read.len() as int] == read.push(day)[read.len() as int]);
            assert forall|j: int| 0 <= j < read.len() implies #[trigger] all[j] == read[j] by {
                assert(all[j] == read.push(day)[j]);
            }
        }
    }
}

proof fn lemma_sent_dates(dates: Seq<SentDateModel>, i: int, read: Seq<u8>)
    requires
        0 <= i <= dates.len(),
    ensures
        owner::sent_dates(dates, i, read) is Ok <==> forall|j: int|
            i <= j < dates.len() ==> (#[trigger] dates[j] matches SentDateModel::Whole(n) && 1 <= n
                <= 31),
        owner::sent_dates(dates, i, read) matches Ok(all) ==> all.len() == read.len() + dates.len()
            - i && (forall|j: int| 0 <= j < read.len() ==> #[trigger] all[j] == read[j]) && (
        forall|j: int|
            i <= j < dates.len() ==> (#[trigger] dates[j] matches SentDateModel::Whole(n)
                && all[read.len() + j - i] == n)),
    decreases dates.len() - i,
{
    if i < dates.len() {
        if let Ok(n) = owner::sent_date(dates[i]) {
            lemma_sent_dates(dates, i + 1, read.push(n));
            if let Ok(all) = owner::sent_dates(dates, i, read) {
                assert(all[read.len() as int] == read.push(n)[read.len() as int]);
                assert forall|j: int| 0 <= j < read.len() implies #[trigger] all[j] == read[j] by {
                    assert(all[j] == read.push(n)[j]);
                }
            }
        } else {
            assert(!(dates[i] matches SentDateModel::Whole(n) && 1 <= n <= 31));
        }
    }
}

/// A schedule has the weekdays, the days of the month and the times that were sent,
/// each of them; the working days are Monday to Friday. Where nothing was sent there
/// is no schedule.
pub proof fn law_schedule_as_sent(
    weekdays: bool,
    days: Seq<Option<Seq<char>>>,
    dates: Seq<SentDateModel>,
    from: Option<Seq<char>>,
    to: Option<Seq<char>>,
)
    ensures
        ({
            let result: Outcome<Option<ScheduleModel>> = owner::schedule_of(
                weekdays,
                days,
                dates,
                from,
                to,
            );
            &&& weekdays && days.len() > 0 ==> result is Err
            &&& result matches Ok(None) ==> !weekdays && days.len() == 0 && dates.len() == 0 && from
                is None && to is None
            &&& result matches Ok(Some(schedule)) ==> {
                &&& weekdays ==> schedule.days == seq![
                    Weekday::Mon,
                    Weekday::Tue,
                    Weekday::Wed,
                    Weekday::Thu,
                    Weekday::Fri,
                ]
                &&& !weekdays ==> schedule.days.len() == days.len() && forall|j: int|
                    0 <= j < days.len() ==> owner::weekday_of((#[trigger] days[j])->0) == Ok::<
                        Weekday,
                        ErrorModel,
                    >(schedule.days[j])
                &&& schedule.dates.len() == dates.len()
                &&& forall|j: int|
                    0 <= j < dates.len() ==> (#[trigger] dates[j] matches SentDateModel::Whole(n)
                        && schedule.dates[j] == n)
                &&& from is None ==> schedule.from is None
                &&& to is None ==> schedule.to is None
                &&& from matches Some(t) ==> (values::ampm_outcome(t) matches Ok(minutes)
                    && schedule.from is Some && schedule.from->0.seconds == minutes * 60
                    && schedule.from->0.nanos == 0)
                &&& to matches Some(t) ==> (values::ampm_outcome(t) matches Ok(minutes)
                    && schedule.to is Some && schedule.to->0.seconds == minutes * 60
                    && schedule.to->0.nanos == 0)
            }
        }),
{
    lemma_sent_days(days, 0, Seq::empty());
    lemma_sent_dates(dates, 0, Seq::empty());
}

/// A decision or other field that must be there is taken as it is, and its absence
/// is told by its name.
pub proof fn law_required_field(name: Seq<char>, value: Option<Seq<char>>)
    ensures
        value is Some && value->0.len() > 0 ==> owner::field_outcome(name, value) == Ok::<
            Seq<char>,
            ErrorModel,
        >(value->0),
        value is None || value->0.len() == 0 ==> owner::field_outcome(name, value) == Err::<
            Seq<char>,
            ErrorModel,
        >(ErrorModel::Usage("missing "@ + name)),
{
}

} // verus!
