//! What can be relied on of points in time, durations and periods, and of the texts that write
//! them.
use vstd::prelude::*;

use crate::error::Failure;
use crate::json::{document, JsonModel};
use crate::text::{contains_text, i64_of, lower, split_once, trim};
use crate::time::{
    calendar_day, date_format, duration, duration_fits, given_instant, instant, json_period,
    leading_digits, midnight, period, plain_period, rfc3339, unit_seconds, unless_blank, Instant,
    Period,
};

verus! {

/// Of two points in time the one with more seconds is the later, and of two in one second the one
/// with more nanoseconds.
pub proof fn law_later_is_more_seconds_or_nanoseconds(a: Instant, b: Instant)
    ensures
        a.at_or_after(b) <==> a.seconds > b.seconds || (a.seconds == b.seconds && a.nanos
            >= b.nanos),
        a.nanos < 1_000_000_000 && b.nanos < 1_000_000_000 ==> (a.at_or_after(b) <==> a.seconds
            * 1_000_000_000 + a.nanos >= b.seconds * 1_000_000_000 + b.nanos),
{
}

/// A duration has passed once at least as many nanoseconds have gone by as it has. Counted from
/// within a leap second it counts from the second after it.
pub proof fn law_durations_pass_by_the_clock(now: Instant, start: Instant, seconds: int)
    ensures
        now.nanos < 1_000_000_000 && start.nanos < 1_000_000_000 ==> (now.passed_since(
            start,
            seconds,
        ) <==> now.seconds * 1_000_000_000 + now.nanos >= (start.seconds + seconds) * 1_000_000_000
            + start.nanos),
        start.nanos < 1_000_000_000 || seconds == 0 ==> (now.passed_since(start, seconds)
            <==> now.seconds > start.seconds + seconds || (now.seconds == start.seconds + seconds
            && now.nanos >= start.nanos)),
        start.nanos >= 1_000_000_000 && seconds != 0 ==> (now.passed_since(start, seconds)
            <==> now.seconds > start.seconds + seconds || (now.seconds == start.seconds + seconds
            && now.nanos >= start.nanos - 1_000_000_000)),
{
}

/// A period holds from its start to its end, both of which belong to it, and without end on a side
/// where none is given.
pub proof fn law_periods_hold_between_their_ends(period: Period, now: Instant)
    ensures
        period.holds(now) <==> (period.start is Some ==> now.at_or_after(period.start->Some_0)) && (
        period.end is Some ==> (period.end->Some_0).at_or_after(now)),
{
}

/// The units of time and their seconds.
pub proof fn law_units_of_time(unit: Seq<char>)
    ensures
        unit_seconds(unit) == Some(1int) <==> {
            ||| unit == ""@
            ||| unit == "s"@
            ||| unit == "sec"@
            ||| unit == "secs"@
            ||| unit == "second"@
            ||| unit == "seconds"@
        },
        unit_seconds(unit) == Some(60int) <==> {
            ||| unit == "m"@
            ||| unit == "min"@
            ||| unit == "mins"@
            ||| unit == "minute"@
            ||| unit == "minutes"@
        },
        unit_seconds(unit) == Some(3_600int) <==> {
            ||| unit == "h"@
            ||| unit == "hr"@
            ||| unit == "hrs"@
            ||| unit == "hour"@
            ||| unit == "hours"@
        },
        unit_seconds(unit) == Some(86_400int) <==> {
            ||| unit == "d"@
            ||| unit == "day"@
            ||| unit == "days"@
        },
        unit_seconds(unit) == Some(604_800int) <==> {
            ||| unit == "w"@
            ||| unit == "week"@
            ||| unit == "weeks"@
        },
        unit_seconds(unit) is Some ==> {
            let seconds = unit_seconds(unit)->Some_0;
            ||| seconds == 1
            ||| seconds == 60
            ||| seconds == 3_600
            ||| seconds == 86_400
            ||| seconds == 604_800
        },
{
    reveal_strlit("");
    reveal_strlit("s");
    reveal_strlit("sec");
    reveal_strlit("secs");
    reveal_strlit("second");
    reveal_strlit("seconds");
    reveal_strlit("m");
    reveal_strlit("min");
    reveal_strlit("mins");
    reveal_strlit("minute");
    reveal_strlit("minutes");
    reveal_strlit("h");
    reveal_strlit("hr");
    reveal_strlit("hrs");
    reveal_strlit("hour");
    reveal_strlit("hours");
    reveal_strlit("d");
    reveal_strlit("day");
    reveal_strlit("days");
    reveal_strlit("w");
    reveal_strlit("week");
    reveal_strlit("weeks");
    assert(""@.len() == 0);
    assert("s"@.len() == 1 && "s"@[0] == 's');
    assert("sec"@.len() == 3 && "sec"@[0] == 's');
    assert("secs"@.len() == 4 && "secs"@[0] == 's');
    assert("second"@.len() == 6 && "second"@[0] == 's');
    assert("seconds"@.len() == 7 && "seconds"@[0] == 's');
    assert("m"@.len() == 1 && "m"@[0] == 'm');
    assert("min"@.len() == 3 && "min"@[0] == 'm');
    assert("mins"@.len() == 4 && "mins"@[0] == 'm');
    assert("minute"@.len() == 6 && "minute"@[0] == 'm');
    assert("minutes"@.len() == 7 && "minutes"@[0] == 'm');
    assert("h"@.len() == 1 && "h"@[0] == 'h');
    assert("hr"@.len() == 2 && "hr"@[0] == 'h');
    assert("hrs"@.len() == 3 && "hrs"@[0] == 'h');
    assert("hour"@.len() == 4 && "hour"@[0] == 'h');
    assert("hours"@.len() == 5 && "hours"@[0] == 'h');
    assert("d"@.len() == 1 && "d"@[0] == 'd');
    assert("day"@.len() == 3 && "day"@[0] == 'd');
    assert("days"@.len() == 4 && "days"@[0] == 'd');
    assert("w"@.len() == 1 && "w"@[0] == 'w');
    assert("week"@.len() == 4 && "week"@[0] == 'w');
    assert("weeks"@.len() == 5 && "weeks"@[0] == 'w');
}

/// A duration is a number and a unit: digits, and after them the name of a unit, whatever its case
/// and the white space around it. It is the number times the seconds of the unit.
pub proof fn law_durations_are_numbers_of_units(text: Seq<char>, digits: Seq<char>, rest: Seq<char>)
    requires
        trim(text) == digits + rest,
        forall|i: int| 0 <= i < digits.len() ==> 48 <= #[trigger] digits[i] as int <= 57,
        rest.len() > 0 ==> !(48 <= rest[0] as int <= 57),
    ensures
        duration(text) is Ok <==> i64_of(digits) is Some && unit_seconds(lower(trim(rest))) is Some,
        duration(text) is Ok ==> duration(text)->Ok_0 == i64_of(digits)->Some_0 * unit_seconds(
            lower(trim(rest)),
        )->Some_0,
        trim(text).len() == 0 ==> duration(text)->Err_0 is EmptyDuration,
        trim(text).len() > 0 && i64_of(digits) is None ==> duration(text) == Err::<
            int,
            Failure<Seq<char>>,
        >(Failure::InvalidDuration(trim(text))),
        i64_of(digits) is Some && unit_seconds(lower(trim(rest))) is None ==> duration(text)
            == Err::<int, Failure<Seq<char>>>(Failure::UnsupportedUnit(lower(trim(rest)))),
        duration_fits(text) <==> (duration(text) is Ok ==> duration(text)->Ok_0
            <= 9_223_372_036_854_775),
{
    lemma_digits_end(digits, rest);
    assert(trim(text).take(digits.len() as int) =~= digits);
    assert(trim(text).skip(digits.len() as int) =~= rest);
    if trim(text).len() == 0 {
        assert(digits =~= Seq::empty());
        assert(crate::text::natural(digits) is None);
    }
}

proof fn lemma_digits_end(digits: Seq<char>, rest: Seq<char>)
    requires
        forall|i: int| 0 <= i < digits.len() ==> 48 <= #[trigger] digits[i] as int <= 57,
        rest.len() > 0 ==> !(48 <= rest[0] as int <= 57),
    ensures
        leading_digits(digits + rest) == digits.len(),
    decreases digits.len(),
{
    let whole = digits + rest;
    if digits.len() > 0 {
        let tail = digits.drop_first();
        assert(whole[0] == digits[0]);
        assert(whole.drop_first() =~= tail + rest);
        assert forall|i: int| 0 <= i < tail.len() implies 48 <= #[trigger] tail[i] as int
            <= 57 by {
            assert(tail[i] == digits[i + 1]);
        }
        lemma_digits_end(tail, rest);
    } else {
        assert(whole =~= rest);
    }
}

/// A text writes a point in time as a date and time or else as a date, whatever the white space
/// around it. A date stands for its first second in UTC; days are counted from the first of the
/// year 1.
pub proof fn law_points_in_time_are_times_or_dates(text: Seq<char>)
    ensures
        rfc3339(trim(text)) is Ok ==> instant(text) is Ok && instant(text)->Ok_0 == rfc3339(
            trim(text),
        )->Ok_0,
        rfc3339(trim(text)) is Err && calendar_day(trim(text), "%Y-%m-%d"@) is Some ==> {
            let day = calendar_day(trim(text), "%Y-%m-%d"@)->Some_0;
            instant(text) is Ok && instant(text)->Ok_0 == (Instant {
                seconds: ((day - 719_163) * 86_400) as i64,
                nanos: 0,
            })
        },
        rfc3339(trim(text)) is Err && calendar_day(trim(text), "%Y-%m-%d"@) is None ==> instant(
            text,
        ) == Err::<Instant, Failure<Seq<char>>>(Failure::InvalidInstant(trim(text))),
{
}

/// The end of a period that a text writes: none where it is blank, else the point in time that it
/// writes.
pub open spec fn written_end(text: Seq<char>, end: Option<Instant>) -> bool {
    if trim(text).len() == 0 {
        end is None
    } else {
        instant(text) is Ok && end == Some(instant(text)->Ok_0)
    }
}

/// A period in plain text is two points in time around the first `..`, or where there is none
/// around the first comma. A blank side is open, and one that writes no point in time makes the
/// whole no period.
pub proof fn law_periods_are_two_points_in_time(text: Seq<char>, left: Seq<char>, right: Seq<char>)
    ensures
        plain_period(text) is Err && plain_period(text)->Err_0 is PeriodFormat <==> !contains_text(
            text,
            ".."@,
        ) && !contains_text(text, ","@),
        split_once(text, ".."@) == Some((left, right)) || (split_once(text, ".."@) is None
            && split_once(text, ","@) == Some((left, right))) ==> {
            let period = plain_period(text);
            &&& period is Ok ==> written_end(left, (period->Ok_0).start) && written_end(
                right,
                (period->Ok_0).end,
            )
            &&& period is Ok <==> (trim(left).len() == 0 || instant(left) is Ok) && (trim(
                right,
            ).len() == 0 || instant(right) is Ok)
        },
{
    crate::text::lemma_find_from(text, ".."@, 0);
    crate::text::lemma_find_from(text, ","@, 0);
    crate::text::law_trim_twice(left);
    crate::text::law_trim_twice(right);
}

/// A period in JSON has its ends from the texts of the members `start` and `end`; a member that is
/// missing or no text leaves that side open, and one that writes no point in time makes the whole no
/// period.
pub proof fn law_json_periods_have_start_and_end(json: JsonModel)
    ensures
        ({
            let start = json.text_member("start"@);
            let end = json.text_member("end"@);
            let period = json_period(json);
            &&& period is Ok <==> (start is Some ==> instant(start->Some_0) is Ok) && (end is Some
                ==> instant(end->Some_0) is Ok)
            &&& period is Ok && start is Some ==> (period->Ok_0).start == Some(
                instant(start->Some_0)->Ok_0,
            )
            &&& period is Ok && start is None ==> (period->Ok_0).start is None
            &&& period is Ok && end is Some ==> (period->Ok_0).end == Some(
                instant(end->Some_0)->Ok_0,
            )
            &&& period is Ok && end is None ==> (period->Ok_0).end is None
        }),
{
}

/// A period is read as JSON where it is JSON, and else as plain text, without the white space around
/// it.
pub proof fn law_periods_are_json_or_plain_text(text: Seq<char>)
    ensures
        document(trim(text)) is Ok ==> period(text) == json_period(document(trim(text))->Ok_0),
        document(trim(text)) is Err ==> period(text) == plain_period(trim(text)),
{
}

/// A point in time that may be missing or blank is none then, and else what it writes.
pub proof fn law_missing_points_in_time_are_none(text: Seq<char>)
    ensures
        given_instant(None) == Ok::<Option<Instant>, Failure<Seq<char>>>(None),
        instant(text) is Ok ==> given_instant(Some(text)) == Ok::<
            Option<Instant>,
            Failure<Seq<char>>,
        >(Some(instant(text)->Ok_0)),
        instant(text) is Err ==> given_instant(Some(text)) == Err::<
            Option<Instant>,
            Failure<Seq<char>>,
        >(instant(text)->Err_0),
        trim(text).len() == 0 ==> unless_blank(text) is None,
        trim(text).len() > 0 ==> unless_blank(text) == Some(trim(text)),
{
}

/// A day starts at its first second in UTC, and points in time can be written down from the start
/// of the year -262143 to the end of the year 262142, outside leap seconds.
pub proof fn law_days_and_the_calendar(day: int, instant: Instant)
    requires
        -200_000_000 <= day <= 200_000_000,
    ensures
        midnight(day).seconds == (day - 719_163) * 86_400,
        midnight(day).nanos == 0,
        instant.representable() <==> -8_334_601_228_800 <= instant.seconds <= 8_210_266_876_799
            && instant.nanos < 1_000_000_000,
        date_format() == "%Y-%m-%d"@,
{
}

} // verus!
