//! Points in time, durations and periods, and the texts that write them.
use chrono::Datelike;
use vstd::prelude::*;

use crate::error::{agrees, Error, Failure};
use crate::json::{document, Json, JsonModel};
use crate::text::{chars_of, lowered, parse_i64, same_text, split_text, text_of, trimmed};

verus! {

/// A point in time: the seconds since the start of 1970 in UTC, and nanoseconds. During a leap
/// second the nanoseconds run on beyond a thousand million.
#[derive(Debug, Clone, Copy, PartialEq, Eq, Structural)]
pub struct Instant {
    pub seconds: i64,
    pub nanos: u32,
}

/// The last second that a point in time can have: the end of the year 262142.
pub const LAST_SECOND: i64 = 8_210_266_876_799;

/// The first second that a point in time can have: the start of the year -262143.
pub const FIRST_SECOND: i64 = -8_334_601_228_800;

/// The longest duration, in seconds.
pub const LONGEST_DURATION: i64 = 9_223_372_036_854_775;

/// The first day of 1970, counted from the first day of the year 1, which is day 1.
pub const EPOCH_DAY: i64 = 719_163;

/// The format of a plain date.
pub open spec fn date_format() -> Seq<char> {
    "%Y-%m-%d"@
}

impl Instant {
    /// Whether the point lies in the years that can be written down, outside a leap second.
    pub open spec fn representable(self) -> bool {
        FIRST_SECOND <= self.seconds <= LAST_SECOND && self.nanos < 1_000_000_000
    }

    /// Whether the point lies in the years 0 to 9999.
    pub open spec fn in_four_digit_years(self) -> bool {
        -62_167_219_200 <= self.seconds < 253_402_300_800
    }

    /// Whether `self` is `other` or later.
    pub open spec fn at_or_after(self, other: Instant) -> bool {
        self.seconds > other.seconds || (self.seconds == other.seconds && self.nanos
            >= other.nanos)
    }

    /// Whether `duration` seconds have passed since `start`. A duration that is counted from within a
    /// leap second counts from the second after it.
    pub open spec fn passed_since(self, start: Instant, duration: int) -> bool {
        let end = start.seconds + duration;
        let nanos = if duration != 0 && start.nanos >= 1_000_000_000 {
            start.nanos - 1_000_000_000
        } else {
            start.nanos as int
        };
        self.seconds > end || (self.seconds == end && self.nanos >= nanos)
    }

    /// Whether `self` is `other` or later.
    pub fn reached(self, other: Instant) -> (r: bool)
        ensures
            r == self.at_or_after(other),
    {
        self.seconds > other.seconds || (self.seconds == other.seconds && self.nanos
            >= other.nanos)
    }

    /// Whether `duration` seconds have passed since `start`.
    pub fn has_passed(self, start: Instant, duration: i128) -> (r: bool)
        ensures
            r == self.passed_since(start, duration as int),
    {
        let elapsed: i128 = self.seconds as i128 - start.seconds as i128;
        let nanos: u32 = if duration != 0 && start.nanos >= 1_000_000_000 {
            start.nanos - 1_000_000_000
        } else {
            start.nanos
        };
        elapsed > duration || (elapsed == duration && self.nanos >= nanos)
    }

    /// Whether the point lies in the years that can be written down, outside a leap second.
    pub fn can_be_written(self) -> (r: bool)
        ensures
            r == self.representable(),
    {
        FIRST_SECOND <= self.seconds && self.seconds <= LAST_SECOND && self.nanos < 1_000_000_000
    }
}

/// What `chrono` reads in a text as an RFC 3339 date and time: the point in time, or the sentence
/// that says why it is none.
pub uninterp spec fn rfc3339(text: Seq<char>) -> Result<Instant, Seq<char>>;

/// The RFC 3339 date and time that `chrono` writes, in UTC.
pub uninterp spec fn rfc3339_text(instant: Instant) -> Seq<char>;

/// The day that `chrono` reads in a text that has the given format, counted from the first day of
/// the year 1, which is day 1.
pub uninterp spec fn calendar_day(text: Seq<char>, format: Seq<char>) -> Option<i32>;

/// Calls `chrono::DateTime::parse_from_rfc3339`. What comes back depends on the text alone.
#[verifier::external_body]
fn read_rfc3339(text: &str) -> (r: Result<Instant, String>)
    ensures
        match r {
            Ok(instant) => rfc3339(text@) == Ok::<Instant, Seq<char>>(instant),
            Err(reason) => rfc3339(text@) == Err::<Instant, Seq<char>>(reason@),
        },
{
    match chrono::DateTime::parse_from_rfc3339(text) {
        Ok(time) => Ok(Instant { seconds: time.timestamp(), nanos: time.timestamp_subsec_nanos() }),
        Err(error) => Err(error.to_string()),
    }
}

/// Calls `chrono::DateTime::to_rfc3339` in UTC. The text depends on the point in time alone, and
/// in the years 0 to 9999 what was written is what is read.
#[verifier::external_body]
fn write_rfc3339(instant: Instant) -> (r: String)
    requires
        instant.representable(),
    ensures
        r@ == rfc3339_text(instant),
        instant.in_four_digit_years() ==> rfc3339(r@) is Ok && rfc3339(r@)->Ok_0 == instant,
{
    match chrono::DateTime::from_timestamp(instant.seconds, instant.nanos) {
        Some(time) => time.to_rfc3339(),
        None => String::new(),
    }
}

/// Calls `chrono::NaiveDate::parse_from_str`. What comes back depends on the text and the format
/// alone.
#[verifier::external_body]
fn read_day(text: &str, format: &str) -> (r: Option<i32>)
    ensures
        r == calendar_day(text@, format@),
{
    chrono::NaiveDate::parse_from_str(text, format).ok().map(|date| date.num_days_from_ce())
}

/// The start of a day in UTC.
pub open spec fn midnight(day: int) -> Instant {
    Instant { seconds: ((day - EPOCH_DAY) * 86_400) as i64, nanos: 0 }
}

/// The point in time that was read as a date and time or else as a day; without either, `text`
/// is refused.
pub open spec fn instant_read(
    text: Seq<char>,
    time: Result<Instant, Seq<char>>,
    day: Option<i32>,
) -> Result<Instant, Failure<Seq<char>>> {
    match time {
        Ok(instant) => Ok(instant),
        Err(_) => match day {
            Some(day) => Ok(midnight(day as int)),
            None => Err(Failure::InvalidInstant(text)),
        },
    }
}

/// The point in time that `text` writes, as an RFC 3339 date and time or as a date.
pub open spec fn instant(text: Seq<char>) -> Result<Instant, Failure<Seq<char>>> {
    let text = crate::text::trim(text);
    instant_read(text, rfc3339(text), calendar_day(text, date_format()))
}

/// The point in time that was read as a date and time or else as a day.
pub fn resolve_instant(text: &str, time: Option<Instant>, day: Option<i32>) -> (r: Result<
    Instant,
    Error,
>)
    ensures
        agrees(
            r,
            match time {
                Some(instant) => Ok(instant),
                None => match day {
                    Some(day) => Ok(midnight(day as int)),
                    None => Err(Failure::InvalidInstant(text@)),
                },
            },
        ),
{
    match time {
        Some(instant) => Ok(instant),
        None => match day {
            Some(day) => Ok(Instant { seconds: (day as i64 - EPOCH_DAY) * 86_400, nanos: 0 }),
            None => Err(Failure::InvalidInstant(text.to_owned())),
        },
    }
}

/// The point in time that `value` writes, as an RFC 3339 date and time or as a date.
pub fn parse_instant(value: &str) -> (r: Result<Instant, Error>)
    ensures
        agrees(r, instant(value@)),
{
    let value = trimmed(value);
    match read_rfc3339(&value) {
        Ok(instant) => Ok(instant),
        Err(_) => {
            let day = read_day(&value, "%Y-%m-%d");
            resolve_instant(&value, None, day)
        },
    }
}

/// The point in time that `value` writes as an RFC 3339 date and time, or the sentence that says
/// why it writes none.
pub fn parse_time(value: &str) -> (r: Result<Instant, String>)
    ensures
        match r {
            Ok(instant) => rfc3339(value@) == Ok::<Instant, Seq<char>>(instant),
            Err(reason) => rfc3339(value@) == Err::<Instant, Seq<char>>(reason@),
        },
{
    read_rfc3339(value)
}

/// The RFC 3339 text of a point in time.
pub fn time_text(instant: Instant) -> (r: String)
    requires
        instant.representable(),
    ensures
        r@ == rfc3339_text(instant),
        instant.in_four_digit_years() ==> rfc3339(r@) is Ok && rfc3339(r@)->Ok_0 == instant,
{
    write_rfc3339(instant)
}

/// How many digits `s` starts with.
pub open spec fn leading_digits(s: Seq<char>) -> int
    decreases s.len(),
{
    if s.len() > 0 && crate::text::is_digit(s[0]) {
        1 + leading_digits(s.drop_first())
    } else {
        0
    }
}

/// The seconds of a unit of time; an empty name stands for the second.
pub open spec fn unit_seconds(unit: Seq<char>) -> Option<int> {
    if unit == ""@ || unit == "s"@ || unit == "sec"@ || unit == "secs"@ || unit == "second"@
        || unit == "seconds"@ {
        Some(1)
    } else if unit == "m"@ || unit == "min"@ || unit == "mins"@ || unit == "minute"@ || unit
        == "minutes"@ {
        Some(60)
    } else if unit == "h"@ || unit == "hr"@ || unit == "hrs"@ || unit == "hour"@ || unit
        == "hours"@ {
        Some(3_600)
    } else if unit == "d"@ || unit == "day"@ || unit == "days"@ {
        Some(86_400)
    } else if unit == "w"@ || unit == "week"@ || unit == "weeks"@ {
        Some(604_800)
    } else {
        None
    }
}

/// The seconds that `text` writes as a number and a unit of time.
pub open spec fn duration(text: Seq<char>) -> Result<int, Failure<Seq<char>>> {
    let text = crate::text::trim(text);
    let digits = leading_digits(text);
    let unit = crate::text::lower(crate::text::trim(text.skip(digits)));
    if text.len() == 0 {
        Err(Failure::EmptyDuration)
    } else {
        match crate::text::i64_of(text.take(digits)) {
            None => Err(Failure::InvalidDuration(text)),
            Some(amount) => match unit_seconds(unit) {
                None => Err(Failure::UnsupportedUnit(unit)),
                Some(seconds) => Ok(amount * seconds),
            },
        }
    }
}

/// Whether `text`, if it writes a duration, writes one that is not too long.
pub open spec fn duration_fits(text: Seq<char>) -> bool {
    duration(text) matches Ok(seconds) ==> seconds <= LONGEST_DURATION
}

proof fn lemma_leading_digits(s: Seq<char>)
    ensures
        0 <= leading_digits(s) <= s.len(),
        forall|i: int| 0 <= i < leading_digits(s) ==> crate::text::is_digit(#[trigger] s[i]),
        leading_digits(s) < s.len() ==> !crate::text::is_digit(s[leading_digits(s)]),
    decreases s.len(),
{
    if s.len() > 0 && crate::text::is_digit(s[0]) {
        let rest = s.drop_first();
        lemma_leading_digits(rest);
        assert forall|i: int| 0 <= i < leading_digits(s) implies crate::text::is_digit(
            #[trigger] s[i],
        ) by {
            if i > 0 {
                assert(s[i] == rest[i - 1]);
            }
        }
    }
}

/// The seconds of a unit of time.
fn parse_unit(unit: &str) -> (r: Option<i64>)
    ensures
        match r {
            Some(seconds) => unit_seconds(unit@) == Some(seconds as int) && 1 <= seconds
                <= 604_800,
            None => unit_seconds(unit@) is None,
        },
{
    if same_text(unit, "") || same_text(unit, "s") || same_text(unit, "sec") || same_text(
        unit,
        "secs",
    ) || same_text(unit, "second") || same_text(unit, "seconds") {
        Some(1)
    } else if same_text(unit, "m") || same_text(unit, "min") || same_text(unit, "mins")
        || same_text(unit, "minute") || same_text(unit, "minutes") {
        Some(60)
    } else if same_text(unit, "h") || same_text(unit, "hr") || same_text(unit, "hrs") || same_text(
        unit,
        "hour",
    ) || same_text(unit, "hours") {
        Some(3_600)
    } else if same_text(unit, "d") || same_text(unit, "day") || same_text(unit, "days") {
        Some(86_400)
    } else if same_text(unit, "w") || same_text(unit, "week") || same_text(unit, "weeks") {
        Some(604_800)
    } else {
        None
    }
}

/// The number and the seconds of the unit that a duration is written with.
fn parse_amount(value: &str) -> (r: Result<(i64, i64), Error>)
    ensures
        match r {
            Ok((amount, unit)) => duration(value@) == Ok::<int, Failure<Seq<char>>>(amount * unit)
                && 0 <= amount && 1 <= unit <= 604_800,
            Err(error) => duration(value@) == Err::<int, Failure<Seq<char>>>(error@),
        },
{
    let value = trimmed(value);
    let chars = chars_of(&value);
    if chars.len() == 0 {
        return Err(Failure::EmptyDuration);
    }
    let mut digits: usize = 0;
    proof {
        assert(chars@.skip(0) =~= chars@);
    }
    while digits < chars.len() && '0' <= chars[digits] && chars[digits] <= '9'
        invariant
            digits <= chars@.len(),
            leading_digits(chars@) == digits + leading_digits(chars@.skip(digits as int)),
        decreases chars@.len() - digits,
    {
        proof {
            assert(chars@.skip(digits as int)[0] == chars@[digits as int]);
            assert(chars@.skip(digits as int).drop_first() =~= chars@.skip(digits + 1));
        }
        digits = digits + 1;
    }
    let number = text_of(&chars, 0, digits);
    let unit = lowered(&trimmed(&text_of(&chars, digits, chars.len())));
    proof {
        lemma_leading_digits(chars@);
        if digits < chars@.len() {
            assert(chars@.skip(digits as int)[0] == chars@[digits as int]);
        }
        assert(leading_digits(chars@.skip(digits as int)) == 0);
        assert(number@ =~= value@.take(digits as int));
        assert(chars@.subrange(digits as int, chars@.len() as int) =~= value@.skip(digits as int));
    }
    match parse_i64(&number) {
        None => Err(Failure::InvalidDuration(value)),
        Some(amount) => {
            proof {
                assert forall|i: int| 0 <= i < number@.len() implies crate::text::is_digit(
                    #[trigger] number@[i],
                ) by {
                    assert(number@[i] == chars@[i]);
                }
                lemma_digits_not_negative(number@);
            }
            match parse_unit(&unit) {
                None => Err(Failure::UnsupportedUnit(unit)),
                Some(seconds) => Ok((amount, seconds)),
            }
        },
    }
}

proof fn lemma_digits_not_negative(s: Seq<char>)
    requires
        crate::text::all_digits(s),
    ensures
        0 <= crate::text::digits_value(s),
        crate::text::i64_of(s) matches Some(n) ==> 0 <= n,
    decreases s.len(),
{
    if s.len() > 0 {
        let front = s.drop_last();
        assert forall|i: int| 0 <= i < front.len() implies crate::text::is_digit(
            #[trigger] front[i],
        ) by {
            assert(front[i] == s[i]);
        }
        lemma_digits_not_negative(front);
        assert(crate::text::is_digit(s[s.len() - 1]));
        assert(crate::text::is_digit(s[0]));
    }
}

/// Whether `value`, if it writes a duration, writes one that is not too long.
pub fn fits_duration(value: &str) -> (r: bool)
    ensures
        r == duration_fits(value@),
{
    match parse_amount(value) {
        Ok((amount, unit)) => {
            let r = amount <= LONGEST_DURATION / unit;
            proof {
                assert(r == (amount * unit <= LONGEST_DURATION)) by (nonlinear_arith)
                    requires
                        0 <= amount,
                        1 <= unit,
                        r == (amount <= (9_223_372_036_854_775int / unit as int)),
                        LONGEST_DURATION == 9_223_372_036_854_775,
                ;
            }
            r
        },
        Err(_) => true,
    }
}

/// The seconds that `value` writes as a number and a unit of time, however many.
pub fn parse_seconds(value: &str) -> (r: Result<i128, Error>)
    ensures
        match r {
            Ok(seconds) => duration(value@) == Ok::<int, Failure<Seq<char>>>(seconds as int) && 0
                <= seconds,
            Err(error) => duration(value@) == Err::<int, Failure<Seq<char>>>(error@),
        },
{
    match parse_amount(value) {
        Ok((amount, unit)) => {
            proof {
                assert(0 <= amount * unit <= 0x7fff_ffff_ffff_ffff * 604_800) by (nonlinear_arith)
                    requires
                        0 <= amount <= 0x7fff_ffff_ffff_ffff,
                        1 <= unit <= 604_800,
                ;
            }
            Ok(amount as i128 * unit as i128)
        },
        Err(error) => Err(error),
    }
}

/// The seconds that `value` writes as a number and a unit of time.
pub fn parse_duration(value: &str) -> (r: Result<i64, Error>)
    requires
        duration_fits(value@),
    ensures
        match r {
            Ok(seconds) => duration(value@) == Ok::<int, Failure<Seq<char>>>(seconds as int) && 0
                <= seconds <= LONGEST_DURATION,
            Err(error) => duration(value@) == Err::<int, Failure<Seq<char>>>(error@),
        },
{
    match parse_amount(value) {
        Ok((amount, unit)) => {
            proof {
                assert(0 <= amount * unit) by (nonlinear_arith)
                    requires
                        0 <= amount,
                        1 <= unit,
                ;
            }
            Ok(amount * unit)
        },
        Err(error) => Err(error),
    }
}

/// A stretch of time, open at an end that is not given.
#[derive(Debug, Clone, Copy, PartialEq, Eq)]
pub struct Period {
    pub start: Option<Instant>,
    pub end: Option<Instant>,
}

impl Period {
    /// Whether `now` lies in the period. Both ends belong to it.
    pub open spec fn holds(self, now: Instant) -> bool {
        &&& self.start matches Some(start) ==> now.at_or_after(start)
        &&& self.end matches Some(end) ==> end.at_or_after(now)
    }

    /// Whether `now` lies in the period. Both ends belong to it.
    pub fn contains(self, now: Instant) -> (r: bool)
        ensures
            r == self.holds(now),
    {
        let started = match self.start {
            Some(start) => now.reached(start),
            None => true,
        };
        let ended = match self.end {
            Some(end) => !end.reached(now),
            None => false,
        };
        started && !ended
    }
}

/// The point in time that `text` writes, if it is given.
pub open spec fn given_instant(text: Option<Seq<char>>) -> Result<
    Option<Instant>,
    Failure<Seq<char>>,
> {
    match text {
        None => Ok(None),
        Some(text) => match instant(text) {
            Ok(instant) => Ok(Some(instant)),
            Err(failure) => Err(failure),
        },
    }
}

/// The period between two ends; a start that cannot be read counts before an end that cannot.
pub open spec fn period_between(
    start: Result<Option<Instant>, Failure<Seq<char>>>,
    end: Result<Option<Instant>, Failure<Seq<char>>>,
) -> Result<Period, Failure<Seq<char>>> {
    match start {
        Err(failure) => Err(failure),
        Ok(start) => match end {
            Err(failure) => Err(failure),
            Ok(end) => Ok(Period { start, end }),
        },
    }
}

/// The text, unless it is blank.
pub open spec fn unless_blank(text: Seq<char>) -> Option<Seq<char>> {
    if crate::text::trim(text).len() == 0 {
        None
    } else {
        Some(crate::text::trim(text))
    }
}

/// The two ends of a period written as text, without the white space around them.
pub open spec fn period_ends(text: Seq<char>) -> Option<(Seq<char>, Seq<char>)> {
    match crate::text::split_once(text, ".."@) {
        Some(ends) => Some(ends),
        None => crate::text::split_once(text, ","@),
    }
}

/// The period that a JSON document says by its members `start` and `end`. A member that is no
/// text counts as not given.
pub open spec fn json_period(json: JsonModel) -> Result<Period, Failure<Seq<char>>> {
    period_between(
        given_instant(json.text_member("start"@)),
        given_instant(json.text_member("end"@)),
    )
}

/// The period that `text` writes as `start..end` or `start,end`. A blank end is open.
pub open spec fn plain_period(text: Seq<char>) -> Result<Period, Failure<Seq<char>>> {
    match period_ends(text) {
        None => Err(Failure::PeriodFormat),
        Some((start, end)) => period_between(
            given_instant(unless_blank(start)),
            given_instant(unless_blank(end)),
        ),
    }
}

/// The period that `text` writes: as a JSON document if it is one, else as text.
pub open spec fn period(text: Seq<char>) -> Result<Period, Failure<Seq<char>>> {
    let text = crate::text::trim(text);
    match document(text) {
        Ok(json) => json_period(json),
        Err(_) => plain_period(text),
    }
}

/// The point in time that `value` writes, unless it is blank.
pub fn parse_optional_instant(value: &str) -> (r: Result<Option<Instant>, Error>)
    ensures
        agrees(r, given_instant(unless_blank(value@))),
{
    let value = trimmed(value);
    if value.as_str().is_empty() {
        return Ok(None);
    }
    match parse_instant(&value) {
        Ok(instant) => Ok(Some(instant)),
        Err(error) => Err(error),
    }
}

fn parse_member(json: &Json, key: &str) -> (r: Result<Option<Instant>, Error>)
    ensures
        agrees(r, given_instant(json@.text_member(key@))),
{
    match json.get_str(key) {
        None => Ok(None),
        Some(text) => match parse_instant(text) {
            Ok(instant) => Ok(Some(instant)),
            Err(error) => Err(error),
        },
    }
}

/// The period that a JSON document says by its members `start` and `end`.
pub fn period_from_json(json: &Json) -> (r: Result<Period, Error>)
    ensures
        agrees(r, json_period(json@)),
{
    let start = match parse_member(json, "start") {
        Ok(start) => start,
        Err(error) => return Err(error),
    };
    let end = match parse_member(json, "end") {
        Ok(end) => end,
        Err(error) => return Err(error),
    };
    Ok(Period { start, end })
}

/// The period that `value` writes as `start..end` or `start,end`.
pub fn period_from_text(value: &str) -> (r: Result<Period, Error>)
    ensures
        agrees(r, plain_period(value@)),
{
    let ends = match split_text(value, "..") {
        Some(ends) => Some(ends),
        None => split_text(value, ","),
    };
    let (start, end) = match ends {
        Some(ends) => ends,
        None => return Err(Failure::PeriodFormat),
    };
    let start = match parse_optional_instant(&start) {
        Ok(start) => start,
        Err(error) => return Err(error),
    };
    let end = match parse_optional_instant(&end) {
        Ok(end) => end,
        Err(error) => return Err(error),
    };
    Ok(Period { start, end })
}

/// The period that `value` writes: as a JSON document if it is one, else as text.
pub fn parse_period(value: &str) -> (r: Result<Period, Error>)
    ensures
        agrees(r, period(value@)),
{
    let value = trimmed(value);
    match Json::parse(&value) {
        Ok(json) => period_from_json(&json),
        Err(_) => period_from_text(&value),
    }
}

/// The order of points in time is total.
pub proof fn law_instant_order(a: Instant, b: Instant, c: Instant)
    ensures
        a.at_or_after(a),
        a.at_or_after(b) || b.at_or_after(a),
        a.at_or_after(b) && b.at_or_after(a) ==> a == b,
        a.at_or_after(b) && b.at_or_after(c) ==> a.at_or_after(c),
{
}

/// Where a duration has passed, every shorter one has.
pub proof fn law_shorter_durations_pass_first(now: Instant, start: Instant, short: int, long: int)
    requires
        0 <= short <= long,
        start.nanos < 2_000_000_000,
        now.passed_since(start, long),
    ensures
        now.passed_since(start, short),
        now.at_or_after(start),
{
}

} // verus!
