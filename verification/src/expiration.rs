//! When memories expire.
use vstd::prelude::*;

use crate::error::{agrees, Error, Failure};
use crate::files::{fingerprint, fingerprint_agrees, fingerprint_file, Files, SightingModel};
use crate::model::ExpirationCondition;
use crate::text::{parse_i64, same_text, trimmed};
use crate::time::{
    duration, duration_fits, instant, parse_duration, parse_instant, parse_period, parse_seconds, period,
    Instant, Period,
};

verus! {

/// The number of reads that `text` allows.
pub open spec fn usage_limit(text: Seq<char>) -> Result<i64, Failure<Seq<char>>> {
    match crate::text::i64_of(crate::text::trim(text)) {
        None => Err(Failure::InvalidUsage(text)),
        Some(limit) => if limit <= 0 {
            Err(Failure::UsageNotPositive)
        } else {
            Ok(limit)
        },
    }
}

/// What is said of an expiration value when it is given.
pub open spec fn validation(condition: ExpirationCondition, value: Seq<char>) -> Result<
    (),
    Failure<Seq<char>>,
> {
    match condition {
        ExpirationCondition::Time => match duration(value) {
            Ok(_) => Ok(()),
            Err(_) => match instant(value) {
                Ok(_) => Ok(()),
                Err(failure) => Err(failure),
            },
        },
        ExpirationCondition::Usage => match usage_limit(value) {
            Ok(_) => Ok(()),
            Err(failure) => Err(failure),
        },
        ExpirationCondition::FileExist | ExpirationCondition::FilePristine => if crate::text::trim(
            value,
        ).len() == 0 {
            Err(Failure::PathMissing)
        } else {
            Ok(())
        },
        ExpirationCondition::Period => match period(value) {
            Ok(_) => Ok(()),
            Err(failure) => Err(failure),
        },
    }
}

/// The number of reads that `value` allows.
pub fn parse_usage_limit(value: &str) -> (r: Result<i64, Error>)
    ensures
        agrees(r, usage_limit(value@)),
{
    match parse_i64(&trimmed(value)) {
        None => Err(Failure::InvalidUsage(value.to_owned())),
        Some(limit) => if limit <= 0 {
            Err(Failure::UsageNotPositive)
        } else {
            Ok(limit)
        },
    }
}

/// Refuses an expiration value that does not fit its condition. A duration must not be too long.
pub fn validate_expiration(condition: ExpirationCondition, value: &str) -> (r: Result<(), Error>)
    requires
        condition == ExpirationCondition::Time ==> duration_fits(value@),
    ensures
        agrees(r, validation(condition, value@)),
{
    match condition {
        ExpirationCondition::Time => match parse_duration(value) {
            Ok(_) => Ok(()),
            Err(_) => match parse_instant(value) {
                Ok(_) => Ok(()),
                Err(error) => Err(error),
            },
        },
        ExpirationCondition::Usage => match parse_usage_limit(value) {
            Ok(_) => Ok(()),
            Err(error) => Err(error),
        },
        ExpirationCondition::FileExist | ExpirationCondition::FilePristine => {
            if trimmed(value).as_str().is_empty() {
                Err(Failure::PathMissing)
            } else {
                Ok(())
            }
        },
        ExpirationCondition::Period => match parse_period(value) {
            Ok(_) => Ok(()),
            Err(error) => Err(error),
        },
    }
}

/// The fingerprint that is kept with a memory: that of the file, where the memory lives as long
/// as the file is unchanged.
pub open spec fn kept_fingerprint(
    condition: Option<ExpirationCondition>,
    value: Option<Seq<char>>,
    files: Files,
) -> Result<Option<Seq<char>>, Failure<Seq<char>>> {
    if condition != Some(ExpirationCondition::FilePristine) {
        Ok(None)
    } else {
        match value {
            None => Err(Failure::PristinePathMissing),
            Some(path) => fingerprint(files.sighting(path)),
        }
    }
}

/// The text that a borrowed optional text holds.
pub open spec fn borrowed(text: Option<&str>) -> Option<Seq<char>> {
    match text {
        Some(text) => Some(text@),
        None => None,
    }
}

/// The fingerprint that is kept with a memory.
pub fn fingerprint_for_condition(
    condition: Option<ExpirationCondition>,
    value: Option<&str>,
    files: &Files,
) -> (r: Result<Option<String>, Error>)
    ensures
        fingerprint_agrees(r, kept_fingerprint(condition, borrowed(value), *files)),
        r matches Ok(Some(print)) ==> print@.len() == 64,
{
    match condition {
        Some(ExpirationCondition::FilePristine) => match value {
            None => Err(Failure::PristinePathMissing),
            Some(path) => fingerprint_file(path, files),
        },
        _ => Ok(None),
    }
}

/// Whether a time that was read as a point in time, or else as a duration since `created_at`, is
/// up. One that cannot be read is.
pub open spec fn time_up(
    point: Option<Instant>,
    seconds: Option<int>,
    created_at: Instant,
    now: Instant,
) -> bool {
    match point {
        Some(point) => now.at_or_after(point),
        None => match seconds {
            Some(seconds) => now.passed_since(created_at, seconds),
            None => true,
        },
    }
}

/// Whether a fingerprint differs from the one that was kept. Without either it counts as
/// different.
pub open spec fn print_changed(kept: Option<Seq<char>>, current: Option<Seq<char>>) -> bool {
    match kept {
        None => true,
        Some(kept) => match current {
            None => true,
            Some(current) => current != kept,
        },
    }
}

/// The value of a result, if it is one.
pub open spec fn ok<T>(r: Result<T, Failure<Seq<char>>>) -> Option<T> {
    match r {
        Ok(value) => Some(value),
        Err(_) => None,
    }
}

/// The fingerprint of what was seen, where one can be made.
pub open spec fn print_of(state: SightingModel) -> Option<Seq<char>> {
    match fingerprint(state) {
        Ok(Some(print)) => Some(print),
        _ => None,
    }
}

/// Whether a memory has expired. Without a condition it has not; with a condition but no value,
/// or with a value that cannot be read, it has.
pub open spec fn expired(
    condition: Option<ExpirationCondition>,
    value: Option<Seq<char>>,
    created_at: Instant,
    usage_count: int,
    kept: Option<Seq<char>>,
    now: Instant,
    files: Files,
) -> bool {
    match condition {
        None => false,
        Some(condition) => match value {
            None => true,
            Some(value) => match condition {
                ExpirationCondition::Time => time_up(
                    ok(instant(value)),
                    ok(duration(value)),
                    created_at,
                    now,
                ),
                ExpirationCondition::Usage => match usage_limit(value) {
                    Ok(limit) => usage_count >= limit,
                    Err(_) => true,
                },
                ExpirationCondition::FileExist => files.sighting(value) is Missing,
                ExpirationCondition::FilePristine => print_changed(
                    kept,
                    print_of(files.sighting(value)),
                ),
                ExpirationCondition::Period => match period(value) {
                    Ok(period) => !period.holds(now),
                    Err(_) => true,
                },
            },
        },
    }
}

/// Whether a time that was read as a point in time, or else as a duration, is up.
pub fn time_is_up(
    point: Option<Instant>,
    seconds: Option<i128>,
    created_at: Instant,
    now: Instant,
) -> (r: bool)
    ensures
        r == time_up(
            point,
            match seconds {
                Some(seconds) => Some(seconds as int),
                None => None,
            },
            created_at,
            now,
        ),
{
    match point {
        Some(point) => now.reached(point),
        None => match seconds {
            Some(seconds) => now.has_passed(created_at, seconds),
            None => true,
        },
    }
}

/// Whether the time that `value` writes is up.
pub fn time_expired(value: &str, created_at: Instant, now: Instant) -> (r: bool)
    ensures
        r == time_up(ok(instant(value@)), ok(duration(value@)), created_at, now),
{
    let point = match parse_instant(value) {
        Ok(point) => Some(point),
        Err(_) => None,
    };
    let seconds = match parse_seconds(value) {
        Ok(seconds) => Some(seconds),
        Err(_) => None,
    };
    time_is_up(point, seconds, created_at, now)
}

/// Whether a memory has been read as often as `value` allows.
pub fn usage_expired(value: &str, usage_count: i64) -> (r: bool)
    ensures
        r == match usage_limit(value@) {
            Ok(limit) => usage_count >= limit,
            Err(_) => true,
        },
{
    match parse_usage_limit(value) {
        Ok(limit) => usage_count >= limit,
        Err(_) => true,
    }
}

/// Whether a fingerprint differs from the one that was kept.
pub fn fingerprint_changed(kept: Option<&str>, current: Option<&str>) -> (r: bool)
    ensures
        r == print_changed(borrowed(kept), borrowed(current)),
{
    match kept {
        None => true,
        Some(kept) => match current {
            None => true,
            Some(current) => !same_text(current, kept),
        },
    }
}

/// Whether the file at `value` no longer has the fingerprint that was kept.
pub fn file_changed(value: &str, kept: Option<&str>, files: &Files) -> (r: bool)
    ensures
        r == print_changed(borrowed(kept), print_of(files.sighting(value@))),
{
    match fingerprint_file(value, files) {
        Ok(Some(current)) => fingerprint_changed(kept, Some(current.as_str())),
        _ => fingerprint_changed(kept, None),
    }
}

/// Whether a period that was read does not hold `now`. One that cannot be read does not.
pub fn period_is_over(period: Option<Period>, now: Instant) -> (r: bool)
    ensures
        r == match period {
            Some(period) => !period.holds(now),
            None => true,
        },
{
    match period {
        Some(period) => !period.contains(now),
        None => true,
    }
}

/// Whether the period that `value` writes does not hold `now`.
pub fn period_expired(value: &str, now: Instant) -> (r: bool)
    ensures
        r == match period(value@) {
            Ok(period) => !period.holds(now),
            Err(_) => true,
        },
{
    match parse_period(value) {
        Ok(period) => period_is_over(Some(period), now),
        Err(_) => period_is_over(None, now),
    }
}

/// Whether a memory has expired.
pub fn is_expired(
    condition: Option<ExpirationCondition>,
    value: Option<&str>,
    created_at: Instant,
    usage_count: i64,
    file_fingerprint: Option<&str>,
    now: Instant,
    files: &Files,
) -> (r: bool)
    ensures
        r == expired(
            condition,
            borrowed(value),
            created_at,
            usage_count as int,
            borrowed(file_fingerprint),
            now,
            *files,
        ),
{
    let condition = match condition {
        Some(condition) => condition,
        None => return false,
    };
    let value = match value {
        Some(value) => value,
        None => return true,
    };
    match condition {
        ExpirationCondition::Time => time_expired(value, created_at, now),
        ExpirationCondition::Usage => usage_expired(value, usage_count),
        ExpirationCondition::FileExist => !files.is_there(value),
        ExpirationCondition::FilePristine => file_changed(value, file_fingerprint, files),
        ExpirationCondition::Period => period_expired(value, now),
    }
}

/// A memory without a condition never expires.
pub proof fn law_without_condition_forever(
    value: Option<Seq<char>>,
    created_at: Instant,
    usage_count: int,
    kept: Option<Seq<char>>,
    now: Instant,
    files: Files,
)
    ensures
        !expired(None, value, created_at, usage_count, kept, now, files),
{
}

/// A memory with a duration for its lifetime is there until the duration has passed since it was
/// stored, and gone from then on.
pub proof fn law_duration_counts_from_storing(
    value: Seq<char>,
    created_at: Instant,
    usage_count: int,
    kept: Option<Seq<char>>,
    now: Instant,
    files: Files,
)
    requires
        instant(value) is Err,
        duration(value) is Ok,
    ensures
        expired(
            Some(ExpirationCondition::Time),
            Some(value),
            created_at,
            usage_count,
            kept,
            now,
            files,
        ) <==> now.passed_since(created_at, duration(value)->Ok_0),
{
}

/// A memory tied to a file is there exactly while something is at its path.
pub proof fn law_file_keeps_memory(
    path: Seq<char>,
    created_at: Instant,
    usage_count: int,
    kept: Option<Seq<char>>,
    now: Instant,
    files: Files,
)
    ensures
        expired(
            Some(ExpirationCondition::FileExist),
            Some(path),
            created_at,
            usage_count,
            kept,
            now,
            files,
        ) <==> files.sighting(path) is Missing,
{
}

/// Once its time is up, a memory stays expired.
pub proof fn law_time_stays_up(
    value: Option<Seq<char>>,
    created_at: Instant,
    usage_count: int,
    kept: Option<Seq<char>>,
    now: Instant,
    later: Instant,
    files: Files,
)
    requires
        later.at_or_after(now),
        expired(
            Some(ExpirationCondition::Time),
            value,
            created_at,
            usage_count,
            kept,
            now,
            files,
        ),
    ensures
        expired(
            Some(ExpirationCondition::Time),
            value,
            created_at,
            usage_count,
            kept,
            later,
            files,
        ),
{
}

/// A memory whose usage limit was accepted is there before its first read, stays until it has
/// been read as often as allowed, and is gone from then on.
pub proof fn law_usage_limit_counts_reads(
    value: Seq<char>,
    created_at: Instant,
    usage_count: int,
    kept: Option<Seq<char>>,
    now: Instant,
    files: Files,
)
    requires
        validation(ExpirationCondition::Usage, value) is Ok,
    ensures
        usage_limit(value)->Ok_0 >= 1,
        expired(
            Some(ExpirationCondition::Usage),
            Some(value),
            created_at,
            usage_count,
            kept,
            now,
            files,
        ) <==> usage_count >= usage_limit(value)->Ok_0,
{
}

/// A memory tied to a file that is unchanged since it was stored, and can be read, is there.
pub proof fn law_unchanged_file_keeps_memory(
    path: Seq<char>,
    created_at: Instant,
    usage_count: int,
    earlier: Files,
    now: Instant,
    files: Files,
)
    requires
        earlier.sighting(path) == files.sighting(path),
        !(earlier.sighting(path) is Missing),
        !(earlier.sighting(path) is Unreadable),
    ensures
        kept_fingerprint(Some(ExpirationCondition::FilePristine), Some(path), earlier) is Ok,
        !expired(
            Some(ExpirationCondition::FilePristine),
            Some(path),
            created_at,
            usage_count,
            kept_fingerprint(
                Some(ExpirationCondition::FilePristine),
                Some(path),
                earlier,
            )->Ok_0,
            now,
            files,
        ),
{
}

/// A memory tied to a file is gone where the fingerprint differs, the file is missing, or it
/// cannot be read.
pub proof fn law_changed_file_drops_memory(
    path: Seq<char>,
    created_at: Instant,
    usage_count: int,
    kept: Option<Seq<char>>,
    now: Instant,
    files: Files,
)
    requires
        print_of(files.sighting(path)) is None || print_of(files.sighting(path)) != kept,
    ensures
        expired(
            Some(ExpirationCondition::FilePristine),
            Some(path),
            created_at,
            usage_count,
            kept,
            now,
            files,
        ),
{
}

/// A memory tied to a period comes and goes with it: it is there exactly while the period holds.
pub proof fn law_period_comes_and_goes(
    value: Seq<char>,
    created_at: Instant,
    usage_count: int,
    kept: Option<Seq<char>>,
    now: Instant,
    files: Files,
)
    requires
        validation(ExpirationCondition::Period, value) is Ok,
    ensures
        expired(
            Some(ExpirationCondition::Period),
            Some(value),
            created_at,
            usage_count,
            kept,
            now,
            files,
        ) <==> !(period(value)->Ok_0).holds(now),
{
}

} // verus!
