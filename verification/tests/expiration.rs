use chrono::{TimeZone, Utc};
use mii_memory::expiration::{
    fingerprint_changed, fingerprint_for_condition, is_expired, parse_usage_limit,
    period_is_over, time_is_up, validate_expiration,
};
use mii_memory::files::{fingerprint_file, FileState, Files, Sighting};
use mii_memory::time::{
    fits_duration, parse_duration, parse_instant, parse_period, parse_seconds, parse_time,
    period_from_json,
    period_from_text, resolve_instant, time_text, Instant, EPOCH_DAY, FIRST_SECOND, LAST_SECOND,
    LONGEST_DURATION,
};
use mii_memory::json::Json;
use mii_memory::ExpirationCondition;

fn no_files() -> Files {
    Files { seen: Vec::new() }
}

fn files(path: &str, sighting: Sighting) -> Files {
    Files { seen: vec![(path.to_string(), sighting)] }
}

fn instant(seconds: i64) -> Instant {
    Instant { seconds, nanos: 0 }
}

fn utc(year: i32, month: u32, day: u32, hour: u32) -> Instant {
    instant(Utc.with_ymd_and_hms(year, month, day, hour, 0, 0).unwrap().timestamp())
}

#[test]
fn usage_expiration_allows_exact_number_of_reads() {
    let now = utc(2026, 5, 18, 12);

    assert!(!is_expired(
        Some(ExpirationCondition::Usage),
        Some("2"),
        now,
        1,
        None,
        now,
        &no_files(),
    ));
    assert!(is_expired(
        Some(ExpirationCondition::Usage),
        Some("2"),
        now,
        2,
        None,
        now,
        &no_files(),
    ));
}

#[test]
fn period_accepts_open_start() {
    let now = utc(2026, 5, 18, 12);

    assert!(!is_expired(
        Some(ExpirationCondition::Period),
        Some("..2026-05-19T00:00:00Z"),
        now,
        0,
        None,
        now,
        &no_files(),
    ));
}

#[test]
fn periods_hold_both_ends() {
    let text = "2026-05-18, 2026-05-19T00:00:00Z";
    let over = |text: &str, now: Instant| {
        is_expired(Some(ExpirationCondition::Period), Some(text), now, 0, None, now, &no_files())
    };
    assert!(!over(text, utc(2026, 5, 18, 0)));
    assert!(!over(text, utc(2026, 5, 19, 0)));
    assert!(over(text, utc(2026, 5, 17, 23)));
    assert!(over(text, utc(2026, 5, 19, 1)));
    assert!(!over("2026-05-18..", utc(2030, 1, 1, 0)));
    assert!(!over("..", utc(2030, 1, 1, 0)));
    assert!(over("{\"start\":\"2026-05-18\",\"end\":\"2026-05-19\"}", utc(2026, 5, 20, 0)));
    assert!(!over("{\"start\":\"2026-05-18\",\"end\":7}", utc(2026, 5, 20, 0)));
    assert!(!over("17", utc(2026, 5, 20, 0)));
    assert!(over("whenever", utc(2026, 5, 20, 0)));
    assert!(period_is_over(None, utc(2026, 5, 20, 0)));
}

#[test]
fn period_errors_say_what_is_wrong() {
    assert_eq!(
        parse_period("whenever").unwrap_err().message(),
        "period must be formatted as start..end, start,end, or JSON"
    );
    assert_eq!(
        parse_period("soon..later").unwrap_err().message(),
        "invalid instant value: soon"
    );
    assert_eq!(
        period_from_text("2026-05-18, later").unwrap_err().message(),
        "invalid instant value: later"
    );
    let json = Json::object().with("start", Json::text("never"));
    assert_eq!(period_from_json(&json).unwrap_err().message(), "invalid instant value: never");
}

#[test]
fn time_expires_at_the_deadline() {
    let created = utc(2026, 5, 18, 12);
    let gone = |value: &str, now: Instant| {
        is_expired(Some(ExpirationCondition::Time), Some(value), created, 0, None, now, &no_files())
    };
    assert!(!gone("2h", utc(2026, 5, 18, 13)));
    assert!(gone("2h", utc(2026, 5, 18, 14)));
    assert!(!gone("2026-05-19", utc(2026, 5, 18, 23)));
    assert!(gone("2026-05-19", utc(2026, 5, 19, 0)));
    assert!(gone("soon", created));
    assert!(is_expired(Some(ExpirationCondition::Time), None, created, 0, None, created, &no_files()));
    assert!(!is_expired(None, Some("soon"), created, 9, None, created, &no_files()));
    assert!(time_is_up(None, None, created, created));
}

#[test]
fn durations_have_units() {
    for (text, seconds) in [
        ("90", 90),
        ("1 sec", 1),
        ("2secs", 2),
        ("3 SECONDS", 3),
        ("5m", 300),
        (" 1min ", 60),
        ("2 minutes", 120),
        ("1h", 3_600),
        ("2hrs", 7_200),
        ("1 day", 86_400),
        ("2d", 172_800),
        ("1w", 604_800),
        ("3 Weeks", 1_814_400),
        ("0", 0),
    ] {
        assert_eq!(parse_duration(text).unwrap(), seconds, "{text}");
    }
    assert_eq!(parse_duration("  ").unwrap_err().message(), "duration cannot be empty");
    assert_eq!(parse_duration("-5m").unwrap_err().message(), "invalid duration value: -5m");
    assert_eq!(
        parse_duration("99999999999999999999").unwrap_err().message(),
        "invalid duration value: 99999999999999999999"
    );
    assert_eq!(
        parse_duration("5 Fortnights").unwrap_err().message(),
        "unsupported duration unit: fortnights"
    );
}

#[test]
fn duration_limits_are_those_of_chrono() {
    assert!(chrono::Duration::try_seconds(LONGEST_DURATION).is_some());
    assert!(chrono::Duration::try_seconds(LONGEST_DURATION + 1).is_none());
    assert!(chrono::Duration::try_weeks(LONGEST_DURATION / 604_800).is_some());
    assert!(chrono::Duration::try_weeks(LONGEST_DURATION / 604_800 + 1).is_none());
    assert!(fits_duration("9223372036854775"));
    assert!(!fits_duration("9223372036854776"));
    assert!(fits_duration("15250284452w"));
    assert!(!fits_duration("15250284453w"));
    assert!(fits_duration("soon"));
}

#[test]
fn instants_have_the_limits_of_chrono() {
    assert!(chrono::DateTime::from_timestamp(LAST_SECOND, 999_999_999).is_some());
    assert!(chrono::DateTime::from_timestamp(LAST_SECOND + 1, 0).is_none());
    assert!(chrono::DateTime::from_timestamp(FIRST_SECOND, 0).is_some());
    assert!(chrono::DateTime::from_timestamp(FIRST_SECOND - 1, 0).is_none());
    let epoch = chrono::NaiveDate::from_ymd_opt(1970, 1, 1).unwrap();
    assert_eq!(EPOCH_DAY, chrono::Datelike::num_days_from_ce(&epoch) as i64);
}

#[test]
fn adding_a_duration_agrees_with_chrono() {
    let starts = [
        (0_i64, 0_u32),
        (1_779_105_600, 123_456_789),
        (-5, 999_999_999),
        (1_483_228_799, 1_500_000_000),
        (59, 1_999_999_999),
    ];
    for (seconds, nanos) in starts {
        let start = Instant { seconds, nanos };
        let time = chrono::DateTime::from_timestamp(seconds, nanos).unwrap();
        for duration in [0, 1, 59, 86_400, 31_536_000] {
            let later = time + chrono::Duration::seconds(duration);
            for (more, nanos) in [
                (0_i64, later.timestamp_subsec_nanos()),
                (0, later.timestamp_subsec_nanos().saturating_sub(1)),
                (0, later.timestamp_subsec_nanos() + 1),
                (-1, 1_999_999_999),
                (-1, 0),
                (1, 0),
            ] {
                let now = Instant { seconds: later.timestamp() + more, nanos };
                let Some(then) = chrono::DateTime::from_timestamp(now.seconds, now.nanos) else {
                    continue;
                };
                assert_eq!(now.has_passed(start, duration.into()), then >= later);
            }
        }
    }
}

#[test]
fn instants_are_ordered_as_chrono_orders_them() {
    let points =
        [(0, 0), (0, 5), (1, 0), (-1, 999_999_999), (59, 1_999_999_999), (60, 0), (59, 999_999_999)];
    for (a, b) in points {
        for (c, d) in points {
            let left = chrono::DateTime::from_timestamp(a, b).unwrap();
            let right = chrono::DateTime::from_timestamp(c, d).unwrap();
            assert_eq!(
                Instant { seconds: a, nanos: b }.reached(Instant { seconds: c, nanos: d }),
                left >= right
            );
        }
    }
}

#[test]
fn instants_are_read_as_times_or_dates() {
    assert_eq!(parse_instant(" 2026-05-18T12:00:00Z ").unwrap(), utc(2026, 5, 18, 12));
    assert_eq!(parse_instant("2026-05-18T14:00:00+02:00").unwrap(), utc(2026, 5, 18, 12));
    assert_eq!(
        parse_instant("2026-05-18T12:00:00.25Z").unwrap(),
        Instant { nanos: 250_000_000, ..utc(2026, 5, 18, 12) }
    );
    assert_eq!(parse_instant("2026-05-18").unwrap(), utc(2026, 5, 18, 0));
    assert_eq!(parse_instant("1970-01-01").unwrap(), instant(0));
    assert_eq!(parse_instant("1969-12-31").unwrap(), instant(-86_400));
    assert_eq!(parse_instant(" 18.5. ").unwrap_err().message(), "invalid instant value: 18.5.");
    assert_eq!(resolve_instant("x", None, Some(719_164)).unwrap(), instant(86_400));
    assert_eq!(resolve_instant("x", Some(instant(3)), None).unwrap(), instant(3));
    assert_eq!(resolve_instant("x", None, None).unwrap_err().message(), "invalid instant value: x");
}

#[test]
fn written_times_are_read_back() {
    for point in [
        instant(0),
        Instant { seconds: 1_779_105_600, nanos: 123_456_789 },
        Instant { seconds: 1_779_105_600, nanos: 120_000_000 },
        instant(-62_167_219_200),
        Instant { seconds: 253_402_300_799, nanos: 999_999_999 },
    ] {
        assert_eq!(parse_time(&time_text(point)).unwrap(), point);
    }
    assert_eq!(time_text(instant(0)), "1970-01-01T00:00:00+00:00");
    assert!(parse_time("yesterday").is_err());
}

#[test]
fn usage_limits_are_positive_numbers() {
    assert_eq!(parse_usage_limit(" +3 ").unwrap(), 3);
    assert_eq!(
        parse_usage_limit("3x").unwrap_err().message(),
        "invalid usage expiration value: 3x"
    );
    assert_eq!(
        parse_usage_limit("-1").unwrap_err().message(),
        "usage expiration value must be greater than zero"
    );
    let now = instant(0);
    assert!(is_expired(Some(ExpirationCondition::Usage), Some("x"), now, 0, None, now, &no_files()));
}

#[test]
fn expiration_values_are_validated() {
    for (condition, value) in [
        (ExpirationCondition::Time, "5m"),
        (ExpirationCondition::Time, "2026-05-18"),
        (ExpirationCondition::Usage, "7"),
        (ExpirationCondition::FileExist, "a"),
        (ExpirationCondition::FilePristine, " b "),
        (ExpirationCondition::Period, "2026-05-18.."),
    ] {
        assert!(validate_expiration(condition, value).is_ok(), "{value}");
    }
    for (condition, value, message) in [
        (ExpirationCondition::Time, "soon", "invalid instant value: soon"),
        (ExpirationCondition::Usage, "seven", "invalid usage expiration value: seven"),
        (ExpirationCondition::FileExist, " ", "file-based expiration requires a path"),
        (ExpirationCondition::FilePristine, "", "file-based expiration requires a path"),
        (ExpirationCondition::Period, "x", "period must be formatted as start..end, start,end, or JSON"),
    ] {
        assert_eq!(validate_expiration(condition, value).unwrap_err().message(), message);
    }
}

#[test]
fn long_lifetimes_have_not_passed() {
    let now = utc(2026, 5, 18, 12);
    let gone = |value: &str| {
        is_expired(Some(ExpirationCondition::Time), Some(value), now, 0, None, now, &no_files())
    };
    assert!(validate_expiration(ExpirationCondition::Time, "9000000000000000s").is_ok());
    assert!(!gone("9000000000000000s"));
    assert!(!gone("9223372036854775807 weeks"));
    assert!(gone("0s"));
    assert_eq!(
        parse_seconds("9223372036854775807 weeks").unwrap(),
        i64::MAX as i128 * 604_800
    );
    assert_eq!(parse_seconds("5 m").unwrap(), 300);
    assert_eq!(parse_seconds("").unwrap_err().message(), "duration cannot be empty");
}

#[test]
fn shorter_durations_pass_first() {
    let start = utc(2026, 5, 18, 12);
    let now = utc(2026, 5, 18, 14);
    assert!(now.has_passed(start, 7_200));
    assert!(now.has_passed(start, 7_199));
    assert!(now.has_passed(start, 0));
    assert!(!now.has_passed(start, 7_201));
}

#[test]
fn instants_that_can_be_written() {
    assert!(instant(LAST_SECOND).can_be_written());
    assert!(instant(FIRST_SECOND).can_be_written());
    assert!(!instant(LAST_SECOND + 1).can_be_written());
    assert!(!instant(FIRST_SECOND - 1).can_be_written());
    assert!(!Instant { seconds: 59, nanos: 1_000_000_000 }.can_be_written());
}

#[test]
fn fingerprints_are_digests_of_contents() {
    let abc = files("f", FileState::Regular(b"abc".to_vec()));
    assert_eq!(
        fingerprint_file("f", &abc).unwrap().as_deref(),
        Some("ba7816bf8f01cfea414140de5dae2223b00361a396177a9cb410ff61f20015ad")
    );
    assert_eq!(fingerprint_file("g", &abc).unwrap(), None);

    let mut bytes = 4_096_u64.to_le_bytes().to_vec();
    bytes.extend_from_slice(&1_234_567_890_123_456_789_u128.to_le_bytes());
    let expected = fingerprint_file("f", &files("f", FileState::Regular(bytes))).unwrap();
    let special = files("f", FileState::Special(4_096, Some(1_234_567_890_123_456_789)));
    assert_eq!(fingerprint_file("f", &special).unwrap(), expected);

    let bytes = 4_096_u64.to_le_bytes().to_vec();
    let expected = fingerprint_file("f", &files("f", FileState::Regular(bytes))).unwrap();
    let special = files("f", FileState::Special(4_096, None));
    assert_eq!(fingerprint_file("f", &special).unwrap(), expected);

    let broken = files("f", FileState::Unreadable("failed to open f".to_string()));
    assert_eq!(fingerprint_file("f", &broken).unwrap_err().message(), "failed to open f");
}

#[test]
fn fingerprints_are_kept_for_pristine_files_alone() {
    let abc = files("f", FileState::Regular(b"abc".to_vec()));
    let kept = |condition, value| fingerprint_for_condition(condition, value, &abc);
    assert!(kept(Some(ExpirationCondition::FilePristine), Some("f")).unwrap().is_some());
    assert!(kept(Some(ExpirationCondition::FilePristine), Some("g")).unwrap().is_none());
    assert!(kept(Some(ExpirationCondition::FileExist), Some("f")).unwrap().is_none());
    assert!(kept(None, None).unwrap().is_none());
    assert_eq!(
        kept(Some(ExpirationCondition::FilePristine), None).unwrap_err().message(),
        "file_pristine expiration requires a path"
    );
    assert!(!fingerprint_changed(Some("a"), Some("a")));
    assert!(fingerprint_changed(Some("a"), Some("b")));
    assert!(fingerprint_changed(None, Some("a")));
    assert!(fingerprint_changed(Some("a"), None));
}

#[test]
fn files_decide_on_memories() {
    let now = instant(0);
    let gone = |condition, kept: Option<&str>, files: &Files| {
        is_expired(Some(condition), Some("f"), now, 0, kept, now, files)
    };
    let abc = files("f", FileState::Regular(b"abc".to_vec()));
    let print = fingerprint_file("f", &abc).unwrap();
    let broken = files("f", FileState::Unreadable("no".to_string()));

    assert!(!gone(ExpirationCondition::FileExist, None, &abc));
    assert!(!gone(ExpirationCondition::FileExist, None, &broken));
    assert!(gone(ExpirationCondition::FileExist, None, &no_files()));
    assert!(!gone(ExpirationCondition::FilePristine, print.as_deref(), &abc));
    assert!(gone(ExpirationCondition::FilePristine, None, &abc));
    assert!(gone(ExpirationCondition::FilePristine, print.as_deref(), &broken));
    assert!(gone(ExpirationCondition::FilePristine, print.as_deref(), &no_files()));
}
