//! Timestamps, periods and the calendar.

use sq_pkcs11::calendar::{add_years, date_of_day, day_of_date, leap, month_days, year_start, Date};
use sq_pkcs11::openpgp::UnixTime;
use sq_pkcs11::time::{
    can_parse_validity, parse_creation_time, parse_validity, parse_validity_from,
    require_creation_time,
};

fn at(secs: u64) -> UnixTime {
    UnixTime { secs, nanos: 0 }
}

#[test]
fn creation_time_default_is_epoch() {
    assert_eq!(parse_creation_time(None).unwrap(), UnixTime::epoch());
}

#[test]
fn creation_time_rfc3339_round_trip() {
    let t = parse_creation_time(Some("2026-04-30T16:29:30Z")).unwrap();
    let expected = humantime::parse_rfc3339("2026-04-30T16:29:30Z").unwrap();
    let since = expected
        .duration_since(std::time::SystemTime::UNIX_EPOCH)
        .unwrap();
    assert_eq!(t, at(since.as_secs()));
    assert_eq!(t, at(1_777_566_570));
}

#[test]
fn creation_time_garbage_rejected() {
    assert!(parse_creation_time(Some("not a date")).is_err());
    assert!(parse_creation_time(Some("")).is_err());
}

#[test]
fn creation_time_requires_timezone() {
    assert!(parse_creation_time(Some("2026-04-30T16:29:30")).is_err());
}

#[test]
fn creation_time_keeps_its_fraction() {
    let t = parse_creation_time(Some("2026-04-30T16:29:30.5Z")).unwrap();
    assert_eq!(
        t,
        UnixTime {
            secs: 1_777_566_570,
            nanos: 500_000_000
        }
    );
}

#[test]
fn faulty_creation_time_is_named() {
    let err = parse_creation_time(Some("yesterday")).unwrap_err();
    assert_eq!(
        err.to_string(),
        "invalid --creation-time \"yesterday\"; use RFC 3339, e.g. 2026-04-30T16:29:30Z"
    );
    assert!(err.cause().is_some());
}

#[test]
fn commands_have_no_default_creation_time() {
    let err = require_creation_time(None, "--creation-time").unwrap_err();
    assert!(err.to_string().starts_with("--creation-time is required"));
    assert_eq!(
        require_creation_time(Some("1970-01-01T00:00:00Z"), "--creation-time").unwrap(),
        UnixTime::epoch()
    );
}

#[test]
fn validity_years_uses_calendar_approximation() {
    // 1y = 365.25 * 86400 = 31,557,600 s
    let d = parse_validity("1y").unwrap();
    assert_eq!(d.as_secs(), 31_557_600);
    // 5y = 5 * 31,557,600
    assert_eq!(parse_validity("5y").unwrap().as_secs(), 157_788_000);
}

#[test]
fn validity_humantime_units() {
    assert_eq!(parse_validity("30d").unwrap().as_secs(), 30 * 86_400);
    assert_eq!(parse_validity("1w").unwrap().as_secs(), 7 * 86_400);
    assert_eq!(parse_validity("48h").unwrap().as_secs(), 48 * 3_600);
}

#[test]
fn validity_default_is_5_years() {
    assert_eq!(parse_validity("5y").unwrap().as_secs(), 157_788_000);
}

#[test]
fn validity_rejects_garbage() {
    assert!(parse_validity("forever").is_err());
    assert!(parse_validity("").is_err());
    assert!(parse_validity("xy").is_err());
}

#[test]
fn validity_rejects_negative() {
    assert!(parse_validity("-3y").is_err());
}

#[test]
fn validity_ignores_white_space_around_it() {
    assert_eq!(parse_validity(" 2 y ").unwrap().as_secs(), 63_115_200);
    assert_eq!(parse_validity("\t30d\n").unwrap().as_secs(), 2_592_000);
    assert_eq!(parse_validity("+1y").unwrap().as_secs(), 31_557_600);
    assert_eq!(parse_validity("-0y").unwrap().as_secs(), 0);
}

#[test]
fn validity_is_cut_off_at_the_largest_number() {
    assert_eq!(parse_validity("99999999999y").unwrap().as_secs(), 3_155_759_999_968_442_400);
    assert_eq!(parse_validity("999999999999999999999y").unwrap().as_secs(), u64::MAX);
}

#[test]
fn faulty_validity_is_named() {
    let err = parse_validity("-3y").unwrap_err();
    assert_eq!(err.to_string(), "--validity-period must be non-negative");
    let err = parse_validity("xy").unwrap_err();
    assert_eq!(err.to_string(), "invalid years value in --validity-period \"xy\"");
    assert_eq!(err.cause(), Some("invalid digit found in string"));
    let err = parse_validity("y").unwrap_err();
    assert_eq!(err.cause(), Some("cannot parse integer from empty string"));
    let err = parse_validity("forever").unwrap_err();
    assert_eq!(
        err.to_string(),
        "invalid --validity-period \"forever\"; use Ny, Nw, Nd, or Nh (e.g. 5y, 60d)"
    );
    assert_eq!(err.cause(), Some("expected number at 0"));
}

#[test]
fn years_end_on_the_same_date() {
    // 2026-05-10T19:53:26Z + 5y = 2031-05-10T19:53:26Z
    let p = parse_validity_from("5y", at(1_778_442_806)).unwrap();
    assert_eq!(1_778_442_806 + p.as_secs(), 1_936_209_206);
    assert_eq!(p.as_secs(), 157_766_400);
}

#[test]
fn years_from_a_leap_day_end_in_february() {
    // 2024-02-29 + 1y = 2025-02-28; + 4y = 2028-02-29
    let p = parse_validity_from("1y", at(1_709_164_800)).unwrap();
    assert_eq!(1_709_164_800 + p.as_secs(), 1_740_700_800);
    let p = parse_validity_from("4y", at(1_709_164_800)).unwrap();
    assert_eq!(1_709_164_800 + p.as_secs(), 1_835_395_200);
}

#[test]
fn other_units_do_not_depend_on_the_start() {
    for start in [0, 1_709_164_800, 1_778_442_806] {
        assert_eq!(parse_validity_from("60d", at(start)).unwrap().as_secs(), 5_184_000);
        assert_eq!(parse_validity_from("2w", at(start)).unwrap().as_secs(), 1_209_600);
    }
    assert!(parse_validity_from("soon", at(0)).is_err());
    assert!(parse_validity_from("-1y", at(0)).is_err());
}

#[test]
fn only_moderate_numbers_are_handed_on() {
    for text in [
        "5y",
        "99999999999999999999y",
        "60d",
        "1h 30m",
        "1000000 minutes 1000000 hours",
        "123456789012 seconds 1 ms",
        "18446744073709551615us",
        "18446744073709551613.5s",
        "18446744073709551615s",
        "0.123456789012 s",
        "",
        "soon",
    ] {
        assert!(can_parse_validity(text), "{text}");
        let _ = parse_validity(text);
    }
    // Seconds that a carry from the nanoseconds could overflow.
    assert!(!can_parse_validity("18446744073709551615s 1000ms"));
    assert!(!can_parse_validity("18446744073709551615.9s 100ms"));
    assert!(!can_parse_validity("1 8446744073709551615s 1000000000ns"));
    assert!(!can_parse_validity("307445734561825860min 16s 999ms"));
}

#[test]
fn long_periods_are_read_exactly() {
    let p = parse_validity("1000000 minutes 1000000 hours").unwrap();
    assert_eq!(p.as_secs(), 3_660_000_000);
    let p = parse_validity("123456789012 seconds 1 ms").unwrap();
    assert_eq!((p.as_secs(), p.nanos), (123_456_789_012, 1_000_000));
}

#[test]
fn dates_and_days_belong_together() {
    assert_eq!(date_of_day(0), Date { year: 1970, month: 1, day: 1 });
    assert_eq!(date_of_day(19_782), Date { year: 2024, month: 2, day: 29 });
    assert_eq!(date_of_day(20_583), Date { year: 2026, month: 5, day: 10 });
    for days in [0, 58, 59, 364, 365, 789, 790, 11_016, 19_782, 47_540, 1_000_000] {
        assert_eq!(day_of_date(&date_of_day(days)), days);
    }
}

#[test]
fn leap_years_follow_the_gregorian_rule() {
    assert!(leap(2000) && leap(2024) && !leap(1900) && !leap(2026) && !leap(2100));
    assert_eq!(month_days(2024, 2), 29);
    assert_eq!(month_days(2100, 2), 28);
    assert_eq!(month_days(2026, 4), 30);
    assert_eq!(year_start(1970), 0);
    assert_eq!(year_start(1971), 365);
    assert_eq!(year_start(2026), 20_454);
}

#[test]
fn no_years_change_no_time() {
    assert_eq!(add_years(1_778_442_806, 0), 1_778_442_806);
    assert_eq!(add_years(1_767_225_600, 10), 2_082_758_400);
    assert_eq!(add_years(1_767_225_600, 1), 1_798_761_600);
}
