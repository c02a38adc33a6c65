use bombadil::duration::{format_duration, parse_duration, parse_trimmed_duration};
use bombadil::time::Duration;

#[test]
fn roundtrip() {
    for secs in [1u64, 2, 59, 60, 61, 3599, 3600, 7200, 86399, 86400, 172800, 90061, u64::MAX / 86400 * 86400, u64::MAX] {
        let d = Duration::from_secs(secs);
        let formatted = format_duration(d);
        let parsed = parse_duration(&formatted).unwrap();
        assert_eq!(parsed, d);
    }
}

#[test]
fn rejects_compound_duration() {
    assert!(parse_duration("1h30m").is_err());
}

#[test]
fn rejects_zero() {
    let err = parse_duration("0s").unwrap_err();
    assert_eq!(err, "duration must be greater than zero");
}

#[test]
fn rejects_invalid_input() {
    assert!(parse_duration("abc").is_err());
}

#[test]
fn parses_each_unit() {
    assert_eq!(parse_duration("30s").unwrap(), Duration::from_secs(30));
    assert_eq!(parse_duration("5m").unwrap(), Duration::from_secs(300));
    assert_eq!(parse_duration("2h").unwrap(), Duration::from_secs(7200));
    assert_eq!(parse_duration(" 1d \n").unwrap(), Duration::from_secs(86400));
}

#[test]
fn formats_in_the_largest_unit() {
    assert_eq!(format_duration(Duration::from_secs(0)), "0s");
    assert_eq!(format_duration(Duration::from_secs(90)), "90s");
    assert_eq!(format_duration(Duration::from_secs(120)), "2m");
    assert_eq!(format_duration(Duration::from_secs(10800)), "3h");
    assert_eq!(format_duration(Duration::from_secs(172800)), "2d");
    assert_eq!(format_duration(Duration::from_millis(1500)), "1s");
}

#[test]
fn error_messages() {
    assert_eq!(parse_duration("30").unwrap_err(), "missing unit suffix in \"30\" (expected s, m, h, or d)");
    assert_eq!(parse_duration("s").unwrap_err(), "missing number before unit in \"s\" (expected e.g. 30s, 5m, 2h, 1d)");
    assert_eq!(parse_duration("99999999999999999999s").unwrap_err(), "invalid number in \"99999999999999999999s\"");
    assert_eq!(parse_duration("3w").unwrap_err(), "unknown unit \"w\" (expected s, m, h, or d)");
    assert_eq!(parse_duration("1h30m").unwrap_err(), "unknown unit \"h30m\" (expected s, m, h, or d)");
    assert_eq!(parse_duration("18446744073709551615d").unwrap_err(), "duration value too large");
    assert_eq!(parse_trimmed_duration("0m").unwrap_err(), "duration must be greater than zero");
}

#[test]
fn largest_number_of_seconds() {
    assert_eq!(parse_duration("18446744073709551615s").unwrap(), Duration::from_secs(u64::MAX));
    assert!(parse_duration("18446744073709551616s").is_err());
}
