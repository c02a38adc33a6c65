use std::time::{Duration as StdDuration, SystemTime, UNIX_EPOCH};

use bombadil::time::{Duration, Time};

#[test]
fn system_time_roundtrip() {
    for micros in [0u64, 1, 1_700_000_000_123_456, 4_102_444_800_000_000] {
        let t = Time(micros);
        assert_eq!(Time::from_system_time(t.to_system_time().unwrap()), t);
    }
    let now = SystemTime::now();
    let expected = now.duration_since(UNIX_EPOCH).unwrap().as_micros() as u64;
    assert_eq!(Time::from_system_time(now).as_micros(), expected);
    assert_eq!(Time::from_system_time(UNIX_EPOCH - StdDuration::from_secs(5)), Time(0));
}

#[test]
fn checked_add_and_duration_since() {
    assert_eq!(Time(10).checked_add(Duration::from_millis(2)), Some(Time(2010)));
    assert_eq!(Time(u64::MAX).checked_add(Duration::from_micros(1)), None);
    assert_eq!(Time(5000).duration_since(Time(2000)), Ok(Duration::from_micros(3000)));
    assert_eq!(Time(2000).duration_since(Time(5000)), Err(Duration::from_micros(3000)));
    assert_eq!(Time(7) + Duration::from_micros(3), Time(10));
}

#[test]
fn duration_parts() {
    let d = Duration::from_millis(1500);
    assert_eq!(d.as_secs(), 1);
    assert_eq!(d.subsec_nanos(), 500_000_000);
    assert_eq!(d.as_micros(), 1_500_000);
    assert_eq!(d.as_millis(), 1500);
}
