use sio::Time;
use std::time::Duration;

#[test]
fn min_is_zero() {
    assert_eq!(Time::min().ns, 0);
    assert_eq!(Time::new(5).ns, 5);
}

#[test]
fn adding_a_duration_scales_seconds() {
    let t = Time::new(7) + Duration::new(2, 3);
    assert_eq!(t.ns, 7 + 2 * 100_000_000_000 + 3);
    assert_eq!(Time::new(1).after(1, 0).ns, 100_000_000_001);
}

#[test]
fn epoch_readings() {
    assert_eq!(Time::from_epoch_reading(None).ns, 0);
    assert_eq!(Time::from_epoch_reading(Some((2, 5))).ns, 2_000_000_005);
    assert_eq!(Time::from_epoch_reading(Some((u64::MAX, 0))).ns, 0);
}

#[test]
fn now_is_after_the_epoch() {
    assert!(Time::now().ns > 1_000_000_000_000_000_000);
}
