use plexus::time::{Duration, MAX_NANOS};

#[test]
fn duration_units() {
    assert_eq!(Duration::from_secs(2), Duration::from_millis(2000));
    assert_eq!(Duration::from_millis(1500).as_millis(), 1500);
    assert_eq!(Duration::from_millis(1500).as_secs(), 1);
    assert_eq!(Duration::from_millis(1500).subsec_nanos(), 500_000_000);
    assert_eq!(Duration::new(1, 2).as_nanos(), 1_000_000_002);
    assert_eq!(Duration::zero().as_nanos(), 0);
}

#[test]
fn duration_arithmetic() {
    let a = Duration::from_millis(100);
    assert_eq!(a.checked_mul(4), Some(Duration::from_millis(400)));
    assert_eq!(a.plus(a), Duration::from_millis(200));
    assert_eq!(a.min(Duration::from_millis(50)), Duration::from_millis(50));
    assert!(a.is_at_most(&Duration::from_millis(100)));
    let max = Duration::new(u64::MAX, 999_999_999);
    assert_eq!(max.as_nanos(), MAX_NANOS);
    assert_eq!(max.checked_add(Duration::new(0, 1)), None);
    assert_eq!(Duration::from_secs(u64::MAX).checked_mul(2), None);
}
