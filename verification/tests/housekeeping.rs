use fetchly::housekeeping::{is_stale, TEMP_MAX_AGE_SECS, TEMP_SWEEP_SECS};

#[test]
fn stale_after_ten_minutes() {
    assert_eq!(TEMP_MAX_AGE_SECS, 600);
    assert_eq!(TEMP_SWEEP_SECS, 300);
    assert!(!is_stale(0));
    assert!(!is_stale(600));
    assert!(is_stale(601));
}
