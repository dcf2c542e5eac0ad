use chatgpt_proxy::middleware::RequestTracker;

#[test]
fn inclusive_boundary_requests() {
    let mut tracker = RequestTracker::new();
    let ip: u128 = 1;
    let now: u64 = 1_000_000;
    for _ in 0..5 {
        assert!(tracker.check_and_record_request(ip, 5, now));
    }
    // the sixth call within the same window is rejected: the limit is inclusive
    assert!(!tracker.check_and_record_request(ip, 5, now));
    // still rejected just before the window elapses
    assert!(!tracker.check_and_record_request(ip, 5, now + 59_999));
    // admitted again once the window has fully elapsed
    assert!(tracker.check_and_record_request(ip, 5, now + 60_000));
}

#[test]
fn rejection_does_not_record() {
    let mut tracker = RequestTracker::new();
    let ip: u128 = 7;
    let now: u64 = 500;
    assert!(tracker.check_and_record_request(ip, 1, now));
    // rejected calls leave no trace: after the window, one call is free again
    assert!(!tracker.check_and_record_request(ip, 1, now + 1));
    assert!(!tracker.check_and_record_request(ip, 1, now + 2));
    assert!(tracker.check_and_record_request(ip, 1, now + 60_000));
}

#[test]
fn independence_across_identities() {
    let mut tracker = RequestTracker::new();
    let now: u64 = 42;
    let n: u32 = 4;
    for _ in 0..n {
        assert!(tracker.check_and_record_request(1, n, now));
        assert!(tracker.check_and_record_request(2, n, now));
    }
    assert!(!tracker.check_and_record_request(1, n, now));
    assert!(!tracker.check_and_record_request(2, n, now));
}

#[test]
fn token_window_reset_is_atomic() {
    let mut tracker = RequestTracker::new();
    let ip: u128 = 3;
    let start: u64 = 10_000;
    assert!(tracker.record_token_usage(ip, 100, 1_000, start));
    // exactly at window expiry the window resets to the new call's count,
    // however large it is relative to the budget
    assert!(tracker.record_token_usage(ip, 5_000, 1_000, start + 60_000));
    // the oversized reset now fills the window: the next tokens are rejected
    assert!(!tracker.record_token_usage(ip, 1, 1_000, start + 60_001));
}

#[test]
fn token_budget_is_enforced_within_window() {
    let mut tracker = RequestTracker::new();
    let ip: u128 = 4;
    let start: u64 = 0;
    // the first observation of an identity always succeeds
    assert!(tracker.record_token_usage(ip, 9_000, 8_000, start));
    // within the window the budget holds: 9000 + 1 > 8000
    assert!(!tracker.record_token_usage(ip, 1, 8_000, start + 1));
    let mut fresh = RequestTracker::new();
    assert!(fresh.record_token_usage(ip, 4_000, 8_000, start));
    assert!(fresh.record_token_usage(ip, 4_000, 8_000, start + 1));
    assert!(!fresh.record_token_usage(ip, 1, 8_000, start + 2));
}

#[test]
fn token_windows_are_per_identity() {
    let mut tracker = RequestTracker::new();
    let start: u64 = 100;
    assert!(tracker.record_token_usage(1, 8_000, 8_000, start));
    // a full window for one identity leaves another identity's budget whole
    assert!(tracker.record_token_usage(2, 8_000, 8_000, start));
    assert!(!tracker.record_token_usage(1, 1, 8_000, start + 1));
    assert!(!tracker.record_token_usage(2, 1, 8_000, start + 1));
}
