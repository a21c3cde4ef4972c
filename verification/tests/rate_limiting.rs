use sufast_core::rate_limiting::RateLimiter;

const SECOND: u128 = 1_000_000_000;

#[test]
fn test_rate_limiter_basic() {
    let mut limiter = RateLimiter::new(5, 60); // 5 requests per minute

    // Should allow first 5 requests
    for _ in 0..5 {
        assert!(limiter.check_rate_limit("client1"));
    }

    // Should block 6th request
    assert!(!limiter.check_rate_limit("client1"));
}

#[test]
fn test_rate_limiter_different_clients() {
    let mut limiter = RateLimiter::new(2, 60);

    assert!(limiter.check_rate_limit("client1"));
    assert!(limiter.check_rate_limit("client2"));
    assert!(limiter.check_rate_limit("client1"));
    assert!(limiter.check_rate_limit("client2"));

    // Both clients should be at limit now
    assert!(!limiter.check_rate_limit("client1"));
    assert!(!limiter.check_rate_limit("client2"));
}

#[test]
fn test_rate_limiter_window_reset() {
    let mut limiter = RateLimiter::new(2, 1); // 2 requests per second

    assert!(limiter.check_rate_limit_at("client1", 0));
    assert!(limiter.check_rate_limit_at("client1", SECOND / 2));
    assert!(!limiter.check_rate_limit_at("client1", SECOND - 1));

    // Once the window has passed, requests are allowed again
    assert!(limiter.check_rate_limit_at("client1", SECOND));
}

#[test]
fn test_remaining_requests() {
    let mut limiter = RateLimiter::new(5, 60);

    assert_eq!(limiter.get_remaining_requests("client1"), 5);

    limiter.check_rate_limit("client1");
    assert_eq!(limiter.get_remaining_requests("client1"), 4);

    limiter.check_rate_limit("client1");
    assert_eq!(limiter.get_remaining_requests("client1"), 3);
}

#[test]
fn remaining_requests_at_fixed_instants() {
    let mut limiter = RateLimiter::new(3, 10);
    assert_eq!(limiter.get_remaining_requests_at("a", 0), 3);
    assert!(limiter.check_rate_limit_at("a", 5));
    assert!(limiter.check_rate_limit_at("a", 6));
    assert_eq!(limiter.get_remaining_requests_at("a", 7), 1);
    assert!(limiter.check_rate_limit_at("a", 8));
    assert_eq!(limiter.get_remaining_requests_at("a", 9), 0);
    assert!(!limiter.check_rate_limit_at("a", 9));
    // the window opened at 5 and lasts ten seconds
    assert_eq!(limiter.get_reset_time("a"), Some(5 + 10 * SECOND));
    assert_eq!(limiter.get_reset_time("b"), None);
    assert_eq!(limiter.get_remaining_requests_at("a", 5 + 10 * SECOND), 3);
    assert!(limiter.check_rate_limit_at("a", 5 + 10 * SECOND));
    assert_eq!(limiter.get_reset_time("a"), Some(5 + 20 * SECOND));
}

#[test]
fn closed_windows_of_other_clients_are_dropped() {
    let mut limiter = RateLimiter::new(1, 1);
    assert!(limiter.check_rate_limit_at("a", 0));
    assert!(limiter.check_rate_limit_at("b", 2 * SECOND));
    // the entry of "a" went when "b" asked
    assert_eq!(limiter.get_reset_time("a"), None);
    assert_eq!(limiter.get_reset_time("b"), Some(3 * SECOND));
}

#[test]
fn a_clock_that_reads_earlier_counts_as_no_time_passed() {
    let mut limiter = RateLimiter::new(1, 1);
    assert!(limiter.check_rate_limit_at("a", 10 * SECOND));
    assert!(!limiter.check_rate_limit_at("a", 0));
}
