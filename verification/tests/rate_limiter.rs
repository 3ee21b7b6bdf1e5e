use llm_translator::validation::limits::RateLimitError;
use llm_translator::validation::limits::RateLimiter;

#[test]
fn test_minute_rate_limit() {
    let mut limiter = RateLimiter::new(3, 100);

    // First 3 requests should succeed
    assert!(limiter.check_and_update().is_ok());
    assert!(limiter.check_and_update().is_ok());
    assert!(limiter.check_and_update().is_ok());

    // 4th request should fail
    assert!(matches!(
        limiter.check_and_update(),
        Err(RateLimitError::MinuteLimit { .. })
    ));
}

#[test]
fn test_daily_rate_limit() {
    let mut limiter = RateLimiter::new(100, 5);

    // Use up daily limit
    for _ in 0..5 {
        assert!(limiter.check_and_update().is_ok());
    }

    // Next request should fail with daily limit
    assert!(matches!(
        limiter.check_and_update(),
        Err(RateLimitError::DailyLimit { .. })
    ));
}

#[test]
fn test_minute_window_sliding() {
    let mut limiter = RateLimiter::new(2, 100);

    // Use up the limit
    assert!(limiter.check_and_update().is_ok());
    assert!(limiter.check_and_update().is_ok());
    assert!(limiter.check_and_update().is_err());

    // Reset for testing
    limiter.reset_daily_count();

    // Should work again
    assert!(limiter.check_and_update().is_ok());
}

#[test]
fn test_remaining_counts() {
    let mut limiter = RateLimiter::new(5, 10);

    assert_eq!(limiter.remaining_today(), 10);
    assert_eq!(limiter.remaining_this_minute(), 5);

    limiter.check_and_update().unwrap();

    assert_eq!(limiter.remaining_today(), 9);
    assert_eq!(limiter.remaining_this_minute(), 4);
}

#[test]
fn test_next_available() {
    let mut limiter = RateLimiter::new(1, 100);

    // First request succeeds
    assert!(limiter.check_and_update().is_ok());

    // Should have wait time
    let wait = limiter.next_available();
    assert!(wait.is_some());
    assert!(wait.unwrap() <= 60000);
}

#[test]
fn test_window_slides_at_explicit_instants() {
    let mut limiter = RateLimiter::new(2, 100);
    let t0: u64 = 1_000_000;

    assert!(limiter.check_and_update_at(t0).is_ok());
    assert!(limiter.check_and_update_at(t0 + 1).is_ok());
    // The window is full for the whole minute after the oldest entry.
    match limiter.check_and_update_at(t0 + 2) {
        Err(RateLimitError::MinuteLimit { wait_time_ms }) => {
            assert_eq!(wait_time_ms, 60000 - 2);
        }
        other => panic!("expected a minute-window denial, got {:?}", other),
    }
    // Once the oldest entry ages past 60 seconds, one admission succeeds.
    assert!(limiter.check_and_update_at(t0 + 60000).is_ok());
}

#[test]
fn test_daily_cap_beats_minute_window() {
    let mut limiter = RateLimiter::new(10, 2);
    let t0: u64 = 5_000_000;
    assert!(limiter.check_and_update_at(t0).is_ok());
    assert!(limiter.check_and_update_at(t0 + 1).is_ok());
    match limiter.check_and_update_at(t0 + 2) {
        Err(RateLimitError::DailyLimit { used, max }) => {
            assert_eq!(used, 2);
            assert_eq!(max, 2);
        }
        other => panic!("expected a daily-cap denial, got {:?}", other),
    }
    // Even with the minute window empty again much later the same day,
    // the daily cap still denies.
    assert!(matches!(
        limiter.check_and_update_at(t0 + 10_000_000),
        Err(RateLimitError::DailyLimit { .. })
    ));
}

#[test]
fn test_daily_counter_resets_at_utc_rollover() {
    let day_ms: u64 = 86_400_000;
    let mut limiter = RateLimiter::new(10, 1);
    let t0: u64 = 3 * day_ms + 1000;
    assert!(limiter.check_and_update_at(t0).is_ok());
    assert!(limiter.check_and_update_at(t0 + 1).is_err());
    // The first call on the next UTC day starts from a cleared counter.
    assert!(limiter.check_and_update_at(4 * day_ms + 5).is_ok());
    let stats = limiter.get_stats();
    assert_eq!(stats.requests_today, 1);
}

#[test]
fn test_update_limits_keeps_state() {
    let mut limiter = RateLimiter::new(2, 10);
    limiter.check_and_update().unwrap();
    limiter.update_limits(5, 20);
    let stats = limiter.get_stats();
    assert_eq!(stats.max_per_minute, 5);
    assert_eq!(stats.max_per_day, 20);
    assert_eq!(stats.requests_today, 1);
    assert_eq!(stats.requests_this_minute, 1);
}
