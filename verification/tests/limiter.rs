use noteflow_backend::limiter::RateLimiter;

#[test]
fn burst_is_admitted_up_to_the_limit() {
    let mut limiter = RateLimiter::new(3, 60);
    assert!(limiter.check_rate_limit("10.0.0.1", 100));
    assert!(limiter.check_rate_limit("10.0.0.1", 101));
    assert!(limiter.check_rate_limit("10.0.0.1", 102));
    assert!(!limiter.check_rate_limit("10.0.0.1", 103));
    assert!(!limiter.check_rate_limit("10.0.0.1", 110));
}

#[test]
fn keys_have_isolated_budgets() {
    let mut limiter = RateLimiter::new(1, 60);
    assert!(limiter.check_rate_limit("a", 100));
    assert!(limiter.check_rate_limit("b", 100));
    assert!(!limiter.check_rate_limit("a", 101));
    assert!(!limiter.check_rate_limit("b", 101));
}

#[test]
fn window_slides_and_budget_returns() {
    let mut limiter = RateLimiter::new(2, 60);
    assert!(limiter.check_rate_limit("k", 100));
    assert!(limiter.check_rate_limit("k", 101));
    assert!(!limiter.check_rate_limit("k", 120));
    // At 161 both stamps are 60 or more seconds old, so the window
    // has slid past them and the call is admitted again.
    assert!(limiter.check_rate_limit("k", 161));
}

#[test]
fn remaining_never_exceeds_limit_and_hits_zero() {
    let mut limiter = RateLimiter::new(3, 60);
    assert_eq!(limiter.get_remaining("k", 100), 3);
    assert!(limiter.check_rate_limit("k", 100));
    assert_eq!(limiter.get_remaining("k", 100), 2);
    assert!(limiter.check_rate_limit("k", 101));
    assert!(limiter.check_rate_limit("k", 102));
    assert_eq!(limiter.get_remaining("k", 102), 0);
    assert!(!limiter.check_rate_limit("k", 103));
    assert_eq!(limiter.get_remaining("k", 103), 0);
    // Once the window slides, the reported budget recovers too.
    assert_eq!(limiter.get_remaining("k", 162), 3);
}

#[test]
fn serialized_burst_admits_exactly_the_limit() {
    // Concurrent admissions serialize on the store's write lock; the
    // serialized order is what the limiter sees.  Whatever that
    // order, a burst of seven calls against a limit of three yields
    // exactly three admissions.
    let mut limiter = RateLimiter::new(3, 60);
    let mut admitted = 0;
    let mut rejected = 0;
    for _ in 0..7 {
        if limiter.check_rate_limit("k", 500) {
            admitted += 1;
        } else {
            rejected += 1;
        }
    }
    assert_eq!(admitted, 3);
    assert_eq!(rejected, 4);
}

#[test]
fn sweep_drops_stale_keys_and_keeps_live_records() {
    let mut limiter = RateLimiter::new(2, 60);
    assert!(limiter.check_rate_limit("old", 100));
    assert!(limiter.check_rate_limit("old", 101));
    assert!(limiter.check_rate_limit("fresh", 400));
    limiter.cleanup(420);
    // The stale key was removed outright: its budget is full again.
    assert_eq!(limiter.get_remaining("old", 420), 2);
    assert!(limiter.check_rate_limit("old", 420));
    // The live key kept its non-stale timestamp.
    assert_eq!(limiter.get_remaining("fresh", 420), 1);
    assert!(limiter.check_rate_limit("fresh", 420));
    assert!(!limiter.check_rate_limit("fresh", 421));
}
