use superbook_pdf::rate_limit::RateLimitConfig;
use superbook_pdf::rate_limit::RateLimitResult;
use superbook_pdf::rate_limit::RateLimiter;

fn limiter(capacity: u32, refill_per_sec: u32) -> RateLimiter {
    RateLimiter::new(RateLimitConfig { capacity, refill_per_sec })
}

#[test]
fn test_token_bucket_five_then_reject_then_refill() {
    // Capacity 5, refill 1 token per second.
    let mut limiter = limiter(5, 1);
    let t0: u64 = 10_000;
    for _ in 0..5 {
        assert!(matches!(limiter.check(42, t0), RateLimitResult::Allowed(_)));
    }
    match limiter.check(42, t0) {
        RateLimitResult::Rejected(e) => assert_eq!(e.retry_after_ms, 1_000),
        RateLimitResult::Allowed(_) => panic!("sixth request must be rejected"),
    }
    // After about a second one further request succeeds.
    match limiter.check(42, t0 + 1_000) {
        RateLimitResult::Allowed(st) => assert_eq!(st.remaining, 0),
        RateLimitResult::Rejected(_) => panic!("request after refill must pass"),
    }
    assert!(matches!(
        limiter.check(42, t0 + 1_000),
        RateLimitResult::Rejected(_)
    ));
}

#[test]
fn test_token_bucket_identities_are_independent() {
    let mut limiter = limiter(1, 1);
    let t0: u64 = 5_000;
    assert!(matches!(limiter.check(1, t0), RateLimitResult::Allowed(_)));
    assert!(matches!(limiter.check(1, t0), RateLimitResult::Rejected(_)));
    assert!(matches!(limiter.check(2, t0), RateLimitResult::Allowed(_)));
}

#[test]
fn test_token_bucket_never_exceeds_capacity() {
    let mut limiter = limiter(3, 10);
    let t0: u64 = 1_000;
    // Drain the bucket, then wait far longer than needed to refill it.
    for _ in 0..3 {
        assert!(matches!(limiter.check(7, t0), RateLimitResult::Allowed(_)));
    }
    let much_later = t0 + 3_600_000;
    for _ in 0..3 {
        assert!(matches!(
            limiter.check(7, much_later),
            RateLimitResult::Allowed(_)
        ));
    }
    assert!(matches!(
        limiter.check(7, much_later),
        RateLimitResult::Rejected(_)
    ));
}

#[test]
fn test_token_bucket_partial_refill() {
    // 2 tokens per second: half a second buys one token.
    let mut limiter = limiter(1, 2);
    let t0: u64 = 0;
    assert!(matches!(limiter.check(9, t0), RateLimitResult::Allowed(_)));
    match limiter.check(9, t0) {
        RateLimitResult::Rejected(e) => assert_eq!(e.retry_after_ms, 500),
        RateLimitResult::Allowed(_) => panic!("bucket should be empty"),
    }
    assert!(matches!(
        limiter.check(9, t0 + 499),
        RateLimitResult::Rejected(_)
    ));
    assert!(matches!(
        limiter.check(9, t0 + 500),
        RateLimitResult::Allowed(_)
    ));
}

#[test]
fn test_rate_limit_status_reports_remaining() {
    let mut limiter = limiter(5, 1);
    match limiter.check(1, 0) {
        RateLimitResult::Allowed(st) => {
            assert_eq!(st.remaining, 4);
            assert_eq!(st.limit, 5);
        }
        RateLimitResult::Rejected(_) => panic!("first request must pass"),
    }
    assert_eq!(limiter.config().capacity, 5);
}

#[test]
fn test_clock_going_backward_credits_nothing() {
    let mut limiter = limiter(1, 1);
    assert!(matches!(limiter.check(3, 50_000), RateLimitResult::Allowed(_)));
    assert!(matches!(limiter.check(3, 10_000), RateLimitResult::Rejected(_)));
}
