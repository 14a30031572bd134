use lbplaylist::client::{
    RateLimitedClient, SendStep, TokenBucket, BURST, RATE_PER_SECOND, RETRY_DELAY_MS,
};

#[test]
fn test_burst_exhaustion_back_to_back() {
    let mut bucket = TokenBucket::new(RATE_PER_SECOND, BURST, 0);
    for _ in 0..30 {
        let (granted, wait) = bucket.try_acquire(0);
        assert!(granted);
        assert_eq!(wait, 0);
    }
    let (granted, wait) = bucket.try_acquire(0);
    assert!(!granted);
    assert!(wait >= 1);
}

#[test]
fn test_refill_restores_permits() {
    let mut bucket = TokenBucket::new(3, 1, 0);
    let (granted, _) = bucket.try_acquire(0);
    assert!(granted);
    let (granted, wait) = bucket.try_acquire(0);
    assert!(!granted);
    // 3 per second = 3 thousandths per millisecond: one permit per 334 ms
    assert_eq!(wait, 334);
    let (granted, _) = bucket.try_acquire(334);
    assert!(granted);
}

#[test]
fn test_clock_going_backwards_grants_nothing_extra() {
    let mut bucket = TokenBucket::new(3, 1, 1000);
    let (granted, _) = bucket.try_acquire(1000);
    assert!(granted);
    let (granted, _) = bucket.try_acquire(500);
    assert!(!granted);
}

#[test]
fn test_retry_policy_first_429_sleeps_then_resends() {
    assert_eq!(
        lbplaylist::client::response_step(false, 429),
        SendStep::SleepThenResend {
            delay_ms: RETRY_DELAY_MS
        }
    );
}

#[test]
fn test_retry_policy_second_429_fails() {
    assert_eq!(
        lbplaylist::client::response_step(true, 429),
        SendStep::FailRateLimited
    );
}

#[test]
fn test_retry_policy_other_statuses_accepted() {
    assert_eq!(lbplaylist::client::response_step(false, 200), SendStep::Accept);
    assert_eq!(lbplaylist::client::response_step(true, 200), SendStep::Accept);
    assert_eq!(lbplaylist::client::response_step(false, 500), SendStep::Accept);
}

#[test]
fn test_client_auth_header() {
    let client = RateLimitedClient::new("tok123".to_string(), 0);
    assert_eq!(client.auth_header_value(), "Token tok123");
}
