use easyto_init::backoff::RetryBackoff;

#[test]
fn test_retry_backoff_max_wait_calculation() {
    let cap_ms = 10 * 1000;
    let backoff = RetryBackoff::new(cap_ms);

    // base_ms = 100, cap_ms = 10000
    // attempt 0: min(10000, 100 * 2^0) = 100
    // attempt 1: min(10000, 100 * 2^1) = 200
    // attempt 7: min(10000, 100 * 2^7) = min(10000, 12800) = 10000 (capped)

    assert_eq!(backoff.attempt(), 0);
    assert_eq!(
        backoff.cap_ms().min(backoff.base_ms().saturating_mul(1 << 0)),
        100
    );
    assert_eq!(
        backoff.cap_ms().min(backoff.base_ms().saturating_mul(1 << 1)),
        200
    );
    assert_eq!(
        backoff.cap_ms().min(backoff.base_ms().saturating_mul(1 << 7)),
        10000
    );
}

#[test]
fn test_retry_backoff_attempt_increments() {
    let cap_ms = 1; // Very small cap
    let mut backoff = RetryBackoff::new(cap_ms);

    assert_eq!(backoff.attempt(), 0);
    backoff.wait();
    assert_eq!(backoff.attempt(), 1);
    backoff.wait();
    assert_eq!(backoff.attempt(), 2);
}

#[test]
fn test_retry_backoff_saturates() {
    let cap_ms = 10 * 1000;
    let mut backoff = RetryBackoff::new(cap_ms);
    backoff.set_attempt(u32::MAX);
    // Should not panic on overflow
    backoff.wait();
    assert_eq!(backoff.attempt(), u32::MAX);
}

#[test]
fn ceiling_doubles_up_to_the_cap() {
    let mut backoff = RetryBackoff::new(10_000);
    let expected = [100u64, 200, 400, 800, 1600, 3200, 6400, 10_000, 10_000];
    for e in expected {
        assert_eq!(backoff.max_wait(), e);
        backoff.advance();
    }
}

#[test]
fn ceiling_never_falls_and_saturates() {
    let mut backoff = RetryBackoff::new(u64::MAX);
    let mut last = 0u64;
    for _ in 0..80 {
        let now = backoff.max_wait();
        assert!(now >= last);
        last = now;
        backoff.advance();
    }
    assert_eq!(last, u64::MAX);
    backoff.set_attempt(62);
    assert_eq!(backoff.max_wait(), u64::MAX);
    backoff.set_attempt(56);
    assert_eq!(backoff.max_wait(), 100 * (1u64 << 56));
}

#[test]
fn delay_is_the_remainder_below_the_ceiling() {
    let mut backoff = RetryBackoff::new(10_000);
    assert_eq!(backoff.delay_for(0), 0);
    assert_eq!(backoff.delay_for(99), 99);
    assert_eq!(backoff.delay_for(100), 0);
    assert_eq!(backoff.delay_for(12_345), 45);
    backoff.set_attempt(7);
    assert_eq!(backoff.delay_for(12_345), 2_345);
    let zero = RetryBackoff::new(0);
    assert_eq!(zero.delay_for(12_345), 0);
}

#[test]
fn wait_stays_below_the_ceiling() {
    let mut backoff = RetryBackoff::new(700);
    for _ in 0..20 {
        let ceiling = backoff.max_wait();
        let wait = backoff.wait();
        assert!(wait < ceiling);
    }
    let mut zero = RetryBackoff::new(0);
    assert_eq!(zero.wait(), 0);
    assert_eq!(zero.attempt(), 1);
}
