use armada::limiter::{TokenBucket, Limiter};

#[test]
fn burst_then_deny() {
    // rate 1000/s, burst 2: a full bucket grants twice at t=0, no more
    let mut b = TokenBucket::new(1000, 2, 0);
    assert!(b.try_acquire(0));
    assert!(b.try_acquire(0));
    assert!(!b.try_acquire(0));
}

#[test]
fn refill_grants_again() {
    let mut b = TokenBucket::new(1000, 2, 0);
    assert!(b.try_acquire(0));
    assert!(b.try_acquire(0));
    assert!(!b.try_acquire(0));
    // 1000 tokens/s is one token per millisecond
    assert!(b.try_acquire(1));
    assert!(!b.try_acquire(1));
}

#[test]
fn refill_is_capped_at_burst() {
    let mut b = TokenBucket::new(1000, 2, 0);
    assert!(b.try_acquire(0));
    assert!(b.try_acquire(0));
    // a long idle period refills to the cap, not beyond
    assert!(b.try_acquire(10_000));
    assert!(b.try_acquire(10_000));
    assert!(!b.try_acquire(10_000));
}

#[test]
fn window_grant_count_is_bounded() {
    // over [0, 100] ms at 1000/s with burst 2, at most 100 + 2 grants
    let mut b = TokenBucket::new(1000, 2, 0);
    let mut grants: u64 = 0;
    for now in 0..=100u64 {
        while b.try_acquire(now) {
            grants += 1;
        }
    }
    assert!(grants <= 102);
    assert_eq!(grants, 102);
}

#[test]
fn slow_rate_takes_time() {
    // one token per second
    let mut b = TokenBucket::new(1, 1, 0);
    assert!(b.try_acquire(0));
    assert!(!b.try_acquire(500));
    assert!(b.try_acquire(1000));
}

#[test]
fn unlimited_never_blocks() {
    let mut l = Limiter::from_rate(None, 100, 0);
    for _ in 0..1000 {
        assert!(l.try_acquire(0));
    }
}

#[test]
fn zero_rate_is_clamped_to_minimum() {
    let mut l = Limiter::from_rate(Some(0), 100, 0);
    // a bucket exists and starts full at its burst capacity
    for _ in 0..100 {
        assert!(l.try_acquire(0));
    }
    assert!(!l.try_acquire(0));
}
