use logpose::rate_limiting::{ClientRateLimiter, RateLimitAlgorithm, RateLimiterLayer, TokenBucket};

#[test]
fn new_token_bucket_zero_size_rate() {
    let t_bucket = TokenBucket::new(0, 0);
    let t_empty_bucket = TokenBucket::new_empty(0, 0);

    assert!(t_bucket.is_err());
    assert!(t_empty_bucket.is_err());
}

#[test]
fn new_token_bucket() {
    let t_bucket = TokenBucket::new(10, 5);
    let t_empty_bucket = TokenBucket::new_empty(10, 5);

    assert!(t_bucket.is_ok());
    assert!(t_empty_bucket.is_ok());
}

#[test]
fn zero_size_or_rate_is_refused_with_message() {
    assert_eq!(TokenBucket::new(5, 0).err().unwrap().msg, "Size and Rate must be > 0");
    assert_eq!(TokenBucket::new_empty(0, 5).err().unwrap().msg, "Size and Rate must be > 0");
}

#[test]
fn full_bucket_admits_size_requests_then_refuses() {
    let mut b = TokenBucket::new(3, 1).ok().unwrap();
    assert!(b.try_acquire_at(0));
    assert!(b.try_acquire_at(0));
    assert!(b.try_acquire_at(0));
    assert!(!b.try_acquire_at(0));
    assert_eq!(b.available_tokens_at(0), 0);
}

#[test]
fn refill_adds_rate_per_whole_second_up_to_size() {
    let mut b = TokenBucket::new_empty(10, 3).ok().unwrap();
    assert_eq!(b.available_tokens_at(0), 0);
    assert_eq!(b.available_tokens_at(2), 6);
    assert!(b.try_acquire_at(2));
    assert_eq!(b.available_tokens_at(2), 5);
    assert_eq!(b.available_tokens_at(100), 10);
    // A clock reading before the last refill adds nothing.
    assert_eq!(b.available_tokens_at(50), 10);
}

#[test]
fn huge_gaps_fill_the_bucket_without_overflow() {
    let mut b = TokenBucket::new_empty(7, u64::MAX).ok().unwrap();
    assert_eq!(b.available_tokens_at(u64::MAX), 7);
}

#[test]
fn clock_driven_bucket_starts_full() {
    let mut b = TokenBucket::new(2, 1).ok().unwrap();
    assert_eq!(b.tokens(), 2);
    assert!(b.try_acquire());
    assert!(b.try_acquire_one(1));
    assert!(b.available_tokens() <= 2);
}

#[test]
fn layer_shares_its_algorithm() {
    let layer = RateLimiterLayer::new(5u32);
    let service = layer.layer("inner");
    assert_eq!(**service.algorithm(), 5);
    assert_eq!(*service.inner(), "inner");
    assert_eq!(*layer.share().algorithm, 5);
}

#[test]
fn try_acquire_drains_a_full_bucket() {
    let mut b = TokenBucket::new(3, 1).ok().unwrap();
    assert!(RateLimitAlgorithm::try_acquire(&mut b));
    assert!(RateLimitAlgorithm::try_acquire(&mut b));
    assert!(RateLimitAlgorithm::try_acquire(&mut b));
    // Within the same second nothing is refilled.
    if !RateLimitAlgorithm::try_acquire(&mut b) {
        assert_eq!(b.tokens(), 0);
    }
}

#[test]
fn each_client_has_its_own_bucket() {
    let mut l = ClientRateLimiter::new(2, 1).ok().unwrap();
    assert!(l.try_acquire_for("203.0.113.7"));
    assert!(l.try_acquire_for("203.0.113.7"));
    // A client that spent its budget does not throttle another one.
    assert!(l.try_acquire_for("198.51.100.4"));
    assert!(l.try_acquire_for("198.51.100.4"));
    assert!(ClientRateLimiter::new(0, 1).is_err());
}

#[test]
fn admissions_stay_within_size_and_refills() {
    let mut b = TokenBucket::new(3, 2).ok().unwrap();
    let readings = [0u64, 0, 0, 0, 0, 1, 1, 1, 1, 5, 5, 5, 5, 5, 5, 5];
    let admitted = readings.iter().filter(|&&t| b.try_acquire_at(t)).count() as u64;
    // 3 at first, 2 after one second, 3 (capped) after four more.
    assert_eq!(admitted, 8);
    assert!(admitted <= 3 + 2 * 5);
}
