//! Dynamic queue limit and rate limiter tests.
use tansiv_client::dql::{Dql, LOWEST_SLACK_INIT, MAX_LIMIT};
use tansiv_client::rate_limiter::{gcd, BucketReduction, BucketUpdate, RateLimiter, TokenBucket, TokenType};
use tansiv_client::time::Dur;

#[test]
fn gcd_values_exact() {
    assert_eq!(gcd(12, 8), 4);
    assert_eq!(gcd(8, 12), 4);
    assert_eq!(gcd(7, 13), 1);
    assert_eq!(gcd(0, 5), 5);
    assert_eq!(gcd(5, 0), 5);
    assert_eq!(gcd(1000, 1_000_000_000), 1000);
}

#[test]
fn dql_new_and_available() {
    let dql = Dql::new(Dur::zero(), Dur::new(1, 0));
    assert_eq!(dql.get_limit(), 0);
    assert_eq!(dql.available(), Some(0));
    assert_eq!(dql.max_limit, MAX_LIMIT);
    assert_eq!(dql.lowest_slack, LOWEST_SLACK_INIT);
}

#[test]
fn dql_starved_queue_grows_limit() {
    let mut dql = Dql::new(Dur::zero(), Dur::new(1, 0));
    dql.queued(100);
    // everything queued went over the zero limit and drained at once
    assert_eq!(dql.available(), None);
    dql.completed(100, Dur::from_micros(10));
    assert_eq!(dql.get_limit(), 100);
    assert_eq!(dql.available(), Some(100));
    assert_eq!(dql.num_completed, 100);
    assert_eq!(dql.prev_num_queued, 100);
}

#[test]
fn dql_reset_clears_counters() {
    let mut dql = Dql::new(Dur::zero(), Dur::new(1, 0));
    dql.queued(50);
    dql.completed(50, Dur::from_micros(5));
    dql.reset(Dur::from_micros(7));
    assert_eq!(dql.get_limit(), 0);
    assert_eq!(dql.num_queued, 0);
    assert_eq!(dql.num_completed, 0);
    assert_eq!(dql.available(), Some(0));
    assert_eq!(dql.slack_start_time.subsec_micros(), 7);
}

#[test]
fn token_bucket_new_reduces_fraction() {
    // 1000 tokens per second: gcd(1000, 1e9) = 1000, so one token per
    // millisecond of processed refill time.
    let bucket = TokenBucket::new(1000, 0, 1000).expect("enabled bucket");
    assert_eq!(bucket.capacity(), 1000);
    assert_eq!(bucket.budget(), 1000);
    assert_eq!(bucket.refill_time_ms(), 1000);
    assert_eq!(bucket.one_time_burst(), 0);
    assert_eq!(bucket.initial_one_time_burst(), 0);
    assert_eq!(bucket.processed_capacity, 1);
    assert_eq!(bucket.processed_refill_time, 1_000_000);
    assert!(TokenBucket::new(0, 0, 1000).is_none());
    assert!(TokenBucket::new(1000, 0, 0).is_none());
}

#[test]
fn token_bucket_reduce_and_burst() {
    let mut bucket = TokenBucket::new(100, 30, 1000).expect("enabled bucket");
    // the burst budget is consumed first
    assert_eq!(bucket.reduce(20, Dur::zero()), BucketReduction::Success);
    assert_eq!(bucket.one_time_burst(), 10);
    assert_eq!(bucket.budget(), 100);
    // the rest of the burst, then the budget
    assert_eq!(bucket.reduce(50, Dur::zero()), BucketReduction::Success);
    assert_eq!(bucket.one_time_burst(), 0);
    assert_eq!(bucket.budget(), 60);
}

#[test]
fn token_bucket_replenishes_over_time() {
    // one token per millisecond
    let mut bucket = TokenBucket::new(1000, 0, 1000).expect("enabled bucket");
    assert_eq!(bucket.reduce(1000, Dur::zero()), BucketReduction::Success);
    assert_eq!(bucket.budget(), 0);
    // 10 ms later, 10 tokens are back
    assert_eq!(
        bucket.reduce(10, Dur::from_micros(10_000)),
        BucketReduction::Success
    );
    assert_eq!(bucket.budget(), 0);
    // but 11 would not have been there
    assert_eq!(
        bucket.reduce(5, Dur::from_micros(10_001)),
        BucketReduction::Failure
    );
}

#[test]
fn token_bucket_force_replenish() {
    let mut bucket = TokenBucket::new(100, 0, 1000).expect("enabled bucket");
    assert_eq!(bucket.reduce(40, Dur::zero()), BucketReduction::Success);
    bucket.force_replenish(15);
    assert_eq!(bucket.budget(), 75);
    // never above the capacity
    bucket.force_replenish(1000);
    assert_eq!(bucket.budget(), 100);
}

#[test]
fn limiter_blocks_on_failure() {
    let mut limiter = RateLimiter::new(100, 0, 1000, 0, 0, 0);
    assert!(limiter.bandwidth().is_some());
    assert!(limiter.ops().is_none());
    let now = Dur::zero();
    assert!(limiter.consume(100, TokenType::Bytes, now));
    // the bucket is empty: the next consumption fails and blocks
    assert!(!limiter.consume(1, TokenType::Bytes, now));
    assert!(limiter.is_blocked(now));
    // the refill timer runs 100 ms
    assert!(limiter.is_blocked(Dur::from_micros(99_999)));
    assert!(!limiter.is_blocked(Dur::from_micros(100_000)));
}

#[test]
fn limiter_overconsumption_blocks_proportionally() {
    let mut limiter = RateLimiter::new(100, 0, 1000, 0, 0, 0);
    let now = Dur::zero();
    // 250 tokens from a 100-token bucket: granted, with 150 excess;
    // regenerating them takes 150/100 of the 1000 ms refill time.
    assert!(limiter.consume(250, TokenType::Bytes, now));
    assert!(limiter.is_blocked(now));
    assert!(limiter.is_blocked(Dur::new(1, 499_999_999)));
    assert!(!limiter.is_blocked(Dur::new(1, 500_000_000)));
}

#[test]
fn limiter_disabled_type_always_succeeds() {
    let mut limiter = RateLimiter::new(100, 0, 1000, 0, 0, 0);
    assert!(limiter.consume(u64::MAX, TokenType::Ops, Dur::zero()));
}

#[test]
fn limiter_manual_replenish_and_update() {
    let mut limiter = RateLimiter::new(100, 0, 1000, 50, 0, 1000);
    let now = Dur::zero();
    assert!(limiter.consume(60, TokenType::Bytes, now));
    limiter.manual_replenish(60, TokenType::Bytes);
    assert_eq!(limiter.bandwidth().expect("enabled").budget(), 100);

    let replacement = TokenBucket::new(7, 0, 1000).expect("enabled bucket");
    limiter.update_buckets(BucketUpdate::Update(replacement), BucketUpdate::Disabled);
    assert_eq!(limiter.bandwidth().expect("enabled").capacity(), 7);
    assert!(limiter.ops().is_none());

    let same = RateLimiter::new(7, 0, 1000, 0, 0, 0);
    assert!(limiter == same);
}
