//! Token-bucket rate limiter for bandwidth and operation throttling.
//!
//! A limiter holds up to two token buckets, one counted in bytes and one
//! in operations. Consuming takes tokens from the chosen bucket,
//! replenishing it first from the time elapsed since its last activity;
//! when the bucket cannot cover the request the limiter blocks itself by
//! arming an internal timer, and a request larger than the whole bucket
//! is granted once at the price of a proportionally long blocked period.
use vstd::prelude::*;

use crate::time::Dur;

verus! {

/// Interval, in milliseconds, at which the refill timer fires when the
/// limiter is at capacity.
pub const REFILL_TIMER_INTERVAL_MS: u64 = 100;

/// Nanoseconds in one millisecond.
pub const NANOSEC_IN_ONE_MILLISEC: u64 = 1_000_000;

/// Euclid's greatest common divisor.
pub open spec fn spec_gcd(x: u64, y: u64) -> u64
    decreases y,
{
    if y == 0 {
        x
    } else {
        spec_gcd(y, x % y)
    }
}

/// The greatest common divisor of two numbers, one of them positive, is
/// positive and no larger than either positive argument.
pub proof fn lemma_gcd_bounds(x: u64, y: u64)
    requires
        x > 0 || y > 0,
    ensures
        spec_gcd(x, y) > 0,
        x > 0 ==> spec_gcd(x, y) <= x,
        y > 0 ==> spec_gcd(x, y) <= y,
    decreases y,
{
    if y > 0 {
        lemma_gcd_bounds(y, x % y);
        if x > 0 {
            if x < y {
                assert(x % y == x) by (nonlinear_arith)
                    requires
                        0 < x < y,
                ;
            } else {
                assert(spec_gcd(x, y) <= y <= x);
            }
        }
    }
}

/// Euclid's two-thousand-year-old algorithm for finding the greatest
/// common divisor.
pub fn gcd(x: u64, y: u64) -> (r: u64)
    ensures
        r == spec_gcd(x, y),
{
    let mut x: u64 = x;
    let mut y: u64 = y;
    let ghost x0 = x;
    let ghost y0 = y;
    while y != 0
        invariant
            spec_gcd(x, y) == spec_gcd(x0, y0),
        decreases y,
    {
        let t: u64 = y;
        y = x % y;
        x = t;
    }
    x
}

/// The outcome of taking tokens from a bucket.
#[derive(Clone, Copy, Debug, PartialEq, Eq, Structural)]
pub enum BucketReduction {
    /// Not enough tokens to cover the request.
    Failure,
    /// Part of the available tokens were consumed.
    Success,
    /// The request exceeded the bucket size; it was granted, emptying
    /// the bucket, and this many tokens were taken beyond what the
    /// bucket held.
    OverConsumption(u64),
}

/// A token bucket with configurable capacity, refill rate and initial
/// burst.
#[derive(Clone, Copy, Debug, PartialEq, Eq, Structural)]
pub struct TokenBucket {
    /// Bucket capacity.
    pub size: u64,
    /// Initially configured burst budget.
    pub initial_one_time_burst: u64,
    /// Complete refill time in milliseconds.
    pub refill_time: u64,
    /// Free initial tokens that never replenish.
    pub one_time_burst: u64,
    /// Current token budget.
    pub budget: u64,
    /// Last time this bucket saw activity.
    pub last_update: Dur,
    /// `size` with the common factor of size and refill time removed.
    pub processed_capacity: u64,
    /// Refill time in nanoseconds with the same factor removed.
    pub processed_refill_time: u64,
}

impl TokenBucket {
    pub open spec fn wf(self) -> bool {
        &&& self.size > 0
        &&& self.refill_time > 0
        &&& self.processed_capacity > 0
        &&& self.processed_refill_time > 0
        &&& self.budget <= self.size
        &&& self.last_update.wf()
    }

    /// Builds a bucket of `size` tokens refilling completely in
    /// `complete_refill_time_ms`, with `one_time_burst` extra initial
    /// credit; a zero size or refill time disables limiting and yields
    /// nothing.
    pub fn new(size: u64, one_time_burst: u64, complete_refill_time_ms: u64) -> (r: Option<
        TokenBucket,
    >)
        requires
            complete_refill_time_ms <= u64::MAX / NANOSEC_IN_ONE_MILLISEC,
        ensures
            (r is Some) <==> (size > 0 && complete_refill_time_ms > 0),
            match r {
                Some(b) => b.wf() && b == (TokenBucket {
                    size,
                    initial_one_time_burst: one_time_burst,
                    refill_time: complete_refill_time_ms,
                    one_time_burst,
                    budget: size,
                    last_update: b.last_update,
                    processed_capacity: b.processed_capacity,
                    processed_refill_time: b.processed_refill_time,
                }) && b.last_update.spec_ns() == 0 && b.processed_capacity == size / spec_gcd(
                    size,
                    (complete_refill_time_ms * NANOSEC_IN_ONE_MILLISEC) as u64,
                ) && b.processed_refill_time == (complete_refill_time_ms
                    * NANOSEC_IN_ONE_MILLISEC) as u64 / spec_gcd(
                    size,
                    (complete_refill_time_ms * NANOSEC_IN_ONE_MILLISEC) as u64,
                ),
                None => true,
            },
    {
        if size == 0 || complete_refill_time_ms == 0 {
            return None;
        }
        // Simplify the refill fraction by the greatest common factor so
        // that the per-delta computations cannot overflow so easily.
        let complete_refill_time_ns: u64 = complete_refill_time_ms * NANOSEC_IN_ONE_MILLISEC;
        let common_factor: u64 = gcd(size, complete_refill_time_ns);
        proof {
            lemma_gcd_bounds(size, complete_refill_time_ns);
            assert(size / common_factor >= 1 && complete_refill_time_ns / common_factor >= 1)
                by (nonlinear_arith)
                requires
                    common_factor > 0,
                    common_factor <= size,
                    common_factor <= complete_refill_time_ns,
            ;
        }
        let processed_capacity: u64 = size / common_factor;
        let processed_refill_time: u64 = complete_refill_time_ns / common_factor;
        Some(
            TokenBucket {
                size,
                one_time_burst,
                initial_one_time_burst: one_time_burst,
                refill_time: complete_refill_time_ms,
                budget: size,
                last_update: Dur::zero(),
                processed_capacity,
                processed_refill_time,
            },
        )
    }

    /// All the arithmetic a replenishment at `now` performs stays in
    /// range.
    pub open spec fn replenish_fits(self, now: Dur) -> bool {
        let delta = now.spec_ns() - self.last_update.spec_ns();
        let tokens = delta * self.processed_capacity / (self.processed_refill_time as int);
        &&& self.last_update.spec_ns() <= now.spec_ns()
        &&& delta <= u64::MAX
        &&& delta * self.processed_capacity <= u64::MAX
        &&& tokens * self.processed_refill_time <= u64::MAX
        &&& self.budget + tokens <= u64::MAX
        &&& self.last_update.spec_ns() + tokens * self.processed_refill_time / (
        self.processed_capacity as int) <= Dur::max_value().spec_ns()
    }

    /// The bucket after replenishing from the time elapsed since its
    /// last activity: the budget grows by the elapsed time's worth of
    /// tokens, capped at the bucket size, and the last-activity time
    /// advances by exactly the time those tokens took to generate, so a
    /// fraction of a token is carried over rather than dropped.
    pub open spec fn spec_auto_replenish(self, now: Dur) -> TokenBucket {
        let delta = now.spec_ns() - self.last_update.spec_ns();
        let tokens = delta * self.processed_capacity / (self.processed_refill_time as int);
        TokenBucket {
            budget: (if self.budget + tokens <= self.size {
                self.budget + tokens
            } else {
                self.size as int
            }) as u64,
            last_update: self.last_update.spec_add_ns(
                tokens * self.processed_refill_time / (self.processed_capacity as int),
            ),
            ..self
        }
    }

    /// Replenishes the budget from the elapsed time.
    fn auto_replenish(&mut self, now: Dur)
        requires
            old(self).wf(),
            now.wf(),
            old(self).replenish_fits(now),
        ensures
            final(self).wf(),
            *final(self) == old(self).spec_auto_replenish(now),
    {
        let time_delta: u64 = (now.as_nanos_i128() - self.last_update.as_nanos_i128()) as u64;
        let tokens: u64 = (time_delta * self.processed_capacity) / self.processed_refill_time;
        let advance: u64 = (tokens * self.processed_refill_time) / self.processed_capacity;
        proof {
            crate::time::lemma_max_value_ns();
        }
        self.last_update = Dur::from_signed_nanos(self.last_update.as_nanos_i128()
            + advance as i128);
        self.budget = if self.budget + tokens <= self.size {
            self.budget + tokens
        } else {
            self.size
        };
    }

    /// Attempts to consume `tokens`; the burst budget goes first, then
    /// the replenished budget. The result and the bucket afterwards are
    /// exactly those of [`spec_reduce`].
    pub fn reduce(&mut self, tokens: u64, now: Dur) -> (r: BucketReduction)
        requires
            old(self).wf(),
            now.wf(),
            old(self).replenish_fits(now),
        ensures
            final(self).wf(),
            (*final(self), r) == spec_reduce(*old(self), tokens, now),
    {
        let mut tokens: u64 = tokens;
        if self.one_time_burst > 0 {
            if self.one_time_burst >= tokens {
                self.one_time_burst = self.one_time_burst - tokens;
                self.last_update = now;
                return BucketReduction::Success;
            } else {
                tokens = tokens - self.one_time_burst;
                self.one_time_burst = 0;
            }
        }
        if tokens > self.budget {
            self.auto_replenish(now);
            if tokens > self.size {
                let excess: u64 = tokens - self.budget;
                self.budget = 0;
                return BucketReduction::OverConsumption(excess);
            }
            if tokens > self.budget {
                return BucketReduction::Failure;
            }
        }
        self.budget = self.budget - tokens;
        BucketReduction::Success
    }

    /// Manually adds tokens: to the burst budget while one remains, to
    /// the replenishable budget otherwise, capped at the bucket size.
    pub fn force_replenish(&mut self, tokens: u64)
        requires
            old(self).wf(),
            old(self).one_time_burst + tokens <= u64::MAX,
            old(self).budget + tokens <= u64::MAX,
        ensures
            final(self).wf(),
            old(self).one_time_burst > 0 ==> *final(self) == (TokenBucket {
                one_time_burst: (old(self).one_time_burst + tokens) as u64,
                ..*old(self)
            }),
            old(self).one_time_burst == 0 ==> *final(self) == (TokenBucket {
                budget: (if old(self).budget + tokens <= old(self).size {
                    old(self).budget + tokens
                } else {
                    old(self).size as int
                }) as u64,
                ..*old(self)
            }),
    {
        if self.one_time_burst > 0 {
            self.one_time_burst = self.one_time_burst + tokens;
            return ;
        }
        self.budget = if self.budget + tokens <= self.size {
            self.budget + tokens
        } else {
            self.size
        };
    }

    /// The capacity of the bucket.
    pub fn capacity(&self) -> (r: u64)
        ensures
            r == self.size,
    {
        self.size
    }

    /// The remaining one-time burst budget.
    pub fn one_time_burst(&self) -> (r: u64)
        ensures
            r == self.one_time_burst,
    {
        self.one_time_burst
    }

    /// The time in milliseconds to fill the bucket completely.
    pub fn refill_time_ms(&self) -> (r: u64)
        ensures
            r == self.refill_time,
    {
        self.refill_time
    }

    /// The current budget, burst allowance notwithstanding.
    pub fn budget(&self) -> (r: u64)
        ensures
            r == self.budget,
    {
        self.budget
    }

    /// The initially configured one-time burst budget.
    pub fn initial_one_time_burst(&self) -> (r: u64)
        ensures
            r == self.initial_one_time_burst,
    {
        self.initial_one_time_burst
    }
}

/// What [`TokenBucket::reduce`] leaves and reports, exactly.
pub open spec fn spec_reduce(b: TokenBucket, tokens: u64, now: Dur) -> (TokenBucket, BucketReduction) {
    if b.one_time_burst > 0 && b.one_time_burst >= tokens {
        (
            TokenBucket {
                one_time_burst: (b.one_time_burst - tokens) as u64,
                last_update: now,
                ..b
            },
            BucketReduction::Success,
        )
    } else {
        let t = if b.one_time_burst > 0 {
            tokens - b.one_time_burst
        } else {
            tokens as int
        };
        let b1 = TokenBucket { one_time_burst: 0u64, ..b };
        if t > b1.budget {
            let b2 = b1.spec_auto_replenish(now);
            if t > b2.size {
                (TokenBucket { budget: 0u64, ..b2 }, BucketReduction::OverConsumption(
                    (t - b2.budget) as u64,
                ))
            } else if t > b2.budget {
                (b2, BucketReduction::Failure)
            } else {
                (
                    TokenBucket { budget: (b2.budget - t) as u64, ..b2 },
                    BucketReduction::Success,
                )
            }
        } else {
            (TokenBucket { budget: (b1.budget - t) as u64, ..b1 }, BucketReduction::Success)
        }
    }
}

/// Which kind of token a consumption takes.
#[derive(Clone, Copy, Debug, PartialEq, Eq, Structural)]
pub enum TokenType {
    /// Bandwidth limiting.
    Bytes,
    /// Operations-per-second limiting.
    Ops,
}

/// How to update one of the limiter's buckets.
#[derive(Debug)]
pub enum BucketUpdate {
    /// Keep the bucket as it is.
    Unchanged,
    /// Disable limiting on this bucket.
    Disabled,
    /// Replace the bucket.
    Update(TokenBucket),
}

/// Rate limiter over a bandwidth bucket and an operations bucket; when a
/// consumption fails or over-consumes, an internal timer blocks further
/// consumption until it expires.
#[derive(Debug)]
pub struct RateLimiter {
    pub bandwidth: Option<TokenBucket>,
    pub ops: Option<TokenBucket>,
    /// When armed, the instant the blocked period ends.
    pub timer: Option<Dur>,
}

impl PartialEq for RateLimiter {
    fn eq(&self, other: &RateLimiter) -> (r: bool) {
        let b: bool = match (&self.bandwidth, &other.bandwidth) {
            (None, None) => true,
            (Some(x), Some(y)) => *x == *y,
            _ => false,
        };
        let o: bool = match (&self.ops, &other.ops) {
            (None, None) => true,
            (Some(x), Some(y)) => *x == *y,
            _ => false,
        };
        b && o
    }
}

impl vstd::std_specs::cmp::PartialEqSpecImpl for RateLimiter {
    open spec fn obeys_eq_spec() -> bool {
        true
    }

    open spec fn eq_spec(&self, other: &RateLimiter) -> bool {
        self.bandwidth == other.bandwidth && self.ops == other.ops
    }
}

impl RateLimiter {
    pub open spec fn wf(self) -> bool {
        &&& (self.bandwidth matches Some(b) ==> b.wf())
        &&& (self.ops matches Some(b) ==> b.wf())
        &&& (self.timer matches Some(t) ==> t.wf())
    }

    /// Builds a limiter from the two buckets' parameters; a zero size
    /// or refill time disables the respective bucket.
    pub fn new(
        bytes_total_capacity: u64,
        bytes_one_time_burst: u64,
        bytes_complete_refill_time_ms: u64,
        ops_total_capacity: u64,
        ops_one_time_burst: u64,
        ops_complete_refill_time_ms: u64,
    ) -> (r: RateLimiter)
        requires
            bytes_complete_refill_time_ms <= u64::MAX / NANOSEC_IN_ONE_MILLISEC,
            ops_complete_refill_time_ms <= u64::MAX / NANOSEC_IN_ONE_MILLISEC,
        ensures
            r.wf(),
            (r.bandwidth is Some) <==> (bytes_total_capacity > 0 && bytes_complete_refill_time_ms
                > 0),
            (r.ops is Some) <==> (ops_total_capacity > 0 && ops_complete_refill_time_ms > 0),
            r.timer is None,
    {
        let bandwidth = TokenBucket::new(
            bytes_total_capacity,
            bytes_one_time_burst,
            bytes_complete_refill_time_ms,
        );
        let ops = TokenBucket::new(
            ops_total_capacity,
            ops_one_time_burst,
            ops_complete_refill_time_ms,
        );
        RateLimiter { bandwidth, ops, timer: None }
    }

    /// Arms the blocked-period timer `delay` past `now`, clamped at the
    /// largest representable instant.
    fn activate_timer(&mut self, now: Dur, delay: Dur)
        requires
            old(self).wf(),
            now.wf(),
            delay.wf(),
        ensures
            final(self).wf(),
            final(self).bandwidth == old(self).bandwidth,
            final(self).ops == old(self).ops,
            final(self).timer matches Some(t) && t.spec_ns() == if now.spec_ns() + delay.spec_ns()
                <= Dur::max_value().spec_ns() {
                now.spec_ns() + delay.spec_ns()
            } else {
                Dur::max_value().spec_ns()
            },
    {
        self.timer = Some(now.saturating_add(delay));
    }

    /// Whether the blocked-period timer is armed and has not expired.
    pub fn timer_active(&self, now: Dur) -> (r: bool)
        requires
            self.wf(),
            now.wf(),
        ensures
            r == match self.timer {
                Some(t) => now.spec_ns() < t.spec_ns(),
                None => false,
            },
    {
        match &self.timer {
            Some(expiry) => now.lt(expiry),
            None => false,
        }
    }

    /// Whether the limiter is blocked: a consumption failed and the
    /// refill timer has not expired yet.
    pub fn is_blocked(&self, now: Dur) -> (r: bool)
        requires
            self.wf(),
            now.wf(),
        ensures
            r == match self.timer {
                Some(t) => now.spec_ns() < t.spec_ns(),
                None => false,
            },
    {
        self.timer_active(now)
    }

    /// Attempts to consume `tokens` of the given type at time `now`.
    ///
    /// Fails while the limiter is blocked. With no bucket of that type,
    /// always succeeds. Otherwise the bucket decides per
    /// [`spec_reduce`]: plain success consumes and succeeds; failure
    /// arms the refill timer and fails; over-consumption succeeds but
    /// arms the timer for as long as the excess takes to regenerate —
    /// the excess divided by the bucket size, times the refill time.
    pub fn consume(&mut self, tokens: u64, token_type: TokenType, now: Dur) -> (r: bool)
        requires
            old(self).wf(),
            now.wf(),
            old(self).bandwidth matches Some(b) ==> b.replenish_fits(now),
            old(self).ops matches Some(b) ==> b.replenish_fits(now),
        ensures
            final(self).wf(),
            (match old(self).timer {
                Some(t) => now.spec_ns() < t.spec_ns(),
                None => false,
            }) ==> r == false && *final(self) == *old(self),
            !(match old(self).timer {
                Some(t) => now.spec_ns() < t.spec_ns(),
                None => false,
            }) ==> ({
                let bucket = if token_type is Bytes {
                    old(self).bandwidth
                } else {
                    old(self).ops
                };
                match bucket {
                    None => r == true && *final(self) == *old(self),
                    Some(b) => {
                        let (b2, outcome) = spec_reduce(b, tokens, now);
                        &&& (if token_type is Bytes {
                            final(self).bandwidth == Some(b2) && final(self).ops == old(self).ops
                        } else {
                            final(self).ops == Some(b2) && final(self).bandwidth == old(self).bandwidth
                        })
                        &&& match outcome {
                            BucketReduction::Success => r == true && final(self).timer == old(self).timer,
                            BucketReduction::Failure => r == false && (final(self).timer matches Some(t) && t.spec_ns() == spec_sat_cap(
                                now.spec_ns() + REFILL_TIMER_INTERVAL_MS
                                    * NANOSEC_IN_ONE_MILLISEC,
                            )),
                            BucketReduction::OverConsumption(excess) => r == true && (final(self).timer matches Some(t) && t.spec_ns() == spec_sat_cap(
                                now.spec_ns() + spec_block_ms(excess, b.refill_time, b.size)
                                    * 1_000_000,
                            )),
                        }
                    },
                }
            }),
    {
        if self.timer_active(now) {
            return false;
        }
        let bucket: &mut Option<TokenBucket> = match token_type {
            TokenType::Bytes => &mut self.bandwidth,
            TokenType::Ops => &mut self.ops,
        };
        match bucket {
            Some(b) => {
                let refill_time: u64 = b.refill_time_ms();
                let size: u64 = b.capacity();
                match b.reduce(tokens, now) {
                    BucketReduction::Failure => {
                        self.activate_timer(
                            now,
                            Dur::from_nanos(REFILL_TIMER_INTERVAL_MS * NANOSEC_IN_ONE_MILLISEC),
                        );
                        false
                    },
                    BucketReduction::Success => true,
                    BucketReduction::OverConsumption(excess) => {
                        // Regenerating the borrowed excess takes
                        // excess / size of the complete refill time.
                        let block_ms: u64 = block_millis(excess, refill_time, size);
                        let block: Dur = dur_from_millis_saturating(block_ms);
                        self.activate_timer(now, block);
                        true
                    },
                }
            },
            None => true,
        }
    }

    /// Adds tokens of the given type back to its bucket; useful to
    /// revert a consumption.
    pub fn manual_replenish(&mut self, tokens: u64, token_type: TokenType)
        requires
            old(self).wf(),
            (if token_type is Bytes {
                old(self).bandwidth
            } else {
                old(self).ops
            }) matches Some(b) ==> b.one_time_burst + tokens <= u64::MAX && b.budget + tokens
                <= u64::MAX,
        ensures
            final(self).wf(),
            final(self).timer == old(self).timer,
            token_type is Bytes ==> final(self).ops == old(self).ops && match old(self).bandwidth {
                Some(b) => final(self).bandwidth matches Some(b2) && (b.one_time_burst > 0 ==> b2
                    == (TokenBucket {
                    one_time_burst: (b.one_time_burst + tokens) as u64,
                    ..b
                })) && (b.one_time_burst == 0 ==> b2 == (TokenBucket {
                    budget: (if b.budget + tokens <= b.size {
                        b.budget + tokens
                    } else {
                        b.size as int
                    }) as u64,
                    ..b
                })),
                None => final(self).bandwidth is None,
            },
            token_type is Ops ==> final(self).bandwidth == old(self).bandwidth && match old(self).ops {
                Some(b) => final(self).ops matches Some(b2) && (b.one_time_burst > 0 ==> b2
                    == (TokenBucket {
                    one_time_burst: (b.one_time_burst + tokens) as u64,
                    ..b
                })) && (b.one_time_burst == 0 ==> b2 == (TokenBucket {
                    budget: (if b.budget + tokens <= b.size {
                        b.budget + tokens
                    } else {
                        b.size as int
                    }) as u64,
                    ..b
                })),
                None => final(self).ops is None,
            },
    {
        let bucket: &mut Option<TokenBucket> = match token_type {
            TokenType::Bytes => &mut self.bandwidth,
            TokenType::Ops => &mut self.ops,
        };
        match bucket {
            Some(b) => b.force_replenish(tokens),
            None => (),
        }
    }

    /// Replaces, disables or keeps each bucket.
    pub fn update_buckets(&mut self, bytes: BucketUpdate, ops: BucketUpdate)
        requires
            old(self).wf(),
            bytes matches BucketUpdate::Update(b) ==> b.wf(),
            ops matches BucketUpdate::Update(b) ==> b.wf(),
        ensures
            final(self).wf(),
            final(self).timer == old(self).timer,
            match bytes {
                BucketUpdate::Unchanged => final(self).bandwidth == old(self).bandwidth,
                BucketUpdate::Disabled => final(self).bandwidth is None,
                BucketUpdate::Update(b) => final(self).bandwidth == Some(b),
            },
            match ops {
                BucketUpdate::Unchanged => final(self).ops == old(self).ops,
                BucketUpdate::Disabled => final(self).ops is None,
                BucketUpdate::Update(b) => final(self).ops == Some(b),
            },
    {
        match bytes {
            BucketUpdate::Disabled => {
                self.bandwidth = None;
            },
            BucketUpdate::Update(tb) => {
                self.bandwidth = Some(tb);
            },
            BucketUpdate::Unchanged => (),
        }
        match ops {
            BucketUpdate::Disabled => {
                self.ops = None;
            },
            BucketUpdate::Update(tb) => {
                self.ops = Some(tb);
            },
            BucketUpdate::Unchanged => (),
        }
    }

    /// An immutable view of the bandwidth bucket.
    pub fn bandwidth(&self) -> (r: Option<&TokenBucket>)
        ensures
            match r {
                Some(b) => self.bandwidth == Some(*b),
                None => self.bandwidth is None,
            },
    {
        self.bandwidth.as_ref()
    }

    /// An immutable view of the operations bucket.
    pub fn ops(&self) -> (r: Option<&TokenBucket>)
        ensures
            match r {
                Some(b) => self.ops == Some(*b),
                None => self.ops is None,
            },
    {
        self.ops.as_ref()
    }
}

/// The blocked period, in milliseconds, that an over-consumption of
/// `excess` tokens earns: the excess measured in bucket sizes, times the
/// complete refill time.
pub open spec fn spec_block_ms(excess: u64, refill_time: u64, size: u64) -> int
    recommends
        size > 0,
{
    spec_cap_u64(excess * refill_time / (size as int))
}

/// Clamps an unbounded count at `u64::MAX`.
pub open spec fn spec_cap_u64(x: int) -> int {
    if x <= u64::MAX {
        x
    } else {
        u64::MAX as int
    }
}

/// Clamps a nanosecond instant at the largest representable one.
pub open spec fn spec_sat_cap(ns: int) -> int {
    if ns <= Dur::max_value().spec_ns() {
        ns
    } else {
        Dur::max_value().spec_ns()
    }
}

/// `excess * refill_time / size` in milliseconds, clamped at `u64::MAX`.
fn block_millis(excess: u64, refill_time: u64, size: u64) -> (r: u64)
    requires
        size > 0,
    ensures
        r == spec_block_ms(excess, refill_time, size),
{
    proof {
        assert((excess as u128) * (refill_time as u128) < u128::MAX) by (nonlinear_arith)
            requires
                excess <= u64::MAX,
                refill_time <= u64::MAX,
        ;
    }
    let wide: u128 = excess as u128 * refill_time as u128 / (size as u128);
    if wide > u64::MAX as u128 {
        u64::MAX
    } else {
        wide as u64
    }
}

/// Milliseconds as a span, clamped at the largest representable one.
fn dur_from_millis_saturating(ms: u64) -> (r: Dur)
    ensures
        r.wf(),
        r.spec_ns() == spec_sat_cap(ms * 1_000_000),
{
    proof {
        crate::time::lemma_max_value_ns();
        assert(ms as int * 1_000_000 <= u64::MAX * 1_000_000_000int + 999_999_999int)
            by (nonlinear_arith)
            requires
                ms <= u64::MAX,
        ;
    }
    let total: i128 = ms as i128 * 1_000_000;
    Dur::from_signed_nanos(total)
}

} // verus!
