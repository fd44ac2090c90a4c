//! The leaky bucket limiter.
//!
//! Each request adds one unit to the bucket; the bucket drains at
//! `drain_rate` units per second, whole units only; a request that would
//! overflow the capacity is limited.

use vstd::prelude::*;
use crate::clock::clock_nanos;
use crate::ratelimiter::limiter::{
    min_int, units_over, units_over_nanos, wait_ms_exec, wait_ms_for, RateLimitResult,
    RateLimiter, RateLimiterAlgorithm, RateLimiterStatus,
};

verus! {

/// A leaky bucket.
#[derive(Debug)]
pub struct LeakyBucketLimiter {
    /// Capacity of the bucket.
    pub capacity: u64,
    /// Units drained per second.
    pub drain_rate: u64,
    /// Units in the bucket now.
    pub bucket_level: u64,
    /// Time of the last drain, in nanoseconds.
    pub last_drain_time: u64,
}

impl LeakyBucketLimiter {
    /// The bucket after a drain at time `now`: the units drained since the
    /// last drain leave the bucket (down to empty); when none drained the
    /// bucket is unchanged (its drain time too).
    pub open spec fn drained(self, now: u64) -> LeakyBucketLimiter {
        let elapsed = if now >= self.last_drain_time {
            now - self.last_drain_time
        } else {
            0
        };
        let out = units_over(elapsed, self.drain_rate as int);
        if out > 0 {
            LeakyBucketLimiter {
                capacity: self.capacity,
                drain_rate: self.drain_rate,
                bucket_level: (if self.bucket_level >= out {
                    self.bucket_level - out
                } else {
                    0
                }) as u64,
                last_drain_time: now,
            }
        } else {
            self
        }
    }

    /// The free space of the bucket (zero when it is over full).
    pub open spec fn free_space(self) -> int {
        if self.capacity >= self.bucket_level {
            self.capacity - self.bucket_level
        } else {
            0
        }
    }

    /// The answer and the bucket after one request at time `now`: drained,
    /// then one unit added if it fits.
    pub open spec fn acquired(self, now: u64) -> (bool, LeakyBucketLimiter) {
        let f = self.drained(now);
        if f.free_space() >= 1 {
            (true, LeakyBucketLimiter { bucket_level: (f.bucket_level + 1) as u64, ..f })
        } else {
            (false, f)
        }
    }

    /// The units added and the bucket after asking for `tokens` at time
    /// `now`: drained, then as many added as fit, up to `tokens`.
    pub open spec fn acquired_many(self, tokens: u64, now: u64) -> (u64, LeakyBucketLimiter) {
        let f = self.drained(now);
        let n = min_int(tokens as int, f.free_space()) as u64;
        (n, LeakyBucketLimiter { bucket_level: (f.bucket_level + n) as u64, ..f })
    }

    /// The bucket after a reset at time `now`: empty, drained at `now`.
    pub open spec fn reset_to(self, now: u64) -> LeakyBucketLimiter {
        LeakyBucketLimiter { bucket_level: 0, last_drain_time: now, ..self }
    }

    /// An empty bucket, last drained at time zero.
    pub fn new(capacity: u64, drain_rate: u64) -> (r: Self)
        ensures
            r.capacity == capacity,
            r.drain_rate == drain_rate,
            r.bucket_level == 0,
            r.last_drain_time == 0,
    {
        LeakyBucketLimiter { capacity, drain_rate, bucket_level: 0, last_drain_time: 0 }
    }

    /// Drains the bucket at time `now`.
    pub fn drain_at(&mut self, now: u64)
        ensures
            *final(self) == old(self).drained(now),
    {
        let last = self.last_drain_time;
        let elapsed = if now >= last {
            now - last
        } else {
            0
        };
        let out = units_over_nanos(elapsed, self.drain_rate);
        if out > 0 {
            self.bucket_level = self.bucket_level.saturating_sub(out);
            self.last_drain_time = now;
        }
    }

    /// Drains the bucket at the current time.
    fn drain(&mut self)
        ensures
            exists|now: u64| *final(self) == old(self).drained(now),
    {
        let now = clock_nanos();
        self.drain_at(now);
    }

    /// Adds `tokens` units when they fit; otherwise reports how long the
    /// bucket takes to drain enough for them.
    pub fn try_add_request(&mut self, tokens: u64) -> (r: RateLimitResult)
        ensures
            old(self).bucket_level + tokens <= old(self).capacity ==> r
                == RateLimitResult::Allowed && final(self).bucket_level == old(self).bucket_level
                + tokens,
            old(self).bucket_level + tokens > old(self).capacity ==> r == (
            RateLimitResult::Limited {
                wait_ms: wait_ms_for(
                    old(self).bucket_level + tokens - old(self).capacity,
                    old(self).drain_rate as int,
                ) as u64,
            }) && final(self).bucket_level == old(self).bucket_level,
            final(self).capacity == old(self).capacity,
            final(self).drain_rate == old(self).drain_rate,
            final(self).last_drain_time == old(self).last_drain_time,
    {
        let level = self.bucket_level as u128;
        let wanted = level + tokens as u128;
        if wanted > self.capacity as u128 {
            let over = wanted - self.capacity as u128;
            let wait_ms = if over > 0xffff_ffff_ffff_ffffu128 {
                wait_ms_exec_wide(over, self.drain_rate)
            } else {
                wait_ms_exec(over as u64, self.drain_rate)
            };
            return RateLimitResult::Limited { wait_ms };
        }
        self.bucket_level = wanted as u64;
        RateLimitResult::Allowed
    }

    /// Milliseconds until `tokens` units fit; zero when they fit now.
    pub fn calculate_wait_time(&self, tokens: u64) -> (r: u64)
        ensures
            self.bucket_level + tokens <= self.capacity ==> r == 0,
            self.bucket_level + tokens > self.capacity ==> r == wait_ms_for(
                self.bucket_level + tokens - self.capacity,
                self.drain_rate as int,
            ),
    {
        let wanted = self.bucket_level as u128 + tokens as u128;
        if wanted <= self.capacity as u128 {
            return 0;
        }
        let over = wanted - self.capacity as u128;
        if over > 0xffff_ffff_ffff_ffffu128 {
            wait_ms_exec_wide(over, self.drain_rate)
        } else {
            wait_ms_exec(over as u64, self.drain_rate)
        }
    }

    /// Drains at `now`, then adds one unit if it fits.
    pub fn try_acquire_at(&mut self, now: u64) -> (r: bool)
        ensures
            r == (old(self).drained(now).free_space() >= 1),
            final(self).bucket_level == (if r {
                old(self).drained(now).bucket_level + 1
            } else {
                old(self).drained(now).bucket_level as int
            }),
            final(self).capacity == old(self).capacity,
            final(self).drain_rate == old(self).drain_rate,
            final(self).last_drain_time == old(self).drained(now).last_drain_time,
    {
        self.drain_at(now);
        let res = self.try_add_request(1);
        res.is_allowed()
    }

    /// Drains at `now`, then adds units one at a time, up to `tokens`, while
    /// they fit; returns how many it added.
    pub fn try_acquire_many_at(&mut self, tokens: u64, now: u64) -> (n: u64)
        ensures
            n == min_int(tokens as int, old(self).drained(now).free_space()),
            final(self).bucket_level == old(self).drained(now).bucket_level + n,
            final(self).capacity == old(self).capacity,
            final(self).drain_rate == old(self).drain_rate,
            final(self).last_drain_time == old(self).drained(now).last_drain_time,
    {
        self.drain_at(now);
        let ghost start = *self;
        let mut acquired: u64 = 0;
        while acquired < tokens
            invariant
                acquired <= tokens,
                acquired <= start.free_space(),
                self.bucket_level == start.bucket_level + acquired,
                self.capacity == start.capacity,
                self.drain_rate == start.drain_rate,
                self.last_drain_time == start.last_drain_time,
            ensures
                acquired == min_int(tokens as int, start.free_space()),
                self.bucket_level == start.bucket_level + acquired,
                self.capacity == start.capacity,
                self.drain_rate == start.drain_rate,
                self.last_drain_time == start.last_drain_time,
            decreases tokens - acquired,
        {
            let res = self.try_add_request(1);
            if res.is_allowed() {
                acquired = acquired + 1;
            } else {
                break;
            }
        }
        acquired
    }

    /// Drains at `now` and reports the bucket; the available tokens are the
    /// free space.
    pub fn get_status_at(&mut self, now: u64) -> (s: RateLimiterStatus)
        ensures
            *final(self) == old(self).drained(now),
            s == (RateLimiterStatus {
                algorithm: RateLimiterAlgorithm::LeakyBucket,
                available_tokens: old(self).drained(now).free_space() as u64,
                capacity: old(self).capacity,
                refill_rate: old(self).drain_rate,
                last_refill: old(self).drained(now).last_drain_time,
            }),
    {
        self.drain_at(now);
        RateLimiterStatus {
            algorithm: RateLimiterAlgorithm::LeakyBucket,
            available_tokens: self.capacity.saturating_sub(self.bucket_level),
            capacity: self.capacity,
            refill_rate: self.drain_rate,
            last_refill: self.last_drain_time,
        }
    }

    /// Empties the bucket and records `now` as the drain time.
    pub fn reset_at(&mut self, now: u64)
        ensures
            final(self).bucket_level == 0,
            final(self).last_drain_time == now,
            final(self).capacity == old(self).capacity,
            final(self).drain_rate == old(self).drain_rate,
    {
        self.bucket_level = 0;
        self.last_drain_time = now;
    }
}

/// Computes `wait_ms_for(needed, rate)` for a need beyond the `u64` range.
fn wait_ms_exec_wide(needed: u128, rate: u64) -> (r: u64)
    requires
        needed <= 2 * (u64::MAX as int),
    ensures
        r == wait_ms_for(needed as int, rate as int),
{
    if rate == 0 {
        return u64::MAX;
    }
    let q = (needed * 1000u128 + (rate as u128) - 1u128) / (rate as u128);
    if q > 0xffff_ffff_ffff_ffffu128 {
        u64::MAX
    } else {
        q as u64
    }
}

impl RateLimiter for LeakyBucketLimiter {
    open spec fn spec_algorithm(&self) -> RateLimiterAlgorithm {
        RateLimiterAlgorithm::LeakyBucket
    }

    open spec fn spec_capacity(&self) -> u64 {
        self.capacity
    }

    open spec fn spec_rate(&self) -> u64 {
        self.drain_rate
    }

    fn try_acquire(&mut self) -> (r: bool)
        ensures
            exists|now: u64| #[trigger] old(self).acquired(now) == (r, *final(self)),
    {
        let now = clock_nanos();
        let r = self.try_acquire_at(now);
        assert(old(self).acquired(now) == (r, *self));
        r
    }

    fn try_acquire_many(&mut self, tokens: u64) -> (n: u64)
        ensures
            exists|now: u64| #[trigger] old(self).acquired_many(tokens, now) == (n, *final(self)),
    {
        let now = clock_nanos();
        let n = self.try_acquire_many_at(tokens, now);
        assert(old(self).acquired_many(tokens, now) == (n, *self));
        n
    }

    fn get_status(&mut self) -> (s: RateLimiterStatus)
        ensures
            exists|now: u64|
                {
                    &&& *final(self) == #[trigger] old(self).drained(now)
                    &&& s.available_tokens == old(self).drained(now).free_space()
                    &&& s.last_refill == old(self).drained(now).last_drain_time
                },
    {
        let now = clock_nanos();
        self.get_status_at(now)
    }

    fn reset(&mut self)
        ensures
            exists|now: u64| *final(self) == #[trigger] old(self).reset_to(now),
    {
        let now = clock_nanos();
        self.reset_at(now);
        assert(*self == old(self).reset_to(now));
    }
}


/// A drain never raises the level and never takes it below empty; capacity
/// and rate stay as they were.
pub proof fn lemma_drain_lowers_level(b: LeakyBucketLimiter, now: u64)
    ensures
        b.drained(now).bucket_level <= b.bucket_level,
        b.drained(now).capacity == b.capacity,
        b.drained(now).drain_rate == b.drain_rate,
{
}

/// With no time passed since the last drain, a drain changes nothing.
pub proof fn lemma_drain_without_time(b: LeakyBucketLimiter)
    ensures
        b.drained(b.last_drain_time) == b,
{
    assert(units_over(0, b.drain_rate as int) == 0);
}

} // verus!
