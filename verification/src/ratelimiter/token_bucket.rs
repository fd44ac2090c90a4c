//! The token bucket limiter.
//!
//! The bucket holds at most `capacity` tokens; tokens come back at
//! `refill_rate` per second, whole tokens only, and a request takes one.

use vstd::prelude::*;
use crate::clock::clock_nanos;
use crate::ratelimiter::limiter::{
    min_int, units_over, units_over_nanos, wait_ms_exec, wait_ms_for, RateLimitResult,
    RateLimiter, RateLimiterAlgorithm, RateLimiterStatus,
};

verus! {

/// A token bucket.
#[derive(Debug)]
pub struct TokenBucketLimiter {
    /// Capacity of the bucket.
    pub capacity: u64,
    /// Tokens added per second.
    pub refill_rate: u64,
    /// Tokens available now.
    pub available_tokens: u64,
    /// Time of the last refill, in nanoseconds.
    pub last_refill_time: u64,
}

impl TokenBucketLimiter {
    /// The bucket after a refill at time `now`: the tokens earned since the
    /// last refill are added, up to the capacity; when none were earned the
    /// bucket is unchanged (its refill time too).
    pub open spec fn refilled(self, now: u64) -> TokenBucketLimiter {
        let elapsed = if now >= self.last_refill_time {
            now - self.last_refill_time
        } else {
            0
        };
        let add = units_over(elapsed, self.refill_rate as int);
        if add > 0 {
            TokenBucketLimiter {
                capacity: self.capacity,
                refill_rate: self.refill_rate,
                available_tokens: min_int(
                    self.available_tokens + add,
                    self.capacity as int,
                ) as u64,
                last_refill_time: now,
            }
        } else {
            self
        }
    }

    /// The answer and the bucket after one request at time `now`: refilled,
    /// then one token taken if there is one.
    pub open spec fn acquired(self, now: u64) -> (bool, TokenBucketLimiter) {
        let f = self.refilled(now);
        if f.available_tokens >= 1 {
            (true, TokenBucketLimiter { available_tokens: (f.available_tokens - 1) as u64, ..f })
        } else {
            (false, f)
        }
    }

    /// The tokens taken and the bucket after asking for `tokens` at time
    /// `now`: refilled, then as many taken as there are, up to `tokens`.
    pub open spec fn acquired_many(self, tokens: u64, now: u64) -> (u64, TokenBucketLimiter) {
        let f = self.refilled(now);
        let n = min_int(tokens as int, f.available_tokens as int) as u64;
        (n, TokenBucketLimiter { available_tokens: (f.available_tokens - n) as u64, ..f })
    }

    /// The bucket after a reset at time `now`: full, refilled at `now`.
    pub open spec fn reset_to(self, now: u64) -> TokenBucketLimiter {
        TokenBucketLimiter { available_tokens: self.capacity, last_refill_time: now, ..self }
    }

    /// A full bucket, last refilled at time zero.
    pub fn new(capacity: u64, refill_rate: u64) -> (r: Self)
        ensures
            r.capacity == capacity,
            r.refill_rate == refill_rate,
            r.available_tokens == capacity,
            r.last_refill_time == 0,
    {
        TokenBucketLimiter { capacity, refill_rate, available_tokens: capacity, last_refill_time: 0 }
    }

    /// Refills the bucket at time `now`.
    pub fn refill_at(&mut self, now: u64)
        ensures
            *final(self) == old(self).refilled(now),
    {
        let last = self.last_refill_time;
        let elapsed = if now >= last {
            now - last
        } else {
            0
        };
        let add = units_over_nanos(elapsed, self.refill_rate);
        if add > 0 {
            let sum = self.available_tokens.saturating_add(add);
            self.available_tokens = if sum < self.capacity {
                sum
            } else {
                self.capacity
            };
            self.last_refill_time = now;
        }
    }

    /// Refills the bucket at the current time.
    fn refill(&mut self)
        ensures
            exists|now: u64| *final(self) == old(self).refilled(now),
    {
        let now = clock_nanos();
        self.refill_at(now);
    }

    /// Takes `tokens` tokens when that many are available; otherwise
    /// reports how long the missing ones take to come.
    pub fn try_acquire_without_refill(&mut self, tokens: u64) -> (r: RateLimitResult)
        ensures
            old(self).available_tokens >= tokens ==> r == RateLimitResult::Allowed
                && final(self).available_tokens == old(self).available_tokens - tokens,
            old(self).available_tokens < tokens ==> r == (RateLimitResult::Limited {
                wait_ms: wait_ms_for(
                    tokens - old(self).available_tokens,
                    old(self).refill_rate as int,
                ) as u64,
            }) && final(self).available_tokens == old(self).available_tokens,
            final(self).capacity == old(self).capacity,
            final(self).refill_rate == old(self).refill_rate,
            final(self).last_refill_time == old(self).last_refill_time,
    {
        let current = self.available_tokens;
        if current < tokens {
            let wait_ms = wait_ms_exec(tokens - current, self.refill_rate);
            return RateLimitResult::Limited { wait_ms };
        }
        self.available_tokens = current - tokens;
        RateLimitResult::Allowed
    }

    /// Milliseconds until `tokens` tokens are available; zero when they are.
    pub fn calculate_wait_time(&self, tokens: u64) -> (r: u64)
        ensures
            self.available_tokens >= tokens ==> r == 0,
            self.available_tokens < tokens ==> r == wait_ms_for(
                tokens - self.available_tokens,
                self.refill_rate as int,
            ),
    {
        let current = self.available_tokens;
        if current >= tokens {
            return 0;
        }
        wait_ms_exec(tokens - current, self.refill_rate)
    }

    /// Refills at `now`, then takes one token if there is one.
    pub fn try_acquire_at(&mut self, now: u64) -> (r: bool)
        ensures
            r == (old(self).refilled(now).available_tokens >= 1),
            final(self).available_tokens == (if r {
                old(self).refilled(now).available_tokens - 1
            } else {
                old(self).refilled(now).available_tokens as int
            }),
            final(self).capacity == old(self).capacity,
            final(self).refill_rate == old(self).refill_rate,
            final(self).last_refill_time == old(self).refilled(now).last_refill_time,
    {
        self.refill_at(now);
        let res = self.try_acquire_without_refill(1);
        res.is_allowed()
    }

    /// Refills at `now`, then takes tokens one at a time, up to `tokens`,
    /// while there are any; returns how many it took.
    pub fn try_acquire_many_at(&mut self, tokens: u64, now: u64) -> (n: u64)
        ensures
            n == min_int(tokens as int, old(self).refilled(now).available_tokens as int),
            final(self).available_tokens == old(self).refilled(now).available_tokens - n,
            final(self).capacity == old(self).capacity,
            final(self).refill_rate == old(self).refill_rate,
            final(self).last_refill_time == old(self).refilled(now).last_refill_time,
    {
        self.refill_at(now);
        let ghost start = *self;
        let mut acquired: u64 = 0;
        while acquired < tokens
            invariant
                acquired <= tokens,
                acquired <= start.available_tokens,
                self.available_tokens == start.available_tokens - acquired,
                self.capacity == start.capacity,
                self.refill_rate == start.refill_rate,
                self.last_refill_time == start.last_refill_time,
            ensures
                acquired == min_int(tokens as int, start.available_tokens as int),
                self.available_tokens == start.available_tokens - acquired,
                self.capacity == start.capacity,
                self.refill_rate == start.refill_rate,
                self.last_refill_time == start.last_refill_time,
            decreases tokens - acquired,
        {
            let res = self.try_acquire_without_refill(1);
            if res.is_allowed() {
                acquired = acquired + 1;
            } else {
                break;
            }
        }
        acquired
    }

    /// Refills at `now` and reports the bucket.
    pub fn get_status_at(&mut self, now: u64) -> (s: RateLimiterStatus)
        ensures
            *final(self) == old(self).refilled(now),
            s == (RateLimiterStatus {
                algorithm: RateLimiterAlgorithm::TokenBucket,
                available_tokens: old(self).refilled(now).available_tokens,
                capacity: old(self).capacity,
                refill_rate: old(self).refill_rate,
                last_refill: old(self).refilled(now).last_refill_time,
            }),
    {
        self.refill_at(now);
        RateLimiterStatus {
            algorithm: RateLimiterAlgorithm::TokenBucket,
            available_tokens: self.available_tokens,
            capacity: self.capacity,
            refill_rate: self.refill_rate,
            last_refill: self.last_refill_time,
        }
    }

    /// Fills the bucket and records `now` as the refill time.
    pub fn reset_at(&mut self, now: u64)
        ensures
            final(self).available_tokens == old(self).capacity,
            final(self).last_refill_time == now,
            final(self).capacity == old(self).capacity,
            final(self).refill_rate == old(self).refill_rate,
    {
        self.available_tokens = self.capacity;
        self.last_refill_time = now;
    }
}

impl RateLimiter for TokenBucketLimiter {
    open spec fn spec_algorithm(&self) -> RateLimiterAlgorithm {
        RateLimiterAlgorithm::TokenBucket
    }

    open spec fn spec_capacity(&self) -> u64 {
        self.capacity
    }

    open spec fn spec_rate(&self) -> u64 {
        self.refill_rate
    }

    fn try_acquire(&mut self) -> (r: bool)
        ensures
            exists|now: u64| #[trigger] old(self).acquired(now) == (r, *final(self)),
    {
        let now = clock_nanos();
        let r = self.try_acquire_at(now);
        assert(old(self).acquired(now) == (r, *self));
        r
    }

    fn try_acquire_many(&mut self, tokens: u64) -> (n: u64)
        ensures
            exists|now: u64| #[trigger] old(self).acquired_many(tokens, now) == (n, *final(self)),
    {
        let now = clock_nanos();
        let n = self.try_acquire_many_at(tokens, now);
        assert(old(self).acquired_many(tokens, now) == (n, *self));
        n
    }

    fn get_status(&mut self) -> (s: RateLimiterStatus)
        ensures
            exists|now: u64|
                {
                    &&& *final(self) == #[trigger] old(self).refilled(now)
                    &&& s.available_tokens == old(self).refilled(now).available_tokens
                    &&& s.last_refill == old(self).refilled(now).last_refill_time
                },
    {
        let now = clock_nanos();
        self.get_status_at(now)
    }

    fn reset(&mut self)
        ensures
            exists|now: u64| *final(self) == #[trigger] old(self).reset_to(now),
    {
        let now = clock_nanos();
        self.reset_at(now);
        assert(*self == old(self).reset_to(now));
    }
}


/// A refill never takes tokens away and never fills a bucket beyond its
/// capacity; capacity and rate stay as they were.
pub proof fn lemma_refill_within_capacity(b: TokenBucketLimiter, now: u64)
    requires
        b.available_tokens <= b.capacity,
    ensures
        b.available_tokens <= b.refilled(now).available_tokens <= b.capacity,
        b.refilled(now).capacity == b.capacity,
        b.refilled(now).refill_rate == b.refill_rate,
{
}

/// With no time passed since the last refill, a refill changes nothing.
pub proof fn lemma_refill_without_time(b: TokenBucketLimiter)
    ensures
        b.refilled(b.last_refill_time) == b,
{
    assert(units_over(0, b.refill_rate as int) == 0);
}

} // verus!
