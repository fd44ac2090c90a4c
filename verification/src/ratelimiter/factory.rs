//! Construction of limiters.

use vstd::prelude::*;
use crate::ratelimiter::error::{Error, Result};
use crate::ratelimiter::leaky_bucket::LeakyBucketLimiter;
use crate::ratelimiter::limiter::{
    RateLimitConfig, RateLimiter, RateLimiterAlgorithm, RateLimiterStatus,
};
use crate::ratelimiter::token_bucket::TokenBucketLimiter;

verus! {

/// A limiter of either algorithm; it forwards every call to the bucket it
/// holds.
#[derive(Debug)]
pub enum AnyLimiter {
    /// A token bucket.
    TokenBucket(TokenBucketLimiter),
    /// A leaky bucket.
    LeakyBucket(LeakyBucketLimiter),
}

impl RateLimiter for AnyLimiter {
    open spec fn spec_algorithm(&self) -> RateLimiterAlgorithm {
        match self {
            AnyLimiter::TokenBucket(_) => RateLimiterAlgorithm::TokenBucket,
            AnyLimiter::LeakyBucket(_) => RateLimiterAlgorithm::LeakyBucket,
        }
    }

    open spec fn spec_capacity(&self) -> u64 {
        match self {
            AnyLimiter::TokenBucket(b) => b.capacity,
            AnyLimiter::LeakyBucket(b) => b.capacity,
        }
    }

    open spec fn spec_rate(&self) -> u64 {
        match self {
            AnyLimiter::TokenBucket(b) => b.refill_rate,
            AnyLimiter::LeakyBucket(b) => b.drain_rate,
        }
    }

    fn try_acquire(&mut self) -> (r: bool)
        ensures
            match (*old(self), *final(self)) {
                (AnyLimiter::TokenBucket(a), AnyLimiter::TokenBucket(b)) => exists|now: u64|
                    #[trigger] a.acquired(now) == (r, b),
                (AnyLimiter::LeakyBucket(a), AnyLimiter::LeakyBucket(b)) => exists|now: u64|
                    #[trigger] a.acquired(now) == (r, b),
                _ => false,
            },
    {
        match self {
            AnyLimiter::TokenBucket(b) => b.try_acquire(),
            AnyLimiter::LeakyBucket(b) => b.try_acquire(),
        }
    }

    fn try_acquire_many(&mut self, tokens: u64) -> (n: u64)
        ensures
            match (*old(self), *final(self)) {
                (AnyLimiter::TokenBucket(a), AnyLimiter::TokenBucket(b)) => exists|now: u64|
                    #[trigger] a.acquired_many(tokens, now) == (n, b),
                (AnyLimiter::LeakyBucket(a), AnyLimiter::LeakyBucket(b)) => exists|now: u64|
                    #[trigger] a.acquired_many(tokens, now) == (n, b),
                _ => false,
            },
    {
        match self {
            AnyLimiter::TokenBucket(b) => b.try_acquire_many(tokens),
            AnyLimiter::LeakyBucket(b) => b.try_acquire_many(tokens),
        }
    }

    fn get_status(&mut self) -> (s: RateLimiterStatus)
        ensures
            match (*old(self), *final(self)) {
                (AnyLimiter::TokenBucket(a), AnyLimiter::TokenBucket(b)) => exists|now: u64|
                    b == #[trigger] a.refilled(now) && s.available_tokens == b.available_tokens
                        && s.last_refill == b.last_refill_time,
                (AnyLimiter::LeakyBucket(a), AnyLimiter::LeakyBucket(b)) => exists|now: u64|
                    b == #[trigger] a.drained(now) && s.available_tokens == b.free_space()
                        && s.last_refill == b.last_drain_time,
                _ => false,
            },
    {
        match self {
            AnyLimiter::TokenBucket(b) => b.get_status(),
            AnyLimiter::LeakyBucket(b) => b.get_status(),
        }
    }

    fn reset(&mut self)
        ensures
            match (*old(self), *final(self)) {
                (AnyLimiter::TokenBucket(a), AnyLimiter::TokenBucket(b)) => exists|now: u64|
                    b == #[trigger] a.reset_to(now),
                (AnyLimiter::LeakyBucket(a), AnyLimiter::LeakyBucket(b)) => exists|now: u64|
                    b == #[trigger] a.reset_to(now),
                _ => false,
            },
    {
        match self {
            AnyLimiter::TokenBucket(b) => b.reset(),
            AnyLimiter::LeakyBucket(b) => b.reset(),
        }
    }
}

/// Builds limiters.
pub struct RateLimiterFactory;

impl RateLimiterFactory {
    /// A full token bucket with the given capacity and rate.
    pub fn create_token_bucket(capacity: u64, rate: u64) -> (r: AnyLimiter)
        ensures
            r == AnyLimiter::TokenBucket(
                TokenBucketLimiter {
                    capacity,
                    refill_rate: rate,
                    available_tokens: capacity,
                    last_refill_time: 0,
                },
            ),
    {
        AnyLimiter::TokenBucket(TokenBucketLimiter::new(capacity, rate))
    }

    /// An empty leaky bucket with the given capacity and rate.
    pub fn create_leaky_bucket(capacity: u64, rate: u64) -> (r: AnyLimiter)
        ensures
            r == AnyLimiter::LeakyBucket(
                LeakyBucketLimiter {
                    capacity,
                    drain_rate: rate,
                    bucket_level: 0,
                    last_drain_time: 0,
                },
            ),
    {
        AnyLimiter::LeakyBucket(LeakyBucketLimiter::new(capacity, rate))
    }

    /// A fresh limiter for a configuration, which must validate.
    pub fn create_from_config(config: &RateLimitConfig) -> (r: Result<AnyLimiter>)
        ensures
            r is Ok <==> (config.capacity > 0 && config.rate > 0),
            r matches Ok(l) ==> l == (match config.algorithm {
                RateLimiterAlgorithm::TokenBucket => AnyLimiter::TokenBucket(
                    TokenBucketLimiter {
                        capacity: config.capacity,
                        refill_rate: config.rate,
                        available_tokens: config.capacity,
                        last_refill_time: 0,
                    },
                ),
                RateLimiterAlgorithm::LeakyBucket => AnyLimiter::LeakyBucket(
                    LeakyBucketLimiter {
                        capacity: config.capacity,
                        drain_rate: config.rate,
                        bucket_level: 0,
                        last_drain_time: 0,
                    },
                ),
            }),
            config.capacity == 0 ==> (r matches Err(Error::Config(m))
                && m@ == "capacity must be greater than 0"@),
            config.capacity > 0 && config.rate == 0 ==> (r matches Err(Error::Config(m))
                && m@ == "rate must be greater than 0"@),
    {
        match config.validate() {
            Err(e) => Err(e),
            Ok(()) => match config.algorithm {
                RateLimiterAlgorithm::TokenBucket => Ok(
                    Self::create_token_bucket(config.capacity, config.rate),
                ),
                RateLimiterAlgorithm::LeakyBucket => Ok(
                    Self::create_leaky_bucket(config.capacity, config.rate),
                ),
            },
        }
    }

    /// The default limiter: a token bucket of 10 refilled at 1 per second.
    pub fn create_default() -> (r: AnyLimiter)
        ensures
            r == AnyLimiter::TokenBucket(
                TokenBucketLimiter {
                    capacity: 10,
                    refill_rate: 1,
                    available_tokens: 10,
                    last_refill_time: 0,
                },
            ),
    {
        AnyLimiter::TokenBucket(TokenBucketLimiter::new(10, 1))
    }

    /// The API limiter: a token bucket of 5 refilled at 1 per second.
    pub fn create_api_limiter() -> (r: AnyLimiter)
        ensures
            r == AnyLimiter::TokenBucket(
                TokenBucketLimiter {
                    capacity: 5,
                    refill_rate: 1,
                    available_tokens: 5,
                    last_refill_time: 0,
                },
            ),
    {
        AnyLimiter::TokenBucket(TokenBucketLimiter::new(5, 1))
    }

    /// The database limiter: a leaky bucket of 10 drained at 10 per second.
    pub fn create_db_limiter() -> (r: AnyLimiter)
        ensures
            r == AnyLimiter::LeakyBucket(
                LeakyBucketLimiter { capacity: 10, drain_rate: 10, bucket_level: 0, last_drain_time: 0 },
            ),
    {
        AnyLimiter::LeakyBucket(LeakyBucketLimiter::new(10, 10))
    }
}

} // verus!
