//! The rate limiter interface and its core types.

use vstd::prelude::*;
use crate::ratelimiter::error::{Error, Result};

verus! {

/// A rate limiter. Both algorithms of this module implement it; their own
/// methods state exactly how each call changes the bucket.
pub trait RateLimiter {
    /// The algorithm of this limiter.
    spec fn spec_algorithm(&self) -> RateLimiterAlgorithm;

    /// The capacity of the bucket.
    spec fn spec_capacity(&self) -> u64;

    /// The refill (token bucket) or drain (leaky bucket) rate, per second.
    spec fn spec_rate(&self) -> u64;

    /// Tries to take one token; `true` when the request may pass.
    fn try_acquire(&mut self) -> (r: bool)
        ensures
            final(self).spec_algorithm() == old(self).spec_algorithm(),
            final(self).spec_capacity() == old(self).spec_capacity(),
            final(self).spec_rate() == old(self).spec_rate(),
    ;

    /// Tries to take `tokens` tokens one by one and returns how many it got.
    fn try_acquire_many(&mut self, tokens: u64) -> (n: u64)
        ensures
            n <= tokens,
            final(self).spec_algorithm() == old(self).spec_algorithm(),
            final(self).spec_capacity() == old(self).spec_capacity(),
            final(self).spec_rate() == old(self).spec_rate(),
    ;

    /// The current status of the limiter.
    fn get_status(&mut self) -> (s: RateLimiterStatus)
        ensures
            s.algorithm == old(self).spec_algorithm(),
            s.capacity == old(self).spec_capacity(),
            s.refill_rate == old(self).spec_rate(),
            final(self).spec_algorithm() == old(self).spec_algorithm(),
            final(self).spec_capacity() == old(self).spec_capacity(),
            final(self).spec_rate() == old(self).spec_rate(),
    ;

    /// Restores the limiter to its initial fill.
    fn reset(&mut self)
        ensures
            final(self).spec_algorithm() == old(self).spec_algorithm(),
            final(self).spec_capacity() == old(self).spec_capacity(),
            final(self).spec_rate() == old(self).spec_rate(),
    ;
}

/// The rate limiting algorithm.
#[derive(Debug, Clone, Copy, PartialEq, Eq, Structural)]
pub enum RateLimiterAlgorithm {
    /// Token bucket.
    TokenBucket,
    /// Leaky bucket.
    LeakyBucket,
}

/// A snapshot of a limiter's state.
#[derive(Debug, Clone, Copy)]
pub struct RateLimiterStatus {
    /// The algorithm.
    pub algorithm: RateLimiterAlgorithm,
    /// Tokens available now (free space, for a leaky bucket).
    pub available_tokens: u64,
    /// Capacity of the bucket.
    pub capacity: u64,
    /// Refill (or drain) rate per second.
    pub refill_rate: u64,
    /// Timestamp of the last refill (or drain), in nanoseconds.
    pub last_refill: u64,
}

/// The outcome of a rate limit check.
#[derive(Debug, Clone, Copy, PartialEq, Eq, Structural)]
pub enum RateLimitResult {
    /// The request may pass.
    Allowed,
    /// The request is limited.
    Limited {
        /// Milliseconds to wait before retrying.
        wait_ms: u64,
    },
}

impl RateLimitResult {
    /// Whether the request may pass.
    pub fn is_allowed(&self) -> (r: bool)
        ensures
            r == (*self is Allowed),
    {
        match self {
            RateLimitResult::Allowed => true,
            RateLimitResult::Limited { .. } => false,
        }
    }

    /// The waiting time, for a limited request.
    pub fn wait_ms(&self) -> (r: Option<u64>)
        ensures
            r == (match *self {
                RateLimitResult::Allowed => None,
                RateLimitResult::Limited { wait_ms } => Some(wait_ms),
            }),
    {
        match self {
            RateLimitResult::Allowed => None,
            RateLimitResult::Limited { wait_ms } => Some(*wait_ms),
        }
    }
}

/// Configuration of a limiter.
#[derive(Debug, Clone, Copy)]
pub struct RateLimitConfig {
    /// The algorithm.
    pub algorithm: RateLimiterAlgorithm,
    /// Capacity of the bucket.
    pub capacity: u64,
    /// Refill (or drain) rate per second.
    pub rate: u64,
}

impl Default for RateLimitConfig {
    fn default() -> (r: Self)
        ensures
            r.algorithm == RateLimiterAlgorithm::TokenBucket,
            r.capacity == 10,
            r.rate == 1,
    {
        RateLimitConfig { algorithm: RateLimiterAlgorithm::TokenBucket, capacity: 10, rate: 1 }
    }
}

impl RateLimitConfig {
    /// A token bucket configuration.
    pub fn token_bucket(capacity: u64, rate: u64) -> (r: Self)
        ensures
            r.algorithm == RateLimiterAlgorithm::TokenBucket,
            r.capacity == capacity,
            r.rate == rate,
    {
        RateLimitConfig { algorithm: RateLimiterAlgorithm::TokenBucket, capacity, rate }
    }

    /// A leaky bucket configuration.
    pub fn leaky_bucket(capacity: u64, rate: u64) -> (r: Self)
        ensures
            r.algorithm == RateLimiterAlgorithm::LeakyBucket,
            r.capacity == capacity,
            r.rate == rate,
    {
        RateLimitConfig { algorithm: RateLimiterAlgorithm::LeakyBucket, capacity, rate }
    }

    /// Checks the configuration: the capacity and the rate must be positive.
    pub fn validate(&self) -> (r: Result<()>)
        ensures
            r is Ok <==> (self.capacity > 0 && self.rate > 0),
            self.capacity == 0 ==> (r matches Err(Error::Config(m))
                && m@ == "capacity must be greater than 0"@),
            self.capacity > 0 && self.rate == 0 ==> (r matches Err(Error::Config(m))
                && m@ == "rate must be greater than 0"@),
    {
        if self.capacity == 0 {
            return Err(Error::Config(String::from_str("capacity must be greater than 0")));
        }
        if self.rate == 0 {
            return Err(Error::Config(String::from_str("rate must be greater than 0")));
        }
        Ok(())
    }
}

} // verus!

verus! {

/// `x` clamped to the range of `u64`, as a float-to-integer cast saturates.
pub open spec fn clamp_u64(x: int) -> int {
    if x > u64::MAX as int {
        u64::MAX as int
    } else {
        x
    }
}

/// Whole units that `rate` units per second yield over `elapsed` nanoseconds.
pub open spec fn units_over(elapsed: int, rate: int) -> int {
    clamp_u64(elapsed * rate / 1_000_000_000)
}

/// Milliseconds needed for `needed` units to come at `rate` units per
/// second, rounded up; the largest `u64` when the rate is zero.
pub open spec fn wait_ms_for(needed: int, rate: int) -> int {
    if rate == 0 {
        u64::MAX as int
    } else {
        clamp_u64((needed * 1000 + rate - 1) / rate)
    }
}

/// The smaller of two integers.
pub open spec fn min_int(a: int, b: int) -> int {
    if a <= b {
        a
    } else {
        b
    }
}

/// Computes `units_over(elapsed, rate)`.
pub(crate) fn units_over_nanos(elapsed: u64, rate: u64) -> (r: u64)
    ensures
        r == units_over(elapsed as int, rate as int),
{
    let e = elapsed as u128;
    let ra = rate as u128;
    assert(e * ra <= 0xffff_ffff_ffff_ffffu128 * 0xffff_ffff_ffff_ffffu128) by (nonlinear_arith)
        requires
            e <= 0xffff_ffff_ffff_ffffu128,
            ra <= 0xffff_ffff_ffff_ffffu128,
    ;
    let q = (e * ra) / 1_000_000_000u128;
    if q > 0xffff_ffff_ffff_ffffu128 {
        u64::MAX
    } else {
        q as u64
    }
}

/// Computes `wait_ms_for(needed, rate)`.
pub(crate) fn wait_ms_exec(needed: u64, rate: u64) -> (r: u64)
    ensures
        r == wait_ms_for(needed as int, rate as int),
{
    if rate == 0 {
        return u64::MAX;
    }
    let q = ((needed as u128) * 1000u128 + (rate as u128) - 1u128) / (rate as u128);
    if q > 0xffff_ffff_ffff_ffffu128 {
        u64::MAX
    } else {
        q as u64
    }
}

} // verus!
