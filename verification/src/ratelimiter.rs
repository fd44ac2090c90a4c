//! Rate limiting (token bucket, leaky bucket) and the circuit breaker.

pub mod circuit;
pub mod circuit_breaker;
pub mod config;
pub mod error;
pub mod factory;
pub mod leaky_bucket;
pub mod limiter;
pub mod token_bucket;

pub use circuit::{CircuitConfig, CircuitDecision, CircuitState, CircuitStatus, RequestResult};


pub use leaky_bucket::LeakyBucketLimiter;
pub use limiter::{
    RateLimitConfig, RateLimitResult, RateLimiter, RateLimiterAlgorithm, RateLimiterStatus,
};
pub use token_bucket::TokenBucketLimiter;
pub use circuit_breaker::{CircuitBreaker, CircuitModel, ExecutionError};
pub use factory::{AnyLimiter, RateLimiterFactory};
