use fos::ratelimiter::circuit::{CircuitConfig, CircuitDecision, CircuitState};
use fos::ratelimiter::circuit_breaker::CircuitBreaker;
use fos::ratelimiter::factory::RateLimiterFactory;
use fos::ratelimiter::leaky_bucket::LeakyBucketLimiter;
use fos::ratelimiter::limiter::{
    RateLimitConfig, RateLimitResult, RateLimiter, RateLimiterAlgorithm,
};
use fos::ratelimiter::token_bucket::TokenBucketLimiter;

#[test]
fn test_circuit_config_default() {
    let config = CircuitConfig::default();
    assert_eq!(config.failure_threshold, 5);
    assert_eq!(config.success_threshold, 2);
    assert_eq!(config.timeout_ms, 30000);
    assert_eq!(config.half_open_timeout_ms, 60000);
    assert_eq!(config.open_timeout_ms, 60000);
}

#[test]
fn test_circuit_config_validation() {
    let config = CircuitConfig::new(5, 2, 30000, 60000, 60000);
    assert!(config.validate().is_ok());

    let invalid1 = CircuitConfig { failure_threshold: 0, ..Default::default() };
    assert!(invalid1.validate().is_err());

    let invalid2 = CircuitConfig { success_threshold: 0, ..Default::default() };
    assert!(invalid2.validate().is_err());
}

#[test]
fn test_circuit_decision() {
    let allow = CircuitDecision::Allow;
    assert!(allow.is_allowed());
    assert!(allow.retry_after_ms().is_none());

    let reject = CircuitDecision::Reject { retry_after_ms: 1000 };
    assert!(!reject.is_allowed());
    assert_eq!(reject.retry_after_ms(), Some(1000));
}

fn create_test_breaker(threshold: u32) -> CircuitBreaker {
    CircuitBreaker::new(CircuitConfig {
        failure_threshold: threshold,
        success_threshold: 2,
        timeout_ms: 1000,
        half_open_timeout_ms: 1000,
        open_timeout_ms: 100,
    })
}

#[test]
fn test_circuit_breaker_creation() {
    let breaker = CircuitBreaker::with_default_config();
    assert!(breaker.is_closed());
    assert!(!breaker.is_open());
    assert!(!breaker.is_half_open());
}

#[test]
fn test_circuit_breaker_fails_until_threshold() {
    let mut breaker = create_test_breaker(3);

    breaker.on_failure();
    assert!(breaker.is_closed());
    assert_eq!(breaker.get_status().consecutive_failures, 1);

    breaker.on_failure();
    assert!(breaker.is_closed());
    assert_eq!(breaker.get_status().consecutive_failures, 2);

    breaker.on_failure();
    assert!(breaker.is_open());
    assert_eq!(breaker.get_status().consecutive_failures, 3);
}

#[test]
fn test_circuit_breaker_allows_requests() {
    let mut breaker = create_test_breaker(3);

    let decision_1 = breaker.decide();
    assert!(decision_1.is_allowed());

    breaker.on_failure();
    breaker.on_failure();
    assert!(breaker.is_closed());

    let decision_2 = breaker.decide();
    assert!(decision_2.is_allowed());
}

#[test]
fn test_circuit_breaker_opens_on_threshold() {
    let mut breaker = create_test_breaker(2);

    breaker.on_failure();
    breaker.on_failure();

    assert!(breaker.is_open());

    let decision = breaker.decide();
    assert!(!decision.is_allowed());
    assert!(decision.retry_after_ms().is_some());
}

#[test]
fn test_circuit_breaker_half_open_recovery() {
    let mut breaker = create_test_breaker(2);

    breaker.on_failure();
    breaker.on_failure();
    assert!(breaker.is_open());

    breaker.transition_to(CircuitState::HalfOpen);
    assert!(breaker.is_half_open());

    let decision = breaker.decide();
    assert!(decision.is_allowed());

    breaker.on_success();
    assert!(breaker.is_half_open());
    assert_eq!(breaker.get_status().consecutive_successes, 1);

    breaker.on_success();
    assert!(breaker.is_closed());
    assert_eq!(breaker.get_status().consecutive_successes, 0);
    assert_eq!(breaker.get_status().consecutive_failures, 0);
}

#[test]
fn test_circuit_breaker_half_open_failure() {
    let mut breaker = create_test_breaker(2);

    breaker.on_failure();
    breaker.on_failure();
    assert!(breaker.is_open());

    breaker.transition_to(CircuitState::HalfOpen);

    breaker.on_failure();
    assert!(breaker.is_open());
}

#[test]
fn test_circuit_breaker_reset() {
    let mut breaker = create_test_breaker(2);

    breaker.on_failure();
    breaker.on_failure();
    assert!(breaker.is_open());

    breaker.reset();
    assert!(breaker.is_closed());
    assert_eq!(breaker.get_status().consecutive_failures, 0);
}

#[test]
fn test_circuit_breaker_success_on_closed() {
    let mut breaker = create_test_breaker(3);

    breaker.on_failure();
    breaker.on_failure();
    assert_eq!(breaker.get_status().consecutive_failures, 2);

    breaker.on_success();
    assert!(breaker.is_closed());
    assert_eq!(breaker.get_status().consecutive_failures, 0);
}

#[test]
fn test_circuit_breaker_timeout() {
    let mut breaker = create_test_breaker(3);

    breaker.on_timeout();
    assert!(breaker.is_closed());

    breaker.on_timeout();
    assert!(breaker.is_closed());

    breaker.on_timeout();
    assert!(breaker.is_open());
}

#[test]
fn test_circuit_breaker_status() {
    let mut breaker = CircuitBreaker::with_default_config();

    let status = breaker.get_status();
    assert_eq!(status.state, CircuitState::Closed);
    assert_eq!(status.consecutive_failures, 0);
    assert_eq!(status.consecutive_successes, 0);

    breaker.on_failure();
    let status = breaker.get_status();
    assert_eq!(status.consecutive_failures, 1);
}

#[test]
fn circuit_breaker_exact_times() {
    // Open at t = 5 ms with a 100 ms open timeout.
    let config = CircuitConfig::new(1, 1, 1000, 1000, 100);
    let mut breaker = CircuitBreaker::new_at(config, 0);
    breaker.on_failure_at(5_000_000);
    assert!(breaker.is_open());
    assert_eq!(breaker.get_status().last_state_change, 5_000_000);
    // 30 ms later: 70 ms remain.
    assert_eq!(breaker.decide_at(35_000_000), CircuitDecision::Reject { retry_after_ms: 70 });
    // 100 ms later: the circuit turns half open and lets the request pass.
    assert_eq!(breaker.decide_at(105_000_000), CircuitDecision::Allow);
    assert!(breaker.is_half_open());
    assert_eq!(breaker.get_status().last_state_change, 105_000_000);
    breaker.on_success_at(106_000_000);
    assert!(breaker.is_closed());
}

#[test]
fn circuit_breaker_try_execute() {
    let mut breaker = create_test_breaker(1);
    let ok: Result<u32, ExecErr> = breaker.try_execute(|| Ok(7));
    assert_eq!(ok.ok(), Some(7));
    let failed: Result<u32, fos::ratelimiter::ExecutionError<&str>> =
        breaker.try_execute(|| Err("boom"));
    assert!(failed.as_ref().err().map(|e| e.is_ok()).unwrap_or(false));
    assert!(breaker.is_open());
    let rejected: Result<u32, fos::ratelimiter::ExecutionError<&str>> =
        breaker.try_execute(|| Ok(1));
    assert!(!rejected.err().map(|e| e.is_ok()).unwrap_or(true));
}

type ExecErr = fos::ratelimiter::ExecutionError<()>;

#[test]
fn test_factory_invalid_config() {
    let invalid_config =
        RateLimitConfig { algorithm: RateLimiterAlgorithm::TokenBucket, capacity: 0, rate: 10 };
    assert!(RateLimiterFactory::create_from_config(&invalid_config).is_err());
}

#[test]
fn test_factory_default() {
    let mut limiter = RateLimiterFactory::create_default();
    assert!(limiter.try_acquire());
}

#[test]
fn test_factory_from_config() {
    let config = RateLimitConfig::token_bucket(100, 10);
    let mut limiter = RateLimiterFactory::create_from_config(&config).unwrap();
    assert!(limiter.try_acquire());
}

#[test]
fn test_rate_limit_result() {
    let allowed = RateLimitResult::Allowed;
    assert!(allowed.is_allowed());
    assert!(allowed.wait_ms().is_none());

    let limited = RateLimitResult::Limited { wait_ms: 100 };
    assert!(!limited.is_allowed());
    assert_eq!(limited.wait_ms(), Some(100));
}

#[test]
fn test_rate_limit_config() {
    let config = RateLimitConfig::default();
    assert_eq!(config.capacity, 10);
    assert_eq!(config.rate, 1);
    assert_eq!(config.algorithm, RateLimiterAlgorithm::TokenBucket);

    let token_config = RateLimitConfig::token_bucket(100, 10);
    assert_eq!(token_config.capacity, 100);
    assert_eq!(token_config.rate, 10);
    assert_eq!(token_config.algorithm, RateLimiterAlgorithm::TokenBucket);

    let leaky_config = RateLimitConfig::leaky_bucket(50, 5);
    assert_eq!(leaky_config.capacity, 50);
    assert_eq!(leaky_config.rate, 5);
    assert_eq!(leaky_config.algorithm, RateLimiterAlgorithm::LeakyBucket);
}

#[test]
fn test_config_validation() {
    let config = RateLimitConfig::token_bucket(100, 10);
    assert!(config.validate().is_ok());

    let invalid_config1 =
        RateLimitConfig { capacity: 0, rate: 10, algorithm: RateLimiterAlgorithm::TokenBucket };
    assert!(invalid_config1.validate().is_err());

    let invalid_config2 =
        RateLimitConfig { capacity: 100, rate: 0, algorithm: RateLimiterAlgorithm::TokenBucket };
    assert!(invalid_config2.validate().is_err());
}

#[test]
fn token_bucket_test_calculate_wait_time() {
    let limiter = TokenBucketLimiter::new(10, 1);
    assert_eq!(limiter.calculate_wait_time(5), 0);

    let mut limiter2 = TokenBucketLimiter::new(10, 1);
    limiter2.available_tokens = 0;
    assert_eq!(limiter2.calculate_wait_time(5), 5000);
}

#[test]
fn leaky_bucket_test_calculate_wait_time() {
    let limiter = LeakyBucketLimiter::new(10, 1);
    assert_eq!(limiter.calculate_wait_time(5), 0);

    let mut limiter2 = LeakyBucketLimiter::new(10, 1);
    limiter2.bucket_level = 8;
    assert_eq!(limiter2.calculate_wait_time(5), 3000);
}

#[test]
fn test_token_bucket_creation() {
    let mut limiter = TokenBucketLimiter::new(10, 1);
    let status = limiter.get_status();
    assert_eq!(status.capacity, 10);
    assert_eq!(status.refill_rate, 1);
    assert_eq!(status.algorithm, RateLimiterAlgorithm::TokenBucket);
}

#[test]
fn test_token_bucket_acquire() {
    let mut limiter = TokenBucketLimiter::new(5, 1);
    assert_eq!(limiter.available_tokens, 5);
    assert!(limiter.try_acquire());
    assert_eq!(limiter.available_tokens, 4);
    assert!(limiter.try_acquire());
    assert_eq!(limiter.available_tokens, 3);
    for _ in 0..3 {
        assert!(limiter.try_acquire());
    }
    assert!(!limiter.try_acquire());
    assert_eq!(limiter.available_tokens, 0);
}

#[test]
fn test_token_bucket_acquire_many() {
    let mut limiter = TokenBucketLimiter::new(10, 5);
    let acquired = limiter.try_acquire_many(15);
    assert_eq!(acquired, 10);
    assert_eq!(limiter.available_tokens, 0);
}

#[test]
fn test_token_bucket_reset() {
    let mut limiter = TokenBucketLimiter::new(5, 1);
    for _ in 0..5 {
        assert!(limiter.try_acquire());
    }
    assert!(!limiter.try_acquire());
    limiter.reset();
    assert_eq!(limiter.available_tokens, 5);
    assert!(limiter.try_acquire());
}

#[test]
fn test_token_bucket_status() {
    let mut limiter = TokenBucketLimiter::new(10, 2);
    let status = limiter.get_status();
    assert_eq!(status.available_tokens, 10);
    assert_eq!(status.capacity, 10);
    assert_eq!(status.refill_rate, 2);
    for _ in 0..3 {
        limiter.try_acquire();
    }
    let status = limiter.get_status();
    assert_eq!(status.available_tokens, 7);
}

#[test]
fn test_token_bucket_high_rate() {
    let mut limiter = TokenBucketLimiter::new(1000, 100);
    let mut acquired = 0u64;
    for _ in 0..100 {
        if limiter.try_acquire() {
            acquired += 1;
        }
    }
    assert_eq!(acquired, 100);
    assert_eq!(limiter.available_tokens, 900);
}

#[test]
fn test_token_bucket_partial_acquire() {
    let mut limiter = TokenBucketLimiter::new(5, 1);
    let acquired = limiter.try_acquire_many(10);
    assert_eq!(acquired, 5);
    assert_eq!(limiter.available_tokens, 0);
}

#[test]
fn token_bucket_refills_by_elapsed_time() {
    let mut limiter = TokenBucketLimiter::new(10, 2);
    limiter.available_tokens = 0;
    // 1.5 s at 2 tokens per second gives 3 whole tokens.
    limiter.refill_at(1_500_000_000);
    assert_eq!(limiter.available_tokens, 3);
    assert_eq!(limiter.last_refill_time, 1_500_000_000);
    // 0.4 s more earns nothing; the refill time stays.
    limiter.refill_at(1_900_000_000);
    assert_eq!(limiter.available_tokens, 3);
    assert_eq!(limiter.last_refill_time, 1_500_000_000);
    // A long wait fills the bucket only up to its capacity.
    limiter.refill_at(100_000_000_000);
    assert_eq!(limiter.available_tokens, 10);
}

#[test]
fn token_bucket_wait_rounds_up_and_zero_rate() {
    let mut limiter = TokenBucketLimiter::new(10, 3);
    limiter.available_tokens = 0;
    assert_eq!(limiter.calculate_wait_time(1), 334);
    assert_eq!(
        limiter.try_acquire_without_refill(2),
        RateLimitResult::Limited { wait_ms: 667 }
    );
    let mut stuck = TokenBucketLimiter::new(10, 0);
    stuck.available_tokens = 0;
    assert_eq!(stuck.calculate_wait_time(1), u64::MAX);
}

#[test]
fn test_leaky_bucket_creation() {
    let mut limiter = LeakyBucketLimiter::new(10, 1);
    let status = limiter.get_status();
    assert_eq!(status.capacity, 10);
    assert_eq!(status.refill_rate, 1);
    assert_eq!(status.algorithm, RateLimiterAlgorithm::LeakyBucket);
    assert_eq!(status.available_tokens, 10);
}

#[test]
fn test_leaky_bucket_acquire() {
    let mut limiter = LeakyBucketLimiter::new(5, 1);
    assert_eq!(limiter.bucket_level, 0);
    assert!(limiter.try_acquire());
    assert_eq!(limiter.bucket_level, 1);
    assert!(limiter.try_acquire());
    assert_eq!(limiter.bucket_level, 2);
    for _ in 0..3 {
        assert!(limiter.try_acquire());
    }
    assert!(!limiter.try_acquire());
    assert_eq!(limiter.bucket_level, 5);
}

#[test]
fn test_leaky_bucket_acquire_many() {
    let mut limiter = LeakyBucketLimiter::new(10, 5);
    let acquired = limiter.try_acquire_many(15);
    assert_eq!(acquired, 10);
    assert_eq!(limiter.bucket_level, 10);
}

#[test]
fn test_leaky_bucket_reset() {
    let mut limiter = LeakyBucketLimiter::new(5, 1);
    for _ in 0..5 {
        assert!(limiter.try_acquire());
    }
    assert!(!limiter.try_acquire());
    limiter.reset();
    assert_eq!(limiter.bucket_level, 0);
    assert!(limiter.try_acquire());
}

#[test]
fn test_leaky_bucket_status() {
    let mut limiter = LeakyBucketLimiter::new(10, 2);
    let status = limiter.get_status();
    assert_eq!(status.available_tokens, 10);
    assert_eq!(status.capacity, 10);
    assert_eq!(status.refill_rate, 2);
    for _ in 0..3 {
        limiter.try_acquire();
    }
    let status = limiter.get_status();
    assert_eq!(status.available_tokens, 7);
}

#[test]
fn test_leaky_bucket_high_rate() {
    let mut limiter = LeakyBucketLimiter::new(1000, 100);
    let mut acquired = 0u64;
    for _ in 0..100 {
        if limiter.try_acquire() {
            acquired += 1;
        }
    }
    assert_eq!(acquired, 100);
    assert_eq!(limiter.bucket_level, 100);
}

#[test]
fn test_leaky_bucket_partial_acquire() {
    let mut limiter = LeakyBucketLimiter::new(5, 1);
    let acquired = limiter.try_acquire_many(10);
    assert_eq!(acquired, 5);
    assert_eq!(limiter.bucket_level, 5);
}

#[test]
fn test_leaky_bucket_available_tokens() {
    let mut limiter = LeakyBucketLimiter::new(10, 2);
    assert_eq!(limiter.bucket_level, 0);
    let status = limiter.get_status();
    assert_eq!(status.available_tokens, 10);
    for _ in 0..3 {
        limiter.try_acquire();
    }
    let status = limiter.get_status();
    assert_eq!(status.available_tokens, 7);
}

#[test]
fn leaky_bucket_drains_by_elapsed_time() {
    let mut limiter = LeakyBucketLimiter::new(10, 4);
    limiter.bucket_level = 9;
    // 0.5 s at 4 per second drains 2.
    limiter.drain_at(500_000_000);
    assert_eq!(limiter.bucket_level, 7);
    assert_eq!(limiter.last_drain_time, 500_000_000);
    limiter.drain_at(60_000_000_000);
    assert_eq!(limiter.bucket_level, 0);
}
