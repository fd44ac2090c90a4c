//! Circuit breaker core types.

use vstd::prelude::*;
use crate::ratelimiter::error::{Error, Result};

verus! {

/// The state of a circuit breaker.
#[derive(Debug, Clone, Copy, PartialEq, Eq, Structural)]
pub enum CircuitState {
    /// Closed: requests pass.
    Closed,
    /// Open: requests are rejected.
    Open,
    /// Half open: requests pass while recovery is tried.
    HalfOpen,
}

/// Configuration of a circuit breaker.
#[derive(Debug, Clone, Copy)]
pub struct CircuitConfig {
    /// Consecutive failures that open the circuit.
    pub failure_threshold: u32,
    /// Consecutive half-open successes that close it again.
    pub success_threshold: u32,
    /// Request timeout in milliseconds.
    pub timeout_ms: u64,
    /// Half-open duration in milliseconds.
    pub half_open_timeout_ms: u64,
    /// How long the circuit stays open, in milliseconds.
    pub open_timeout_ms: u64,
}

impl Default for CircuitConfig {
    fn default() -> (r: Self)
        ensures
            r.failure_threshold == 5,
            r.success_threshold == 2,
            r.timeout_ms == 30000,
            r.half_open_timeout_ms == 60000,
            r.open_timeout_ms == 60000,
    {
        CircuitConfig {
            failure_threshold: 5,
            success_threshold: 2,
            timeout_ms: 30000,
            half_open_timeout_ms: 60000,
            open_timeout_ms: 60000,
        }
    }
}

impl CircuitConfig {
    /// A configuration from its five values.
    pub fn new(
        failure_threshold: u32,
        success_threshold: u32,
        timeout_ms: u64,
        half_open_timeout_ms: u64,
        open_timeout_ms: u64,
    ) -> (r: Self)
        ensures
            r.failure_threshold == failure_threshold,
            r.success_threshold == success_threshold,
            r.timeout_ms == timeout_ms,
            r.half_open_timeout_ms == half_open_timeout_ms,
            r.open_timeout_ms == open_timeout_ms,
    {
        CircuitConfig {
            failure_threshold,
            success_threshold,
            timeout_ms,
            half_open_timeout_ms,
            open_timeout_ms,
        }
    }

    /// Checks that both thresholds and the timeout are positive; the first
    /// zero value found, in that order, is reported.
    pub fn validate(&self) -> (r: Result<()>)
        ensures
            r is Ok <==> (self.failure_threshold > 0 && self.success_threshold > 0
                && self.timeout_ms > 0),
            self.failure_threshold == 0 ==> (r matches Err(Error::Config(m))
                && m@ == "failure_threshold must be > 0"@),
            self.failure_threshold > 0 && self.success_threshold == 0 ==> (r matches Err(
                Error::Config(m),
            ) && m@ == "success_threshold must be > 0"@),
            self.failure_threshold > 0 && self.success_threshold > 0 && self.timeout_ms == 0
                ==> (r matches Err(Error::Config(m)) && m@ == "timeout_ms must be > 0"@),
    {
        if self.failure_threshold == 0 {
            return Err(Error::Config(String::from_str("failure_threshold must be > 0")));
        }
        if self.success_threshold == 0 {
            return Err(Error::Config(String::from_str("success_threshold must be > 0")));
        }
        if self.timeout_ms == 0 {
            return Err(Error::Config(String::from_str("timeout_ms must be > 0")));
        }
        Ok(())
    }
}

/// The outcome of a request.
#[derive(Debug, Clone, Copy, PartialEq, Eq, Structural)]
pub enum RequestResult {
    /// It succeeded.
    Success,
    /// It failed.
    Failure,
    /// It timed out.
    Timeout,
}

/// A snapshot of a circuit breaker.
#[derive(Debug, Clone, Copy)]
pub struct CircuitStatus {
    /// The state.
    pub state: CircuitState,
    /// Consecutive failures.
    pub consecutive_failures: u32,
    /// Consecutive successes while half open.
    pub consecutive_successes: u32,
    /// Time of the last state change, in nanoseconds.
    pub last_state_change: u64,
}

/// Whether a request may pass the breaker.
#[derive(Debug, Clone, Copy, PartialEq, Eq, Structural)]
pub enum CircuitDecision {
    /// The request may pass.
    Allow,
    /// The request is rejected.
    Reject {
        /// Milliseconds until the circuit may be tried again.
        retry_after_ms: u64,
    },
}

impl CircuitDecision {
    /// Whether the request may pass.
    pub fn is_allowed(&self) -> (r: bool)
        ensures
            r == (*self is Allow),
    {
        match self {
            CircuitDecision::Allow => true,
            CircuitDecision::Reject { .. } => false,
        }
    }

    /// The retry delay of a rejection.
    pub fn retry_after_ms(&self) -> (r: Option<u64>)
        ensures
            r == (match *self {
                CircuitDecision::Allow => None,
                CircuitDecision::Reject { retry_after_ms } => Some(retry_after_ms),
            }),
    {
        match self {
            CircuitDecision::Allow => None,
            CircuitDecision::Reject { retry_after_ms } => Some(*retry_after_ms),
        }
    }
}

} // verus!
