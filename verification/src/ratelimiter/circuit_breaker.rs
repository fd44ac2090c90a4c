//! The circuit breaker.
//!
//! Closed: requests pass and consecutive failures are counted; reaching the
//! failure threshold opens the circuit. Open: requests are rejected until the
//! open timeout has passed, then the circuit turns half open. Half open:
//! requests pass; enough consecutive successes close the circuit, one
//! failure opens it again.

use vstd::prelude::*;
use crate::clock::clock_nanos;
use crate::ratelimiter::circuit::{CircuitConfig, CircuitDecision, CircuitState, CircuitStatus};

verus! {

/// The abstract state of a circuit breaker.
pub struct CircuitModel {
    /// The configuration.
    pub config: CircuitConfig,
    /// The state.
    pub state: CircuitState,
    /// Consecutive failures.
    pub failures: u32,
    /// Consecutive successes while half open.
    pub successes: u32,
    /// Time of the last state change, in nanoseconds.
    pub last_change: u64,
}

/// The breaker after a move to `new_state` at time `now`. Moving to the
/// current state changes nothing; otherwise the time is recorded, the
/// success count restarts, and closing also clears the failure count.
pub open spec fn transitioned(m: CircuitModel, new_state: CircuitState, now: u64) -> CircuitModel {
    if m.state == new_state {
        m
    } else {
        CircuitModel {
            config: m.config,
            state: new_state,
            failures: if new_state == CircuitState::Closed {
                0
            } else {
                m.failures
            },
            successes: 0,
            last_change: now,
        }
    }
}

/// The breaker after a successful request at time `now`.
pub open spec fn after_success(m: CircuitModel, now: u64) -> CircuitModel {
    match m.state {
        CircuitState::Closed => CircuitModel { failures: 0, ..m },
        CircuitState::Open => m,
        CircuitState::HalfOpen => {
            let s = (m.successes + 1) as u32;
            if s >= m.config.success_threshold {
                transitioned(CircuitModel { successes: s, ..m }, CircuitState::Closed, now)
            } else {
                CircuitModel { successes: s, ..m }
            }
        },
    }
}

/// The breaker after a failed request at time `now`.
pub open spec fn after_failure(m: CircuitModel, now: u64) -> CircuitModel {
    match m.state {
        CircuitState::Closed => {
            let f = (m.failures + 1) as u32;
            if f >= m.config.failure_threshold {
                transitioned(CircuitModel { failures: f, ..m }, CircuitState::Open, now)
            } else {
                CircuitModel { failures: f, ..m }
            }
        },
        CircuitState::Open => m,
        CircuitState::HalfOpen => transitioned(m, CircuitState::Open, now),
    }
}

/// Whole milliseconds from `since` to `now` (zero when `now` is earlier).
pub open spec fn elapsed_ms(since: u64, now: u64) -> int {
    if now >= since {
        (now - since) / 1_000_000
    } else {
        0
    }
}

/// The decision at time `now` and the breaker after it: an open circuit
/// whose open timeout has passed turns half open and lets the request pass;
/// one still within it rejects the request with the remaining time.
pub open spec fn decided(m: CircuitModel, now: u64) -> (CircuitDecision, CircuitModel) {
    match m.state {
        CircuitState::Open => {
            let e = elapsed_ms(m.last_change, now);
            if e >= m.config.open_timeout_ms {
                (CircuitDecision::Allow, transitioned(m, CircuitState::HalfOpen, now))
            } else {
                (
                    CircuitDecision::Reject { retry_after_ms: (m.config.open_timeout_ms - e) as u64 },
                    m,
                )
            }
        },
        _ => (CircuitDecision::Allow, m),
    }
}

/// A circuit breaker.
pub struct CircuitBreaker {
    config: CircuitConfig,
    state: CircuitState,
    consecutive_failures: u32,
    consecutive_successes: u32,
    last_state_change: u64,
}

impl View for CircuitBreaker {
    type V = CircuitModel;

    closed spec fn view(&self) -> CircuitModel {
        CircuitModel {
            config: self.config,
            state: self.state,
            failures: self.consecutive_failures,
            successes: self.consecutive_successes,
            last_change: self.last_state_change,
        }
    }
}

impl CircuitBreaker {
    /// The counters never sit at the top of their range where they are
    /// counted up: a closed circuit reaches its failure threshold first,
    /// a half-open one its success threshold.
    #[verifier::type_invariant]
    spec fn counters_in_range(self) -> bool {
        &&& (self.state == CircuitState::Closed ==> self.consecutive_failures < u32::MAX)
        &&& (self.state == CircuitState::HalfOpen ==> self.consecutive_successes < u32::MAX)
    }

    /// A closed breaker with clear counters, created at time `now`.
    pub fn new_at(config: CircuitConfig, now: u64) -> (r: Self)
        ensures
            r@ == (CircuitModel {
                config,
                state: CircuitState::Closed,
                failures: 0,
                successes: 0,
                last_change: now,
            }),
    {
        CircuitBreaker {
            config,
            state: CircuitState::Closed,
            consecutive_failures: 0,
            consecutive_successes: 0,
            last_state_change: now,
        }
    }

    /// A closed breaker with clear counters, created now.
    pub fn new(config: CircuitConfig) -> (r: Self)
        ensures
            r@.config == config,
            r@.state == CircuitState::Closed,
            r@.failures == 0,
            r@.successes == 0,
    {
        let now = clock_nanos();
        Self::new_at(config, now)
    }

    /// A breaker with the default configuration.
    pub fn with_default_config() -> (r: Self)
        ensures
            r@.config.failure_threshold == 5,
            r@.config.success_threshold == 2,
            r@.config.timeout_ms == 30000,
            r@.config.half_open_timeout_ms == 60000,
            r@.config.open_timeout_ms == 60000,
            r@.state == CircuitState::Closed,
            r@.failures == 0,
            r@.successes == 0,
    {
        Self::new(CircuitConfig::default())
    }

    /// Moves to `new_state` at time `now`.
    pub fn transition_to_at(&mut self, new_state: CircuitState, now: u64)
        ensures
            final(self)@ == transitioned(old(self)@, new_state, now),
    {
        proof {
            use_type_invariant(&*self);
        }
        if self.state != new_state {
            match new_state {
                CircuitState::Closed => {
                    self.consecutive_failures = 0;
                    self.consecutive_successes = 0;
                    self.state = new_state;
                },
                _ => {
                    self.consecutive_successes = 0;
                    self.state = new_state;
                },
            }
            self.last_state_change = now;
        }
    }

    /// Moves to `new_state` now.
    pub fn transition_to(&mut self, new_state: CircuitState)
        ensures
            exists|now: u64| final(self)@ == transitioned(old(self)@, new_state, now),
    {
        let now = clock_nanos();
        self.transition_to_at(new_state, now);
    }

    /// Decides at time `now` whether a request may pass.
    pub fn decide_at(&mut self, now: u64) -> (d: CircuitDecision)
        ensures
            (d, final(self)@) == decided(old(self)@, now),
    {
        match self.state {
            CircuitState::Open => {
                let elapsed = now.saturating_sub(self.last_state_change) / 1_000_000;
                if elapsed >= self.config.open_timeout_ms {
                    self.transition_to_at(CircuitState::HalfOpen, now);
                    CircuitDecision::Allow
                } else {
                    CircuitDecision::Reject { retry_after_ms: self.config.open_timeout_ms - elapsed }
                }
            },
            _ => CircuitDecision::Allow,
        }
    }

    /// Decides now whether a request may pass.
    pub fn decide(&mut self) -> (d: CircuitDecision)
        ensures
            exists|now: u64| (d, final(self)@) == decided(old(self)@, now),
    {
        let now = clock_nanos();
        self.decide_at(now)
    }

    /// Records a success at time `now`.
    pub fn on_success_at(&mut self, now: u64)
        ensures
            final(self)@ == after_success(old(self)@, now),
    {
        proof {
            use_type_invariant(&*self);
        }
        match self.state {
            CircuitState::Closed => {
                self.consecutive_failures = 0;
            },
            CircuitState::Open => {},
            CircuitState::HalfOpen => {
                let successes = self.consecutive_successes + 1;
                if successes >= self.config.success_threshold {
                    self.consecutive_failures = 0;
                    self.consecutive_successes = 0;
                    self.state = CircuitState::Closed;
                    self.last_state_change = now;
                } else {
                    self.consecutive_successes = successes;
                }
            },
        }
    }

    /// Records a success now.
    pub fn on_success(&mut self)
        ensures
            exists|now: u64| final(self)@ == after_success(old(self)@, now),
    {
        let now = clock_nanos();
        self.on_success_at(now);
    }

    /// Records a failure at time `now`.
    pub fn on_failure_at(&mut self, now: u64)
        ensures
            final(self)@ == after_failure(old(self)@, now),
    {
        proof {
            use_type_invariant(&*self);
        }
        match self.state {
            CircuitState::Closed => {
                let failures = self.consecutive_failures + 1;
                if failures >= self.config.failure_threshold {
                    self.consecutive_successes = 0;
                    self.state = CircuitState::Open;
                    self.consecutive_failures = failures;
                    self.last_state_change = now;
                } else {
                    self.consecutive_failures = failures;
                }
            },
            CircuitState::Open => {},
            CircuitState::HalfOpen => {
                self.transition_to_at(CircuitState::Open, now);
            },
        }
    }

    /// Records a failure now.
    pub fn on_failure(&mut self)
        ensures
            exists|now: u64| final(self)@ == after_failure(old(self)@, now),
    {
        let now = clock_nanos();
        self.on_failure_at(now);
    }

    /// Records a timeout now; a timeout counts as a failure.
    pub fn on_timeout(&mut self)
        ensures
            exists|now: u64| final(self)@ == after_failure(old(self)@, now),
    {
        self.on_failure();
    }

    /// The current state.
    pub fn get_state(&self) -> (s: CircuitState)
        ensures
            s == self@.state,
    {
        self.state
    }

    /// The full status.
    pub fn get_status(&self) -> (s: CircuitStatus)
        ensures
            s == (CircuitStatus {
                state: self@.state,
                consecutive_failures: self@.failures,
                consecutive_successes: self@.successes,
                last_state_change: self@.last_change,
            }),
    {
        CircuitStatus {
            state: self.state,
            consecutive_failures: self.consecutive_failures,
            consecutive_successes: self.consecutive_successes,
            last_state_change: self.last_state_change,
        }
    }

    /// Closes the circuit now.
    pub fn reset(&mut self)
        ensures
            exists|now: u64|
                final(self)@ == transitioned(old(self)@, CircuitState::Closed, now),
    {
        self.transition_to(CircuitState::Closed);
    }

    /// Whether the circuit is open.
    pub fn is_open(&self) -> (r: bool)
        ensures
            r == (self@.state == CircuitState::Open),
    {
        self.state == CircuitState::Open
    }

    /// Whether the circuit is closed.
    pub fn is_closed(&self) -> (r: bool)
        ensures
            r == (self@.state == CircuitState::Closed),
    {
        self.state == CircuitState::Closed
    }

    /// Whether the circuit is half open.
    pub fn is_half_open(&self) -> (r: bool)
        ensures
            r == (self@.state == CircuitState::HalfOpen),
    {
        self.state == CircuitState::HalfOpen
    }

    /// Runs `f` if the breaker lets the request pass, and records its
    /// outcome: a success or a failure. A rejected request does not run `f`.
    pub fn try_execute<F, R, E>(&mut self, f: F) -> (r: Result<R, ExecutionError<E>>) where
        F: FnOnce() -> Result<R, E>,

        requires
            call_requires(f, ()),
        ensures
            exists|now1: u64, now2: u64|
                #[trigger] call_outcome(old(self)@, final(self)@, f, r, now1, now2),
    {
        let now1 = clock_nanos();
        let ghost before = self@;
        let decision = self.decide_at(now1);
        match decision {
            CircuitDecision::Reject { retry_after_ms } => {
                let r = Err(ExecutionError::CircuitOpen { retry_after_ms });
                assert(call_outcome(before, self@, f, r, now1, now1));
                return r;
            },
            CircuitDecision::Allow => {},
        }
        let result = f();
        let now2 = clock_nanos();
        match result {
            Ok(v) => {
                self.on_success_at(now2);
                let r = Ok(v);
                assert(call_outcome(before, self@, f, r, now1, now2));
                r
            },
            Err(e) => {
                self.on_failure_at(now2);
                let r = Err(ExecutionError::ExecutionFailed(e));
                assert(call_outcome(before, self@, f, r, now1, now2));
                r
            },
        }
    }
}

/// What a call through the breaker did, with the decision taken at `now1`
/// and the outcome recorded at `now2`: a rejection returns `CircuitOpen`
/// with the retry delay and leaves `f` uncalled; an admitted call returns
/// what `f` returned, recorded as a success or a failure.
pub open spec fn call_outcome<F: FnOnce() -> Result<R, E>, R, E>(
    before: CircuitModel,
    after: CircuitModel,
    f: F,
    r: Result<R, ExecutionError<E>>,
    now1: u64,
    now2: u64,
) -> bool {
    let (d, m1) = decided(before, now1);
    match d {
        CircuitDecision::Reject { retry_after_ms } => r == Err::<R, ExecutionError<E>>(
            ExecutionError::CircuitOpen { retry_after_ms },
        ) && after == m1,
        CircuitDecision::Allow => match r {
            Ok(v) => call_ensures(f, (), Ok::<R, E>(v)) && after == after_success(m1, now2),
            Err(ExecutionError::ExecutionFailed(e)) => call_ensures(f, (), Err::<R, E>(e))
                && after == after_failure(m1, now2),
            Err(ExecutionError::CircuitOpen { .. }) => false,
        },
    }
}

/// The error of a call made through the breaker.
#[derive(Debug, Clone)]
pub enum ExecutionError<E> {
    /// The circuit is open.
    CircuitOpen {
        /// Milliseconds until it may be tried again.
        retry_after_ms: u64,
    },
    /// The call ran and failed.
    ExecutionFailed(E),
}

impl<E> ExecutionError<E> {
    /// Whether the call got through the breaker (any error but `CircuitOpen`).
    pub fn is_ok(&self) -> (r: bool)
        ensures
            r == !(*self is CircuitOpen),
    {
        match self {
            ExecutionError::CircuitOpen { .. } => false,
            ExecutionError::ExecutionFailed(_) => true,
        }
    }
}


/// The breaker after `n` failed requests in a row at time `now`.
pub open spec fn failed_times(m: CircuitModel, n: nat, now: u64) -> CircuitModel
    decreases n,
{
    if n == 0 {
        m
    } else {
        after_failure(failed_times(m, (n - 1) as nat, now), now)
    }
}

/// The breaker after `n` successful requests in a row at time `now`.
pub open spec fn succeeded_times(m: CircuitModel, n: nat, now: u64) -> CircuitModel
    decreases n,
{
    if n == 0 {
        m
    } else {
        after_success(succeeded_times(m, (n - 1) as nat, now), now)
    }
}

/// A closed circuit with no failures counted stays closed through fewer
/// consecutive failures than its threshold, counting each, and is open
/// after the failure that reaches the threshold and every one after it.
pub proof fn lemma_failures_open_circuit(m: CircuitModel, n: nat, now: u64)
    requires
        m.state == CircuitState::Closed,
        m.failures == 0,
        m.config.failure_threshold >= 1,
    ensures
        n < m.config.failure_threshold ==> failed_times(m, n, now).state == CircuitState::Closed
            && failed_times(m, n, now).failures == n,
        n >= m.config.failure_threshold ==> failed_times(m, n, now).state == CircuitState::Open,
        failed_times(m, n, now).config == m.config,
    decreases n,
{
    if n > 0 {
        lemma_failures_open_circuit(m, (n - 1) as nat, now);
        assert(failed_times(m, n, now) == after_failure(failed_times(m, (n - 1) as nat, now), now));
    }
}

/// A half-open circuit with no successes counted stays half open through
/// fewer consecutive successes than its threshold, and is closed, with no
/// failures counted, after the success that reaches it and every one after.
pub proof fn lemma_successes_close_circuit(m: CircuitModel, n: nat, now: u64)
    requires
        m.state == CircuitState::HalfOpen,
        m.successes == 0,
        m.config.success_threshold >= 1,
    ensures
        n < m.config.success_threshold ==> succeeded_times(m, n, now).state == CircuitState::HalfOpen
            && succeeded_times(m, n, now).successes == n,
        n >= m.config.success_threshold ==> succeeded_times(m, n, now).state == CircuitState::Closed
            && succeeded_times(m, n, now).failures == 0,
        succeeded_times(m, n, now).config == m.config,
    decreases n,
{
    if n > 0 {
        lemma_successes_close_circuit(m, (n - 1) as nat, now);
        assert(succeeded_times(m, n, now) == after_success(succeeded_times(m, (n - 1) as nat, now), now));
    }
}

/// One failure while half open opens the circuit again, from that moment.
pub proof fn lemma_half_open_failure_reopens(m: CircuitModel, now: u64)
    requires
        m.state == CircuitState::HalfOpen,
    ensures
        after_failure(m, now).state == CircuitState::Open,
        after_failure(m, now).last_change == now,
{
}

/// An open circuit rejects requests, unchanged, until its open timeout has
/// passed since it opened; from then on the request passes and the circuit
/// turns half open.
pub proof fn lemma_open_circuit_waits(m: CircuitModel, now: u64)
    requires
        m.state == CircuitState::Open,
    ensures
        elapsed_ms(m.last_change, now) < m.config.open_timeout_ms ==> decided(m, now).0 is Reject
            && decided(m, now).1 == m,
        elapsed_ms(m.last_change, now) >= m.config.open_timeout_ms ==> decided(m, now).0 is Allow
            && decided(m, now).1.state == CircuitState::HalfOpen,
{
}

/// A breaker is in exactly one of its three states, so exactly one of
/// `is_open`, `is_closed` and `is_half_open` holds, and each agrees with
/// `get_state` and `get_status`.
pub proof fn lemma_exactly_one_state(m: CircuitModel)
    ensures
        (m.state == CircuitState::Open) as int + (m.state == CircuitState::Closed) as int + (m.state
            == CircuitState::HalfOpen) as int == 1,
{
}

/// A timeout counts as a failure: whenever each is recorded, the state and
/// both counters come out the same.
pub proof fn lemma_timeout_is_failure(m: CircuitModel, t1: u64, t2: u64)
    ensures
        after_failure(m, t1).state == after_failure(m, t2).state,
        after_failure(m, t1).failures == after_failure(m, t2).failures,
        after_failure(m, t1).successes == after_failure(m, t2).successes,
        after_failure(m, t1).config == after_failure(m, t2).config,
{
}

} // verus!
