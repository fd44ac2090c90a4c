//! Stability testing: the configuration of long-running tests, the runner
//! that holds it, and its errors.

use vstd::prelude::*;
use std::time::Duration;
use crate::text::{decimal, decimal_string, string_of};

verus! {

/// `Clone` for `std::time::Duration`, which is `Copy` and derives `Clone`:
/// the copy equals the original.
pub assume_specification[ <Duration as Clone>::clone ](d: &Duration) -> (r: Duration)
    ensures
        r == *d,
;

/// Calls `std::time::Duration::from_secs`. The value is opaque here;
/// nothing is stated about it.
#[verifier::external_body]
fn secs(n: u64) -> Duration {
    Duration::from_secs(n)
}

/// Calls `std::time::Duration::from_millis`. The value is opaque here;
/// nothing is stated about it.
#[verifier::external_body]
fn millis(n: u64) -> Duration {
    Duration::from_millis(n)
}

/// Errors of the stability tests.
#[derive(Debug)]
pub enum StabilityTestError {
    /// A test ran out of time.
    Timeout(String),
    /// Memory use, in bytes, went over the limit, in bytes.
    MemoryLimitExceeded(u64, u64),
    /// A resource leaked.
    ResourceLeak(String),
    /// Data disagreed.
    DataInconsistency(String),
    /// An assertion failed.
    AssertionFailed(String),
    /// Anything else.
    Other(String),
}

/// The message of an error.
pub open spec fn stability_message(e: StabilityTestError) -> Seq<char> {
    match e {
        StabilityTestError::Timeout(d) => "测试超时: "@ + d@,
        StabilityTestError::MemoryLimitExceeded(used, limit) => "内存使用超过限制: "@ + decimal(
            used as nat,
        ) + " bytes, 限制: "@ + decimal(limit as nat) + " bytes"@,
        StabilityTestError::ResourceLeak(d) => "资源泄漏: "@ + d@,
        StabilityTestError::DataInconsistency(d) => "数据不一致: "@ + d@,
        StabilityTestError::AssertionFailed(d) => "断言失败: "@ + d@,
        StabilityTestError::Other(d) => "其他错误: "@ + d@,
    }
}

impl StabilityTestError {
    /// The error's message.
    pub fn message(&self) -> (r: String)
        ensures
            r@ == stability_message(*self),
    {
        match self {
            StabilityTestError::Timeout(d) => {
                let mut m = string_of("测试超时: ");
                m.append(d.as_str());
                m
            },
            StabilityTestError::MemoryLimitExceeded(used, limit) => {
                let mut m = string_of("内存使用超过限制: ");
                m.append(decimal_string(*used).as_str());
                m.append(" bytes, 限制: ");
                m.append(decimal_string(*limit).as_str());
                m.append(" bytes");
                m
            },
            StabilityTestError::ResourceLeak(d) => {
                let mut m = string_of("资源泄漏: ");
                m.append(d.as_str());
                m
            },
            StabilityTestError::DataInconsistency(d) => {
                let mut m = string_of("数据不一致: ");
                m.append(d.as_str());
                m
            },
            StabilityTestError::AssertionFailed(d) => {
                let mut m = string_of("断言失败: ");
                m.append(d.as_str());
                m
            },
            StabilityTestError::Other(d) => {
                let mut m = string_of("其他错误: ");
                m.append(d.as_str());
                m
            },
        }
    }
}

/// Result type of the stability tests.
pub type Result<T> = core::result::Result<T, StabilityTestError>;

/// Configuration of a stability test.
#[derive(Debug, Clone)]
pub struct TestConfig {
    /// Name.
    pub name: String,
    /// How long it runs.
    pub duration: Duration,
    /// Most operations at once.
    pub max_concurrent: usize,
    /// Pause between operations.
    pub operation_interval: Duration,
    /// Whether memory is watched.
    pub enable_memory_monitoring: bool,
    /// Whether the CPU is watched.
    pub enable_cpu_monitoring: bool,
}

impl TestConfig {
    /// The default: no name, ten seconds, ten at once, ten milliseconds
    /// between operations, memory and CPU watched.
    pub fn new() -> (r: Self)
        ensures
            r.name@.len() == 0,
            r.max_concurrent == 10,
            r.enable_memory_monitoring,
            r.enable_cpu_monitoring,
    {
        TestConfig {
            name: String::new(),
            duration: secs(10),
            max_concurrent: 10,
            operation_interval: millis(10),
            enable_memory_monitoring: true,
            enable_cpu_monitoring: true,
        }
    }

    /// The same configuration with another name.
    pub fn with_name(self, name: String) -> (r: Self)
        ensures
            r == (TestConfig { name, ..self }),
    {
        let mut c = self;
        c.name = name;
        c
    }

    /// The same configuration with another duration.
    pub fn with_duration(self, duration: Duration) -> (r: Self)
        ensures
            r == (TestConfig { duration, ..self }),
    {
        let mut c = self;
        c.duration = duration;
        c
    }

    /// The same configuration with another concurrency.
    pub fn with_max_concurrent(self, max_concurrent: usize) -> (r: Self)
        ensures
            r == (TestConfig { max_concurrent, ..self }),
    {
        let mut c = self;
        c.max_concurrent = max_concurrent;
        c
    }

    /// The same configuration with another pause between operations.
    pub fn with_operation_interval(self, interval: Duration) -> (r: Self)
        ensures
            r == (TestConfig { operation_interval: interval, ..self }),
    {
        let mut c = self;
        c.operation_interval = interval;
        c
    }

    /// The same configuration, watching memory or not.
    pub fn with_memory_monitoring(self, enable: bool) -> (r: Self)
        ensures
            r == (TestConfig { enable_memory_monitoring: enable, ..self }),
    {
        let mut c = self;
        c.enable_memory_monitoring = enable;
        c
    }

    /// The same configuration, watching the CPU or not.
    pub fn with_cpu_monitoring(self, enable: bool) -> (r: Self)
        ensures
            r == (TestConfig { enable_cpu_monitoring: enable, ..self }),
    {
        let mut c = self;
        c.enable_cpu_monitoring = enable;
        c
    }
}

impl Default for TestConfig {
    fn default() -> (r: Self)
        ensures
            r.name@.len() == 0,
            r.max_concurrent == 10,
            r.enable_memory_monitoring,
            r.enable_cpu_monitoring,
    {
        Self::new()
    }
}

/// Runs stability tests with a configuration.
#[derive(Debug)]
pub struct StabilityTestRunner {
    config: TestConfig,
    running: bool,
}

impl StabilityTestRunner {
    /// The configuration.
    pub closed spec fn cfg(&self) -> TestConfig {
        self.config
    }

    /// Whether a test runs.
    pub closed spec fn is_running(&self) -> bool {
        self.running
    }

    /// A runner with `config`, running nothing.
    pub fn new(config: TestConfig) -> (r: Self)
        ensures
            r.cfg() == config,
            !r.is_running(),
    {
        StabilityTestRunner { config, running: false }
    }

    /// The configuration.
    pub fn config(&self) -> (r: &TestConfig)
        ensures
            *r == self.cfg(),
    {
        &self.config
    }

    /// Marks a test as running or stopped.
    pub fn set_running(&mut self, running: bool)
        ensures
            final(self).is_running() == running,
            final(self).cfg() == old(self).cfg(),
    {
        self.running = running;
    }

    /// Whether a test runs.
    pub fn running(&self) -> (r: bool)
        ensures
            r == self.is_running(),
    {
        self.running
    }
}

} // verus!
