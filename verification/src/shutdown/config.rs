//! Configuration of the shutdown.

use vstd::prelude::*;

verus! {

/// Configuration of the shutdown.
#[derive(Debug, Clone, Copy, PartialEq, Eq, Structural)]
pub struct ShutdownConfig {
    /// Time allowed for the whole shutdown, in seconds.
    pub timeout_secs: u64,
    /// Whether to wait for running tasks.
    pub wait_for_tasks: bool,
    /// Time allowed for the tasks, in seconds.
    pub task_wait_timeout_secs: u64,
    /// Whether to clean up resources.
    pub enable_cleanup: bool,
    /// How often a cleanup is retried.
    pub cleanup_retries: u32,
    /// Whether to force the shutdown.
    pub force_shutdown: bool,
}

impl ShutdownConfig {
    /// The default configuration: 30 s in all, wait up to 10 s for tasks,
    /// clean up with 3 retries, no forcing.
    pub open spec fn defaults() -> ShutdownConfig {
        ShutdownConfig {
            timeout_secs: 30,
            wait_for_tasks: true,
            task_wait_timeout_secs: 10,
            enable_cleanup: true,
            cleanup_retries: 3,
            force_shutdown: false,
        }
    }

    /// The default configuration.
    pub fn new() -> (r: Self)
        ensures
            r == ShutdownConfig::defaults(),
    {
        Self::default()
    }

    /// The same configuration with another total time limit.
    pub fn with_timeout(self, secs: u64) -> (r: Self)
        ensures
            r == (ShutdownConfig { timeout_secs: secs, ..self }),
    {
        let mut c = self;
        c.timeout_secs = secs;
        c
    }

    /// The same configuration, not waiting for tasks.
    pub fn without_task_wait(self) -> (r: Self)
        ensures
            r == (ShutdownConfig { wait_for_tasks: false, ..self }),
    {
        let mut c = self;
        c.wait_for_tasks = false;
        c
    }
}

impl Default for ShutdownConfig {
    fn default() -> (r: Self)
        ensures
            r == ShutdownConfig::defaults(),
    {
        ShutdownConfig {
            timeout_secs: 30,
            wait_for_tasks: true,
            task_wait_timeout_secs: 10,
            enable_cleanup: true,
            cleanup_retries: 3,
            force_shutdown: false,
        }
    }
}

/// The configuration of the shutdown module.
pub type Config = ShutdownConfig;

} // verus!
