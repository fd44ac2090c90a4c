//! Module-level configuration of the scheduler.

use vstd::prelude::*;

verus! {

/// Configuration of the scheduler.
#[derive(Debug, Clone, Copy)]
pub struct Config {
    /// Most jobs that run at once.
    pub max_concurrent_jobs: usize,
    /// Whether jobs are persisted.
    pub persistent: bool,
}

impl Default for Config {
    fn default() -> (r: Self)
        ensures
            r.max_concurrent_jobs == 100,
            !r.persistent,
    {
        Config { max_concurrent_jobs: 100, persistent: false }
    }
}

} // verus!
