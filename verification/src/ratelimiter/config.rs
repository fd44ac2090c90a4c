//! Module-level configuration of the rate limiter.

use vstd::prelude::*;

verus! {

/// Configuration of the rate limiting module.
#[derive(Debug, Clone, Copy)]
pub struct Config {
    /// Requests allowed per second.
    pub requests_per_second: u32,
    /// Burst size.
    pub burst_size: u32,
}

impl Default for Config {
    fn default() -> (r: Self)
        ensures
            r.requests_per_second == 100,
            r.burst_size == 200,
    {
        Config { requests_per_second: 100, burst_size: 200 }
    }
}

} // verus!
