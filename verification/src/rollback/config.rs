//! Configuration of rollbacks.

use vstd::prelude::*;

verus! {

/// Configuration of rollbacks.
#[derive(Debug, Clone, Copy, PartialEq, Eq, Structural)]
pub struct Config {
    /// Most snapshots kept per operation.
    pub max_rollback_levels: usize,
    /// Whether rollbacks run by themselves.
    pub auto_rollback: bool,
}

impl Default for Config {
    fn default() -> (r: Self)
        ensures
            r.max_rollback_levels == 10,
            !r.auto_rollback,
    {
        Config { max_rollback_levels: 10, auto_rollback: false }
    }
}

} // verus!
