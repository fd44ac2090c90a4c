//! Sandbox states, isolation levels and configuration.

use vstd::prelude::*;
use crate::ids::{is_uuid_v4_text, new_uuid_v4};

verus! {

/// State of a sandbox.
#[derive(Debug, Clone, Copy, PartialEq, Eq, Structural)]
pub enum SandboxStatus {
    /// Idle.
    Idle,
    /// Running.
    Running,
    /// Finished successfully.
    Success,
    /// Failed.
    Failed,
    /// Destroyed.
    Destroyed,
}

/// How much a sandbox is isolated.
#[derive(Debug, Clone, Copy, PartialEq, Eq, Structural)]
pub enum IsolationLevel {
    /// File system, network and processes.
    Full,
    /// File system only.
    Filesystem,
    /// Network only.
    Network,
    /// Processes only.
    Process,
}

/// Configuration of a sandbox.
#[derive(Debug, Clone)]
pub struct SandboxConfig {
    /// Identifier.
    pub id: String,
    /// Isolation level.
    pub isolation_level: IsolationLevel,
    /// Time limit, in seconds.
    pub timeout_secs: u64,
    /// Memory limit, in MiB.
    pub memory_limit_mb: u64,
    /// CPU limit, in percent.
    pub cpu_limit_percent: u64,
    /// Whether the network may be used.
    pub network_allowed: bool,
    /// Paths that may be used.
    pub allowed_paths: Vec<String>,
}

impl Default for SandboxConfig {
    /// A fresh random identifier, full isolation, five minutes, 512 MiB,
    /// half a CPU, no network and no paths.
    fn default() -> (r: Self)
        ensures
            is_uuid_v4_text(r.id@),
            r.isolation_level == IsolationLevel::Full,
            r.timeout_secs == 300,
            r.memory_limit_mb == 512,
            r.cpu_limit_percent == 50,
            !r.network_allowed,
            r.allowed_paths@.len() == 0,
    {
        SandboxConfig {
            id: new_uuid_v4(),
            isolation_level: IsolationLevel::Full,
            timeout_secs: 300,
            memory_limit_mb: 512,
            cpu_limit_percent: 50,
            network_allowed: false,
            allowed_paths: Vec::new(),
        }
    }
}

} // verus!
