//! The sandbox: isolated pre-execution of risky actions, its configuration,
//! isolation rules and validation.

pub mod config;
pub mod error;
pub mod instance;
pub mod isolation;
pub mod report;
pub mod snapshot;
pub mod validator;

pub use config::{IsolationLevel, SandboxConfig, SandboxStatus};
pub use error::{Result, SandboxError};
pub use report::{CheckDetails, CheckResult, ValidationResult};
pub use isolation::{
    FilesystemIsolation, FilesystemIsolationStatus, IsolationConfig, IsolationManager, NetworkAccess,
    NetworkIsolation, NetworkIsolationStatus, PathAccess, ProcessIsolation, ProcessIsolationStatus,
};
pub use validator::{EnvironmentValidator, IsolationValidator, StatusValidator};
pub use instance::{Sandbox, SandboxExecutor};
pub use snapshot::{SandboxSnapshot, SnapshotManager, SnapshotStatus, SnapshotType};
