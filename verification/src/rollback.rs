//! Rollback: snapshots taken before operations, the rollback of an
//! operation to a snapshot, and the verification of a rollback.

pub mod config;
pub mod error;
pub mod executor;
pub mod snapshot;
pub mod verification;

pub use config::Config;
pub use error::{Error, Result};
pub use executor::{
    RollbackAction, RollbackActionStatus, RollbackActionType, RollbackExecutor, RollbackResult,
};
pub use snapshot::{Snapshot, SnapshotManager, SnapshotStatus, SnapshotType};
pub use verification::{
    RollbackVerifier, VerificationCheck, VerificationCheckType, VerificationResult, VerificationStatus,
};
