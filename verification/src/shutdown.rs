//! Graceful shutdown: the shutdown signal, waiting for running tasks,
//! cleaning up resources in priority order, and the shutdown state.

pub mod cleaner;
pub mod config;
pub mod coordinator;
pub mod error;
pub mod signal;
pub mod state;
pub mod waiter;

pub use config::ShutdownConfig;
pub use error::{Error, Result};
pub use signal::{ShutdownSignal, SignalHandler};
pub use waiter::{TaskInfo, TaskStatus, TaskWaiter};
pub use cleaner::{CleanupItem, ResourceCleaner};
pub use coordinator::{ShutdownCoordinator, ShutdownPhase, ShutdownStats};
pub use state::{Shutdown, ShutdownState};
