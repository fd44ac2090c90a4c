//! The plugin system: plugin types, sandboxes and the lifecycle rules.

pub mod config;
pub mod error;
pub mod lifecycle;
pub mod loader;
pub mod plugin;
pub mod sandbox;

pub use config::Config;
pub use error::{Error, Result};
pub use plugin::{PluginMetadata, PluginState, PluginStats, PluginStatus, PluginType};
pub use sandbox::{PluginPermissions, ResourceLimits, ResourceUsage, Sandbox, SandboxConfig};
pub use lifecycle::{LifecycleEvent, PluginLifecycleManager, Transition};
pub use loader::PluginLoader;
pub use sandbox::SandboxManager;
