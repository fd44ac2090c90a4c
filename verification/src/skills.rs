//! Skills: versioned, device-aware definitions of successful operations.

pub mod adapter;
pub mod definition;
pub mod error;
pub mod skill;
pub mod version;

pub use definition::{
    DeviceConstraint, ExecutionStep, OutputDefinition, ParamType, SkillDependency, SkillVersion,
};
pub use error::{Result, SkillsError};
pub use adapter::{AdaptationRule, DeviceAdapter, DeviceConfig, DeviceRegistry, DeviceType};
pub use version::{LockType, VersionLock, VersionManager};
pub use skill::{Skill, SkillDefinition, SkillRegistry, SkillStatus};
