//! Errors of the skills module.

use vstd::prelude::*;
use crate::text::string_of;

verus! {

/// Errors of the skills module.
#[derive(Debug)]
pub enum SkillsError {
    /// No such skill.
    NotFound(String),
    /// A skill failed verification.
    VerificationFailed(String),
    /// A parameter was rejected.
    ValidationFailed(String),
    /// A skill failed to run.
    ExecutionFailed(String),
    /// Two versions conflict.
    VersionConflict(String),
    /// A version string could not be read.
    InvalidVersion(String),
    /// A device does not fit a skill.
    DeviceIncompatible(String),
    /// Something went wrong inside.
    Internal(String),
}

/// The text before the detail in each error's message.
pub open spec fn skills_error_prefix(e: SkillsError) -> Seq<char> {
    match e {
        SkillsError::NotFound(_) => "技能不存在: "@,
        SkillsError::VerificationFailed(_) => "技能验证失败: "@,
        SkillsError::ValidationFailed(_) => "参数验证失败: "@,
        SkillsError::ExecutionFailed(_) => "技能执行失败: "@,
        SkillsError::VersionConflict(_) => "技能版本冲突: "@,
        SkillsError::InvalidVersion(_) => "无效版本号: "@,
        SkillsError::DeviceIncompatible(_) => "设备不兼容: "@,
        SkillsError::Internal(_) => "内部错误: "@,
    }
}

/// The detail an error carries.
pub open spec fn skills_error_detail(e: SkillsError) -> Seq<char> {
    match e {
        SkillsError::NotFound(d) => d@,
        SkillsError::VerificationFailed(d) => d@,
        SkillsError::ValidationFailed(d) => d@,
        SkillsError::ExecutionFailed(d) => d@,
        SkillsError::VersionConflict(d) => d@,
        SkillsError::InvalidVersion(d) => d@,
        SkillsError::DeviceIncompatible(d) => d@,
        SkillsError::Internal(d) => d@,
    }
}

impl SkillsError {
    /// The error's message.
    pub fn message(&self) -> (r: String)
        ensures
            r@ == skills_error_prefix(*self) + skills_error_detail(*self),
    {
        let (prefix, detail) = match self {
            SkillsError::NotFound(d) => ("技能不存在: ", d),
            SkillsError::VerificationFailed(d) => ("技能验证失败: ", d),
            SkillsError::ValidationFailed(d) => ("参数验证失败: ", d),
            SkillsError::ExecutionFailed(d) => ("技能执行失败: ", d),
            SkillsError::VersionConflict(d) => ("技能版本冲突: ", d),
            SkillsError::InvalidVersion(d) => ("无效版本号: ", d),
            SkillsError::DeviceIncompatible(d) => ("设备不兼容: ", d),
            SkillsError::Internal(d) => ("内部错误: ", d),
        };
        let mut m = string_of(prefix);
        m.append(detail.as_str());
        m
    }
}

/// Result type of the skills module.
pub type Result<T> = core::result::Result<T, SkillsError>;

} // verus!
