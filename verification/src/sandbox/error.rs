//! Errors of the sandbox.

use vstd::prelude::*;
use crate::text::string_of;

verus! {

/// Errors of the sandbox.
#[derive(Debug)]
pub enum SandboxError {
    /// A sandbox could not be created.
    CreationFailed(String),
    /// A command failed inside the sandbox.
    ExecutionFailed(String),
    /// A sandbox ran out of time.
    Timeout(String),
    /// A resource limit was exceeded.
    ResourceLimitExceeded(String),
    /// Isolation could not be set up.
    IsolationFailed(String),
    /// A rollback failed.
    RollbackFailed(String),
    /// A snapshot operation failed.
    Snapshot(String),
    /// Something went wrong inside.
    Internal(String),
}

/// The text before the detail in each error's message.
pub open spec fn sandbox_error_prefix(e: SandboxError) -> Seq<char> {
    match e {
        SandboxError::CreationFailed(_) => "沙箱创建失败: "@,
        SandboxError::ExecutionFailed(_) => "沙箱执行失败: "@,
        SandboxError::Timeout(_) => "沙箱超时: "@,
        SandboxError::ResourceLimitExceeded(_) => "资源限制超限: "@,
        SandboxError::IsolationFailed(_) => "隔离失败: "@,
        SandboxError::RollbackFailed(_) => "回滚失败: "@,
        SandboxError::Snapshot(_) => "快照错误: "@,
        SandboxError::Internal(_) => "内部错误: "@,
    }
}

/// The detail an error carries.
pub open spec fn sandbox_error_detail(e: SandboxError) -> Seq<char> {
    match e {
        SandboxError::CreationFailed(d) => d@,
        SandboxError::ExecutionFailed(d) => d@,
        SandboxError::Timeout(d) => d@,
        SandboxError::ResourceLimitExceeded(d) => d@,
        SandboxError::IsolationFailed(d) => d@,
        SandboxError::RollbackFailed(d) => d@,
        SandboxError::Snapshot(d) => d@,
        SandboxError::Internal(d) => d@,
    }
}

impl SandboxError {
    /// The error's message.
    pub fn message(&self) -> (r: String)
        ensures
            r@ == sandbox_error_prefix(*self) + sandbox_error_detail(*self),
    {
        let (prefix, detail) = match self {
            SandboxError::CreationFailed(d) => ("沙箱创建失败: ", d),
            SandboxError::ExecutionFailed(d) => ("沙箱执行失败: ", d),
            SandboxError::Timeout(d) => ("沙箱超时: ", d),
            SandboxError::ResourceLimitExceeded(d) => ("资源限制超限: ", d),
            SandboxError::IsolationFailed(d) => ("隔离失败: ", d),
            SandboxError::RollbackFailed(d) => ("回滚失败: ", d),
            SandboxError::Snapshot(d) => ("快照错误: ", d),
            SandboxError::Internal(d) => ("内部错误: ", d),
        };
        let mut m = string_of(prefix);
        m.append(detail.as_str());
        m
    }
}

/// Result type of the sandbox.
pub type Result<T> = core::result::Result<T, SandboxError>;

} // verus!
