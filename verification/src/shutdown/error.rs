//! Errors of the shutdown module.

use vstd::prelude::*;
use crate::text::string_of;

verus! {

/// Errors of the shutdown module.
#[derive(Debug)]
pub enum Error {
    /// Bad configuration.
    Config(String),
    /// The shutdown failed.
    Shutdown(String),
    /// The shutdown ran out of time.
    Timeout(String),
    /// Waiting for the tasks failed.
    TaskWaitFailed(String),
    /// Cleaning up failed.
    CleanupFailed(String),
    /// Handling a signal failed.
    SignalError(String),
    /// Something went wrong inside.
    Internal(String),
}

/// The text before the detail in each error's message.
pub open spec fn error_prefix(e: Error) -> Seq<char> {
    match e {
        Error::Config(_) => "配置错误: "@,
        Error::Shutdown(_) => "关闭错误: "@,
        Error::Timeout(_) => "关闭超时: "@,
        Error::TaskWaitFailed(_) => "任务等待失败: "@,
        Error::CleanupFailed(_) => "资源清理失败: "@,
        Error::SignalError(_) => "信号处理失败: "@,
        Error::Internal(_) => "内部错误: "@,
    }
}

/// The detail an error carries.
pub open spec fn error_detail(e: Error) -> Seq<char> {
    match e {
        Error::Config(d) => d@,
        Error::Shutdown(d) => d@,
        Error::Timeout(d) => d@,
        Error::TaskWaitFailed(d) => d@,
        Error::CleanupFailed(d) => d@,
        Error::SignalError(d) => d@,
        Error::Internal(d) => d@,
    }
}

impl Error {
    /// The error's message.
    pub fn message(&self) -> (r: String)
        ensures
            r@ == error_prefix(*self) + error_detail(*self),
    {
        let (prefix, detail) = match self {
            Error::Config(d) => ("配置错误: ", d),
            Error::Shutdown(d) => ("关闭错误: ", d),
            Error::Timeout(d) => ("关闭超时: ", d),
            Error::TaskWaitFailed(d) => ("任务等待失败: ", d),
            Error::CleanupFailed(d) => ("资源清理失败: ", d),
            Error::SignalError(d) => ("信号处理失败: ", d),
            Error::Internal(d) => ("内部错误: ", d),
        };
        let mut m = string_of(prefix);
        m.append(detail.as_str());
        m
    }
}

/// Result type of the shutdown module.
pub type Result<T> = core::result::Result<T, Error>;

} // verus!
