//! Scheduling: cron expressions and job bookkeeping.

pub mod config;
pub mod cron;
pub mod delayed_queue;
pub mod error;
pub mod job;

pub use config::Config;
pub use cron::{CronError, CronExpression};
pub use error::{Error, Result};
pub use job::{Job, JobResult, JobStats, JobStatus};
pub use delayed_queue::{DelayedJob, DelayedJobStatus, DelayedQueue};
