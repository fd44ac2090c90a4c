//! Building blocks of the FOS runtime: rate limiting and circuit breaking,
//! plugin permissions and resource limits, sandbox validation and isolation
//! rules, cron scheduling, graceful shutdown, skill versioning and device
//! adaptation, rollback bookkeeping and security findings.

pub mod clock;
pub mod ids;
pub mod json;
pub mod paths;
pub mod ratelimiter;
pub mod rollback;
pub mod text;
pub mod schedule;
pub mod security;
pub mod plugin;
pub mod sandbox;
pub mod shutdown;
pub mod skills;
pub mod stability;
pub mod strmap;
