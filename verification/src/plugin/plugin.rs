//! Core plugin types: metadata, kind, state and per-plugin statistics.

use vstd::prelude::*;
use std::collections::HashMap;
use crate::clock::wall_clock_millis;

verus! {

/// Kind of a plugin.
#[derive(Debug, Clone, Copy, PartialEq, Eq, Structural)]
pub enum PluginType {
    /// Storage plugin.
    Storage,
    /// Monitoring plugin.
    Monitor,
    /// Notification plugin.
    Notifier,
    /// Any other plugin.
    Custom,
}

/// Lifecycle state of a plugin.
#[derive(Debug, Clone, Copy, PartialEq, Eq, Structural)]
pub enum PluginState {
    /// Not loaded.
    Unloaded,
    /// Loaded.
    Loaded,
    /// Initialized.
    Initialized,
    /// Running.
    Running,
    /// Paused.
    Paused,
    /// Failed.
    Error,
}

/// The name of a state as `Debug` prints it.
pub open spec fn state_name_spec(s: PluginState) -> Seq<char> {
    match s {
        PluginState::Unloaded => "Unloaded"@,
        PluginState::Loaded => "Loaded"@,
        PluginState::Initialized => "Initialized"@,
        PluginState::Running => "Running"@,
        PluginState::Paused => "Paused"@,
        PluginState::Error => "Error"@,
    }
}

/// The name of a state as `Debug` prints it.
pub fn state_name(s: PluginState) -> (r: &'static str)
    ensures
        r@ == state_name_spec(s),
{
    match s {
        PluginState::Unloaded => "Unloaded",
        PluginState::Loaded => "Loaded",
        PluginState::Initialized => "Initialized",
        PluginState::Running => "Running",
        PluginState::Paused => "Paused",
        PluginState::Error => "Error",
    }
}

/// Description of a plugin.
#[derive(Debug, Clone, PartialEq)]
pub struct PluginMetadata {
    /// Unique identifier.
    pub id: String,
    /// Display name.
    pub name: String,
    /// Version.
    pub version: String,
    /// Description.
    pub description: String,
    /// Author, if known.
    pub author: Option<String>,
    /// Kind of plugin.
    pub plugin_type: PluginType,
    /// Oldest runtime version the plugin works with.
    pub min_fos_version: Option<String>,
    /// Identifiers of the plugins it depends on.
    pub dependencies: Vec<String>,
    /// Free-form settings.
    pub custom_config: HashMap<String, String>,
}

/// Statistics of one plugin.
#[derive(Debug, Clone, Copy, PartialEq, Eq, Structural)]
pub struct PluginStats {
    /// Load time in milliseconds.
    pub load_time_ms: u64,
    /// Initialization time in milliseconds.
    pub init_time_ms: u64,
    /// Number of executions.
    pub execution_count: u64,
    /// Time of the last execution, in milliseconds since the epoch.
    pub last_execution_time: Option<i64>,
    /// Number of errors.
    pub error_count: u64,
}

impl PluginStats {
    /// Statistics of a plugin that has done nothing yet.
    pub open spec fn zero() -> PluginStats {
        PluginStats {
            load_time_ms: 0,
            init_time_ms: 0,
            execution_count: 0,
            last_execution_time: None,
            error_count: 0,
        }
    }
}

impl Default for PluginStats {
    fn default() -> (r: Self)
        ensures
            r == PluginStats::zero(),
    {
        PluginStats {
            load_time_ms: 0,
            init_time_ms: 0,
            execution_count: 0,
            last_execution_time: None,
            error_count: 0,
        }
    }
}

/// State and statistics of one plugin.
#[derive(Debug, Clone, PartialEq)]
pub struct PluginStatus {
    /// Identifier of the plugin.
    pub plugin_id: String,
    /// Current state.
    pub state: PluginState,
    /// Time of the last change, in milliseconds since the epoch.
    pub last_updated: i64,
    /// Message of the last error, if any.
    pub error_message: Option<String>,
    /// Statistics.
    pub stats: PluginStats,
}

impl PluginStatus {
    /// A status for `plugin_id` in state `Unloaded`, stamped `now_ms`.
    pub fn new_at(plugin_id: String, now_ms: i64) -> (r: Self)
        ensures
            r.plugin_id@ == plugin_id@,
            r.state == PluginState::Unloaded,
            r.last_updated == now_ms,
            r.error_message is None,
            r.stats == PluginStats::zero(),
    {
        PluginStatus {
            plugin_id,
            state: PluginState::Unloaded,
            last_updated: now_ms,
            error_message: None,
            stats: PluginStats::default(),
        }
    }

    /// A status for `plugin_id` in state `Unloaded`, stamped with the wall clock.
    pub fn new(plugin_id: String) -> (r: Self)
        ensures
            r.plugin_id@ == plugin_id@,
            r.state == PluginState::Unloaded,
            r.error_message is None,
            r.stats == PluginStats::zero(),
    {
        let now = wall_clock_millis();
        Self::new_at(plugin_id, now)
    }

    /// Moves to `state` at time `now_ms`.
    pub fn update_state_at(&mut self, state: PluginState, now_ms: i64)
        ensures
            final(self).state == state,
            final(self).last_updated == now_ms,
            final(self).plugin_id == old(self).plugin_id,
            final(self).error_message == old(self).error_message,
            final(self).stats == old(self).stats,
    {
        self.state = state;
        self.last_updated = now_ms;
    }

    /// Moves to `state`, stamped with the wall clock.
    pub fn update_state(&mut self, state: PluginState)
        ensures
            final(self).state == state,
            final(self).plugin_id == old(self).plugin_id,
            final(self).error_message == old(self).error_message,
            final(self).stats == old(self).stats,
    {
        let now = wall_clock_millis();
        self.update_state_at(state, now);
    }

    /// Records an error at time `now_ms`: the plugin moves to `Error`, the
    /// message is kept and the error count grows by one.
    pub fn record_error_at(&mut self, error: String, now_ms: i64)
        requires
            old(self).stats.error_count < u64::MAX,
        ensures
            final(self).state == PluginState::Error,
            final(self).error_message == Some(error),
            final(self).stats == (PluginStats {
                error_count: (old(self).stats.error_count + 1) as u64,
                ..old(self).stats
            }),
            final(self).last_updated == now_ms,
            final(self).plugin_id == old(self).plugin_id,
    {
        self.error_message = Some(error);
        self.state = PluginState::Error;
        self.stats.error_count = self.stats.error_count + 1;
        self.last_updated = now_ms;
    }

    /// Records an error, stamped with the wall clock.
    pub fn record_error(&mut self, error: String)
        requires
            old(self).stats.error_count < u64::MAX,
        ensures
            final(self).state == PluginState::Error,
            final(self).error_message == Some(error),
            final(self).stats == (PluginStats {
                error_count: (old(self).stats.error_count + 1) as u64,
                ..old(self).stats
            }),
            final(self).plugin_id == old(self).plugin_id,
    {
        let now = wall_clock_millis();
        self.record_error_at(error, now);
    }

    /// Records an execution at time `now_ms`.
    pub fn record_execution_at(&mut self, now_ms: i64)
        requires
            old(self).stats.execution_count < u64::MAX,
        ensures
            final(self).stats == (PluginStats {
                execution_count: (old(self).stats.execution_count + 1) as u64,
                last_execution_time: Some(now_ms),
                ..old(self).stats
            }),
            final(self).last_updated == now_ms,
            final(self).state == old(self).state,
            final(self).plugin_id == old(self).plugin_id,
            final(self).error_message == old(self).error_message,
    {
        self.stats.execution_count = self.stats.execution_count + 1;
        self.stats.last_execution_time = Some(now_ms);
        self.last_updated = now_ms;
    }

    /// Records an execution, stamped with the wall clock.
    pub fn record_execution(&mut self)
        requires
            old(self).stats.execution_count < u64::MAX,
        ensures
            final(self).stats.execution_count == old(self).stats.execution_count + 1,
            final(self).stats.last_execution_time is Some,
            final(self).stats.load_time_ms == old(self).stats.load_time_ms,
            final(self).stats.init_time_ms == old(self).stats.init_time_ms,
            final(self).stats.error_count == old(self).stats.error_count,
            final(self).state == old(self).state,
            final(self).plugin_id == old(self).plugin_id,
            final(self).error_message == old(self).error_message,
    {
        let exec_time = wall_clock_millis();
        self.stats.execution_count = self.stats.execution_count + 1;
        self.stats.last_execution_time = Some(exec_time);
        self.last_updated = wall_clock_millis();
    }
}

} // verus!
