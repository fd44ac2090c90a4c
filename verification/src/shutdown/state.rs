//! The shutdown state of the whole runtime.

use vstd::prelude::*;
use crate::clock::instant_now;
use crate::shutdown::config::ShutdownConfig;
use crate::shutdown::error::Result;
use crate::text::{has_prefix, string_of};

verus! {

/// Where the runtime is in its shutdown.
#[derive(Debug, Clone, Copy, PartialEq, Eq, Structural)]
pub enum ShutdownState {
    /// Running.
    Running,
    /// Shutting down.
    ShuttingDown,
    /// Shut down.
    Shutdown,
    /// The shutdown failed.
    Failed,
}

/// How `Debug` prints a state.
pub open spec fn state_debug(s: ShutdownState) -> Seq<char> {
    match s {
        ShutdownState::Running => "Running"@,
        ShutdownState::ShuttingDown => "ShuttingDown"@,
        ShutdownState::Shutdown => "Shutdown"@,
        ShutdownState::Failed => "Failed"@,
    }
}

fn state_debug_text(s: ShutdownState) -> (r: &'static str)
    ensures
        r@ == state_debug(s),
{
    match s {
        ShutdownState::Running => "Running",
        ShutdownState::ShuttingDown => "ShuttingDown",
        ShutdownState::Shutdown => "Shutdown",
        ShutdownState::Failed => "Failed",
    }
}

/// Formats the time since `start` with `Debug`, as
/// `format!("{:?}", start.elapsed())` writes it. The value depends on the
/// machine; nothing is stated about the text.
#[verifier::external_body]
fn elapsed_debug(start: &std::time::Instant) -> String {
    format!("{:?}", start.elapsed())
}

/// The runtime's shutdown.
#[derive(Debug)]
pub struct Shutdown {
    config: ShutdownConfig,
    state: ShutdownState,
    start_time: Option<std::time::Instant>,
}

impl Shutdown {
    /// The configuration.
    pub closed spec fn cfg(&self) -> ShutdownConfig {
        self.config
    }

    /// The state.
    pub closed spec fn current(&self) -> ShutdownState {
        self.state
    }

    /// Whether a shutdown began.
    pub closed spec fn started(&self) -> bool {
        self.start_time is Some
    }

    /// A running runtime.
    pub fn new(config: ShutdownConfig) -> (r: Self)
        ensures
            r.cfg() == config,
            r.current() == ShutdownState::Running,
            !r.started(),
    {
        Shutdown { config, state: ShutdownState::Running, start_time: None }
    }

    /// The state.
    pub fn state(&self) -> (r: ShutdownState)
        ensures
            r == self.current(),
    {
        self.state
    }

    /// Whether the runtime is shutting down.
    pub fn is_shutting_down(&self) -> (r: bool)
        ensures
            r == (self.current() == ShutdownState::ShuttingDown),
    {
        self.state == ShutdownState::ShuttingDown
    }

    /// Whether the runtime is shut down.
    pub fn is_shutdown(&self) -> (r: bool)
        ensures
            r == (self.current() == ShutdownState::Shutdown),
    {
        self.state == ShutdownState::Shutdown
    }

    /// Shuts the runtime down; doing it again changes nothing.
    pub fn shutdown(&mut self) -> (r: Result<()>)
        ensures
            r is Ok,
            final(self).current() == ShutdownState::Shutdown,
            final(self).cfg() == old(self).cfg(),
            old(self).current() == ShutdownState::Shutdown ==> final(self).started() == old(
                self,
            ).started(),
            old(self).current() != ShutdownState::Shutdown ==> final(self).started(),
    {
        if self.state == ShutdownState::Shutdown {
            return Ok(());
        }
        self.state = ShutdownState::ShuttingDown;
        self.start_time = Some(instant_now());
        self.state = ShutdownState::Shutdown;
        Ok(())
    }

    /// The shutdown report: its state, and the time since the shutdown
    /// began when one did.
    pub fn generate_report(&self) -> (r: String)
        ensures
            has_prefix(r@, "=== Shutdown Report ===\nState: "@ + state_debug(self.current()) + "\n"@),
            !self.started() ==> r@ == "=== Shutdown Report ===\nState: "@ + state_debug(
                self.current(),
            ) + "\n"@,
    {
        let mut report = string_of("=== Shutdown Report ===\nState: ");
        report.append(state_debug_text(self.state));
        report.append("\n");
        let ghost head = report@;
        match &self.start_time {
            Some(start) => {
                report.append("Shutdown time: ");
                let t = elapsed_debug(start);
                report.append(t.as_str());
                report.append("\n");
            },
            None => {},
        }
        assert(report@.subrange(0, head.len() as int) =~= head);
        report
    }
}

impl Default for Shutdown {
    fn default() -> (r: Self)
        ensures
            r.cfg() == ShutdownConfig::defaults(),
            r.current() == ShutdownState::Running,
            !r.started(),
    {
        Self::new(ShutdownConfig::default())
    }
}

} // verus!
