//! The shutdown coordinator: stops connections, waits for tasks, cleans up,
//! and reports.

use vstd::prelude::*;
use crate::clock::{instant_now, millis_since};
use crate::shutdown::cleaner::{is_cleanup_order, names_in_order, priorities, ResourceCleaner};
use crate::shutdown::config::ShutdownConfig;
use crate::shutdown::error::Result;
use crate::shutdown::signal::{ShutdownSignal, SignalHandler};
use crate::shutdown::waiter::TaskWaiter;
use crate::text::{decimal, decimal_string, string_of};

verus! {

/// A phase of the shutdown.
#[derive(Debug, Clone, Copy, PartialEq, Eq, Structural)]
pub enum ShutdownPhase {
    /// New connections are refused.
    StopConnections,
    /// Running tasks are waited for.
    WaitForTasks,
    /// Resources are cleaned up.
    Cleanup,
    /// Finished.
    Done,
}

/// Progress of a shutdown.
#[derive(Debug, Clone, Copy)]
pub struct ShutdownStats {
    /// When it began.
    pub start_time: std::time::Instant,
    /// The phase it is in.
    pub current_phase: ShutdownPhase,
    /// How many phases were entered.
    pub completed_phases: u8,
}

impl ShutdownStats {
    /// Progress of a shutdown beginning now.
    pub fn new() -> (r: Self)
        ensures
            r.current_phase == ShutdownPhase::StopConnections,
            r.completed_phases == 0,
    {
        ShutdownStats {
            start_time: instant_now(),
            current_phase: ShutdownPhase::StopConnections,
            completed_phases: 0,
        }
    }

    /// Milliseconds since the shutdown began.
    pub fn elapsed_ms(&self) -> (r: u64) {
        millis_since(&self.start_time)
    }
}

impl Default for ShutdownStats {
    fn default() -> (r: Self)
        ensures
            r.current_phase == ShutdownPhase::StopConnections,
            r.completed_phases == 0,
    {
        Self::new()
    }
}

/// How `Debug` prints an optional signal.
pub open spec fn signal_debug(s: Option<ShutdownSignal>) -> Seq<char> {
    match s {
        None => "None"@,
        Some(ShutdownSignal::Interrupt) => "Some(Interrupt)"@,
        Some(ShutdownSignal::Terminate) => "Some(Terminate)"@,
        Some(ShutdownSignal::Quit) => "Some(Quit)"@,
        Some(ShutdownSignal::Custom) => "Some(Custom)"@,
    }
}

fn signal_debug_text(s: Option<ShutdownSignal>) -> (r: &'static str)
    ensures
        r@ == signal_debug(s),
{
    match s {
        None => "None",
        Some(ShutdownSignal::Interrupt) => "Some(Interrupt)",
        Some(ShutdownSignal::Terminate) => "Some(Terminate)",
        Some(ShutdownSignal::Quit) => "Some(Quit)",
        Some(ShutdownSignal::Custom) => "Some(Custom)",
    }
}

/// How `Display` prints a `bool`.
pub open spec fn bool_text(b: bool) -> Seq<char> {
    if b {
        "true"@
    } else {
        "false"@
    }
}

/// The shutdown report.
pub open spec fn report_text(
    signal: Option<ShutdownSignal>,
    running: nat,
    cleaned: bool,
    elapsed_ms: nat,
) -> Seq<char> {
    "=== 关闭报告 ===\n信号: "@ + signal_debug(signal) + "\n运行任务数: "@ + decimal(running)
        + "\n已清理: "@ + bool_text(cleaned) + "\n运行时间: "@ + decimal(elapsed_ms) + "ms\n"@
}

/// Runs the shutdown in phases and reports on it.
pub struct ShutdownCoordinator {
    config: ShutdownConfig,
    signal_handler: SignalHandler,
    task_waiter: TaskWaiter,
    resource_cleaner: ResourceCleaner,
    stats: Option<ShutdownStats>,
}

impl ShutdownCoordinator {
    /// The configuration.
    pub closed spec fn cfg(&self) -> ShutdownConfig {
        self.config
    }

    /// The signal handler.
    pub closed spec fn signals(&self) -> SignalHandler {
        self.signal_handler
    }

    /// The task waiter.
    pub closed spec fn waiter(&self) -> TaskWaiter {
        self.task_waiter
    }

    /// The resource cleaner.
    pub closed spec fn cleaner(&self) -> ResourceCleaner {
        self.resource_cleaner
    }

    /// The progress of the last shutdown, if one ran.
    pub closed spec fn progress(&self) -> Option<ShutdownStats> {
        self.stats
    }

    /// The coordinator's invariant: its parts keep theirs.
    pub open spec fn wf(&self) -> bool {
        self.waiter().wf() && self.cleaner().wf()
    }

    /// A coordinator with the default configuration.
    pub fn new() -> (r: Self)
        ensures
            r.wf(),
            r.cfg() == ShutdownConfig::defaults(),
            !r.signals().requested(),
            r.waiter().count() == 0,
            r.cleaner().items().len() == 0,
            !r.cleaner().done(),
            r.progress() is None,
    {
        Self::with_config(ShutdownConfig::default())
    }

    /// A coordinator with `config`.
    pub fn with_config(config: ShutdownConfig) -> (r: Self)
        ensures
            r.wf(),
            r.cfg() == config,
            !r.signals().requested(),
            r.signals().signal() is None,
            r.waiter().count() == 0,
            r.waiter().tasks().len() == 0,
            r.cleaner().items().len() == 0,
            !r.cleaner().done(),
            r.progress() is None,
    {
        ShutdownCoordinator {
            config,
            signal_handler: SignalHandler::new(),
            task_waiter: TaskWaiter::new(),
            resource_cleaner: ResourceCleaner::new(),
            stats: None,
        }
    }

    /// The signal handler.
    pub fn signal_handler(&self) -> (r: &SignalHandler)
        ensures
            *r == self.signals(),
    {
        &self.signal_handler
    }

    /// The signal handler, to record a signal.
    pub fn signal_handler_mut(&mut self) -> (r: &mut SignalHandler)
        ensures
            *r == old(self).signals(),
            final(self).signals() == *final(r),
            final(self).waiter() == old(self).waiter(),
            final(self).cleaner() == old(self).cleaner(),
            final(self).cfg() == old(self).cfg(),
            final(self).progress() == old(self).progress(),
    {
        &mut self.signal_handler
    }

    /// The task waiter.
    pub fn task_waiter(&self) -> (r: &TaskWaiter)
        ensures
            *r == self.waiter(),
    {
        &self.task_waiter
    }

    /// The task waiter, to register and finish tasks.
    pub fn task_waiter_mut(&mut self) -> (r: &mut TaskWaiter)
        ensures
            *r == old(self).waiter(),
            final(self).waiter() == *final(r),
            final(self).signals() == old(self).signals(),
            final(self).cleaner() == old(self).cleaner(),
            final(self).cfg() == old(self).cfg(),
            final(self).progress() == old(self).progress(),
    {
        &mut self.task_waiter
    }

    /// The resource cleaner.
    pub fn resource_cleaner(&self) -> (r: &ResourceCleaner)
        ensures
            *r == self.cleaner(),
    {
        &self.resource_cleaner
    }

    /// The resource cleaner, to register cleanups.
    pub fn resource_cleaner_mut(&mut self) -> (r: &mut ResourceCleaner)
        ensures
            *r == old(self).cleaner(),
            final(self).cleaner() == *final(r),
            final(self).signals() == old(self).signals(),
            final(self).waiter() == old(self).waiter(),
            final(self).cfg() == old(self).cfg(),
            final(self).progress() == old(self).progress(),
    {
        &mut self.resource_cleaner
    }

    fn update_phase(&mut self, phase: ShutdownPhase)
        requires
            old(self).progress() matches Some(s) ==> s.completed_phases < 255,
        ensures
            final(self).progress() == match old(self).progress() {
                Some(s) => Some(
                    ShutdownStats {
                        current_phase: phase,
                        completed_phases: (s.completed_phases + 1) as u8,
                        ..s
                    },
                ),
                None => None,
            },
            final(self).signals() == old(self).signals(),
            final(self).waiter() == old(self).waiter(),
            final(self).cleaner() == old(self).cleaner(),
            final(self).cfg() == old(self).cfg(),
    {
        match self.stats.take() {
            Some(mut s) => {
                s.current_phase = phase;
                s.completed_phases = s.completed_phases + 1;
                self.stats = Some(s);
            },
            None => {},
        }
    }

    /// Runs the shutdown: refuses new connections, passes the task phase,
    /// and runs the cleanups. Waiting for running tasks is the caller's
    /// part: it polls `TaskWaiter::wait_poll` between the phases when it
    /// runs inside an async runtime.
    pub fn shutdown(&mut self) -> (r: Result<()>)
        requires
            old(self).wf(),
        ensures
            r is Ok,
            final(self).wf(),
            final(self).progress() matches Some(s) && s.current_phase == ShutdownPhase::Cleanup
                && s.completed_phases == 3,
            final(self).cleaner().done(),
            !old(self).cleaner().done() ==> final(self).cleaner().items().len() == 0,
            !old(self).cleaner().done() ==> exists|order: Seq<usize>|
                is_cleanup_order(priorities(old(self).cleaner().items()), order) && final(self).cleaner().history()
                    == old(self).cleaner().history() + #[trigger] names_in_order(old(self).cleaner().items(), order),
            old(self).cleaner().done() ==> final(self).cleaner().history() == old(self).cleaner().history(),
            final(self).signals() == old(self).signals(),
            final(self).waiter() == old(self).waiter(),
            final(self).cfg() == old(self).cfg(),
    {
        self.stats = Some(ShutdownStats::new());
        self.update_phase(ShutdownPhase::StopConnections);
        self.update_phase(ShutdownPhase::WaitForTasks);
        self.update_phase(ShutdownPhase::Cleanup);
        self.resource_cleaner.cleanup_all()
    }

    /// The shutdown report: the signal, the running tasks, whether the
    /// cleanup ran, and the time since the shutdown began (zero before one).
    pub fn report(&self) -> (r: String)
        ensures
            self.progress() is None ==> r@ == report_text(
                self.signals().signal(),
                self.waiter().count() as nat,
                self.cleaner().done(),
                0,
            ),
            exists|ms: nat|
                r@ == report_text(
                    self.signals().signal(),
                    self.waiter().count() as nat,
                    self.cleaner().done(),
                    ms,
                ),
    {
        let elapsed = match &self.stats {
            Some(s) => s.elapsed_ms(),
            None => 0,
        };
        let mut m = string_of("=== 关闭报告 ===\n信号: ");
        m.append(signal_debug_text(self.signal_handler.get_signal()));
        m.append("\n运行任务数: ");
        let n = decimal_string(self.task_waiter.running_count() as u64);
        m.append(n.as_str());
        m.append("\n已清理: ");
        m.append(if self.resource_cleaner.is_cleaned() { "true" } else { "false" });
        m.append("\n运行时间: ");
        let e = decimal_string(elapsed);
        m.append(e.as_str());
        m.append("ms\n");
        assert(m@ == report_text(
            self.signals().signal(),
            self.waiter().count() as nat,
            self.cleaner().done(),
            elapsed as nat,
        ));
        m
    }
}

impl Default for ShutdownCoordinator {
    fn default() -> (r: Self)
        ensures
            r.wf(),
            r.cfg() == ShutdownConfig::defaults(),
            r.progress() is None,
    {
        Self::new()
    }
}

} // verus!
