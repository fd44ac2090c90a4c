//! The shutdown signal: whether one was received, and which.

use vstd::prelude::*;

verus! {

/// A signal that asks for a shutdown.
#[derive(Debug, Clone, Copy, PartialEq, Eq, Structural)]
pub enum ShutdownSignal {
    /// SIGINT (Ctrl+C).
    Interrupt,
    /// SIGTERM.
    Terminate,
    /// SIGQUIT.
    Quit,
    /// Asked for by the program.
    Custom,
}

/// Remembers the shutdown signal.
#[derive(Debug)]
pub struct SignalHandler {
    received: bool,
    signal_type: Option<ShutdownSignal>,
}

impl SignalHandler {
    /// Whether a signal was received.
    pub closed spec fn requested(&self) -> bool {
        self.received
    }

    /// The signal received, if any.
    pub closed spec fn signal(&self) -> Option<ShutdownSignal> {
        self.signal_type
    }

    /// A handler that has received nothing.
    pub fn new() -> (r: Self)
        ensures
            !r.requested(),
            r.signal() is None,
    {
        SignalHandler { received: false, signal_type: None }
    }

    /// Whether a shutdown was asked for.
    pub fn is_shutdown_requested(&self) -> (r: bool)
        ensures
            r == self.requested(),
    {
        self.received
    }

    /// The signal received, if any.
    pub fn get_signal(&self) -> (r: Option<ShutdownSignal>)
        ensures
            r == self.signal(),
    {
        self.signal_type
    }

    /// Records that `signal` was received.
    pub fn receive_signal(&mut self, signal: ShutdownSignal)
        ensures
            final(self).requested(),
            final(self).signal() == Some(signal),
    {
        self.received = true;
        self.signal_type = Some(signal);
    }

    /// Forgets the signal.
    pub fn reset(&mut self)
        ensures
            !final(self).requested(),
            final(self).signal() is None,
    {
        self.received = false;
        self.signal_type = None;
    }

    /// One look while waiting for a signal: the signal received, `Custom`
    /// when none was named, or `None` to keep waiting.
    pub fn poll_signal(&self) -> (r: Option<ShutdownSignal>)
        ensures
            r is Some <==> self.requested(),
            r is Some ==> r == Some(
                match self.signal() {
                    Some(s) => s,
                    None => ShutdownSignal::Custom,
                },
            ),
    {
        if self.is_shutdown_requested() {
            return Some(
                match self.get_signal() {
                    Some(s) => s,
                    None => ShutdownSignal::Custom,
                },
            );
        }
        None
    }
}

impl Default for SignalHandler {
    fn default() -> (r: Self)
        ensures
            !r.requested(),
            r.signal() is None,
    {
        Self::new()
    }
}

} // verus!
