//! A sandbox instance and the executor that runs steps in it.

use vstd::prelude::*;
use crate::sandbox::config::{SandboxConfig, SandboxStatus};
use crate::sandbox::error::Result;
use crate::text::string_of;

verus! {

/// The output of running `command` in a sandbox.
pub open spec fn execution_output(command: Seq<char>) -> Seq<char> {
    "沙箱执行成功: "@ + command
}

/// A sandbox.
#[derive(Debug)]
pub struct Sandbox {
    config: SandboxConfig,
    status: SandboxStatus,
    result: Option<String>,
}

impl Sandbox {
    /// The configuration.
    pub closed spec fn cfg(&self) -> SandboxConfig {
        self.config
    }

    /// The state.
    pub closed spec fn state(&self) -> SandboxStatus {
        self.status
    }

    /// The output of the last command, if any.
    pub closed spec fn last_output(&self) -> Option<Seq<char>> {
        match self.result {
            Some(s) => Some(s@),
            None => None,
        }
    }

    /// An idle sandbox that has run nothing.
    pub fn new(config: SandboxConfig) -> (r: Self)
        ensures
            r.cfg() == config,
            r.state() == SandboxStatus::Idle,
            r.last_output() is None,
    {
        Sandbox { config, status: SandboxStatus::Idle, result: None }
    }

    /// Starts the sandbox.
    pub fn start(&mut self) -> (r: Result<()>)
        ensures
            r is Ok,
            final(self).state() == SandboxStatus::Running,
            final(self).cfg() == old(self).cfg(),
            final(self).last_output() == old(self).last_output(),
    {
        self.status = SandboxStatus::Running;
        Ok(())
    }

    /// Runs `command` and returns its output, which is also kept.
    pub fn execute(&mut self, command: &str) -> (r: Result<String>)
        ensures
            r matches Ok(out) && out@ == execution_output(command@),
            final(self).last_output() == Some(execution_output(command@)),
            final(self).state() == old(self).state(),
            final(self).cfg() == old(self).cfg(),
    {
        let mut output = string_of("沙箱执行成功: ");
        output.append(command);
        self.result = Some(output.clone());
        Ok(output)
    }

    /// Stops the sandbox; it ends in `Success`.
    pub fn stop(&mut self) -> (r: Result<()>)
        ensures
            r is Ok,
            final(self).state() == SandboxStatus::Success,
            final(self).cfg() == old(self).cfg(),
            final(self).last_output() == old(self).last_output(),
    {
        self.status = SandboxStatus::Success;
        Ok(())
    }

    /// Destroys the sandbox.
    pub fn destroy(&mut self) -> (r: Result<()>)
        ensures
            r is Ok,
            final(self).state() == SandboxStatus::Destroyed,
            final(self).cfg() == old(self).cfg(),
            final(self).last_output() == old(self).last_output(),
    {
        self.status = SandboxStatus::Destroyed;
        Ok(())
    }

    /// The state.
    pub fn status(&self) -> (r: SandboxStatus)
        ensures
            r == self.state(),
    {
        self.status
    }
}

/// Runs a list of steps in a sandbox.
#[derive(Debug)]
pub struct SandboxExecutor {
    sandbox: Sandbox,
}

impl SandboxExecutor {
    /// The sandbox the steps run in.
    pub closed spec fn inner(&self) -> Sandbox {
        self.sandbox
    }

    /// An executor over `sandbox`.
    pub fn new(sandbox: Sandbox) -> (r: Self)
        ensures
            r.inner() == sandbox,
    {
        SandboxExecutor { sandbox }
    }

    /// Runs each step in order and returns the outputs.
    pub fn execute(&mut self, steps: Vec<String>) -> (r: Result<Vec<String>>)
        ensures
            r matches Ok(outs) && outs@.len() == steps@.len() && forall|i: int|
                0 <= i < steps@.len() ==> (#[trigger] outs@[i])@ == execution_output(steps@[i]@),
            final(self).inner().state() == old(self).inner().state(),
            final(self).inner().cfg() == old(self).inner().cfg(),
    {
        let mut results: Vec<String> = Vec::new();
        let mut i: usize = 0;
        while i < steps.len()
            invariant
                i <= steps@.len(),
                results@.len() == i,
                forall|k: int| 0 <= k < i ==> (#[trigger] results@[k])@ == execution_output(steps@[k]@),
                self.sandbox.state() == old(self).sandbox.state(),
                self.sandbox.cfg() == old(self).sandbox.cfg(),
            decreases steps.len() - i,
        {
            let out = self.sandbox.execute(steps[i].as_str())?;
            results.push(out);
            i = i + 1;
        }
        Ok(results)
    }
}

} // verus!
