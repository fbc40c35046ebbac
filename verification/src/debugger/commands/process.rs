//! The `process` command.

use vstd::prelude::*;
use crate::debugger::commands::command::{Command, CommandResult};
use crate::debugger::commands::debugger::RunResult;

verus! {

pub struct ProcessCommand {}

impl ProcessCommand {
    pub fn new() -> Self {
        Self {}
    }
}

impl Command for ProcessCommand {
    fn name(&self) -> (r: &'static str)
        ensures
            r@ == "process"@,
    {
        "process"
    }

    fn description(&self) -> (r: &'static str)
        ensures
            r@ == "Commands for interacting with processes."@,
    {
        "Commands for interacting with processes."
    }
}

/// The options of `process`.
#[derive(Clone, Debug)]
pub enum ProcessOpts {
    Continue,
    /// Starts the entry point `start`, or the default one, with WASI arguments.
    Launch { start: Option<String>, args: Vec<String> },
}

/// What a run means to the command loop: a finished process ends it with
/// its values; anything else goes on.
pub fn command_result(result: RunResult) -> (r: Option<CommandResult>)
    ensures
        match result {
            RunResult::Finish(v) => r matches Some(CommandResult::ProcessFinish(w)) && w == v,
            _ => r is None,
        },
{
    match result {
        RunResult::Finish(v) => Some(CommandResult::ProcessFinish(v)),
        _ => None,
    }
}

} // verus!
