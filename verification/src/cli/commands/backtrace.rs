//! The `bt` command.

use vstd::prelude::*;
use crate::cli::commands::command::Command;

verus! {

pub struct BacktraceCommand {}

impl BacktraceCommand {
    pub fn new() -> Self {
        Self {}
    }
}

impl Command for BacktraceCommand {
    fn name(&self) -> (r: &'static str)
        ensures
            r@ == "bt"@,
    {
        "bt"
    }

    fn description(&self) -> (r: &'static str)
        ensures
            r@ == "No description yet"@,
    {
        "No description yet"
    }
}

} // verus!
