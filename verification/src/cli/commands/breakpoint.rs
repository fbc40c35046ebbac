//! The `breakpoint` command.

use vstd::prelude::*;
use crate::cli::commands::command::Command;

verus! {

pub struct BreakpointCommand {}

impl BreakpointCommand {
    pub fn new() -> Self {
        Self {}
    }
}

impl Command for BreakpointCommand {
    fn name(&self) -> (r: &'static str)
        ensures
            r@ == "breakpoint"@,
    {
        "breakpoint"
    }

    fn description(&self) -> (r: &'static str)
        ensures
            r@ == "No description yet"@,
    {
        "No description yet"
    }
}

} // verus!
