//! The `process` command.

use vstd::prelude::*;
use crate::cli::commands::command::Command;

verus! {

pub struct ProcessCommand {}

impl ProcessCommand {
    pub fn new() -> Self {
        Self {}
    }
}

impl Command for ProcessCommand {
    fn name(&self) -> (r: &'static str)
        ensures
            r@ == "process"@,
    {
        "process"
    }

    fn description(&self) -> (r: &'static str)
        ensures
            r@ == "Commands for interacting with processes."@,
    {
        "Commands for interacting with processes."
    }
}

} // verus!
