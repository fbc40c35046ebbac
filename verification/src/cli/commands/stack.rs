//! The `stack` command.

use vstd::prelude::*;
use crate::cli::commands::command::Command;

verus! {

pub struct StackCommand {}

impl StackCommand {
    pub fn new() -> Self {
        Self {}
    }
}

impl Command for StackCommand {
    fn name(&self) -> (r: &'static str)
        ensures
            r@ == "stack"@,
    {
        "stack"
    }

    fn description(&self) -> (r: &'static str)
        ensures
            r@ == "No description yet"@,
    {
        "No description yet"
    }
}

} // verus!
