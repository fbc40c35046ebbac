//! The `run` command.

use vstd::prelude::*;
use crate::cli::commands::command::Command;

verus! {

pub struct RunCommand {}

impl RunCommand {
    pub fn new() -> Self {
        Self {}
    }
}

impl Command for RunCommand {
    fn name(&self) -> (r: &'static str)
        ensures
            r@ == "run"@,
    {
        "run"
    }

    fn description(&self) -> (r: &'static str)
        ensures
            r@ == "No description yet"@,
    {
        "No description yet"
    }
}

} // verus!
