//! The `thread` command.

use vstd::prelude::*;
use crate::cli::commands::command::Command;

verus! {

pub struct ThreadCommand {}

impl ThreadCommand {
    pub fn new() -> Self {
        Self {}
    }
}

impl Command for ThreadCommand {
    fn name(&self) -> (r: &'static str)
        ensures
            r@ == "thread"@,
    {
        "thread"
    }

    fn description(&self) -> (r: &'static str)
        ensures
            r@ == "No description yet"@,
    {
        "No description yet"
    }
}

} // verus!
