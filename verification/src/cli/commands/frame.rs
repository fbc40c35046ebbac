//! The `frame` command.

use vstd::prelude::*;
use crate::cli::commands::command::Command;

verus! {

pub struct FrameCommand {}

impl FrameCommand {
    pub fn new() -> Self {
        Self {}
    }
}

impl Command for FrameCommand {
    fn name(&self) -> (r: &'static str)
        ensures
            r@ == "frame"@,
    {
        "frame"
    }

    fn description(&self) -> (r: &'static str)
        ensures
            r@ == "Commands for selecting current stack frame."@,
    {
        "Commands for selecting current stack frame."
    }
}

} // verus!
