//! `bt`: short for `thread backtrace`.

use vstd::prelude::*;
use crate::debugger::commands::command::AliasCommand;

verus! {

pub struct BacktraceCommand {}

impl BacktraceCommand {
    pub fn new() -> Self {
        Self {}
    }
}

impl AliasCommand for BacktraceCommand {
    fn name(&self) -> (r: &'static str)
        ensures
            r@ == "bt"@,
    {
        "bt"
    }

    fn run(&self, args: Vec<&str>) -> (r: String)
        ensures
            r@ == "thread backtrace"@,
    {
        "thread backtrace".to_owned()
    }
}

} // verus!
