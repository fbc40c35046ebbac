//! `run`: short for `process launch`.

use vstd::prelude::*;
use crate::debugger::commands::command::AliasCommand;

verus! {

pub struct RunCommand {}

impl RunCommand {
    pub fn new() -> Self {
        Self {}
    }
}

impl AliasCommand for RunCommand {
    fn name(&self) -> (r: &'static str)
        ensures
            r@ == "run"@,
    {
        "run"
    }

    fn run(&self, args: Vec<&str>) -> (r: String)
        ensures
            r@ == "process launch"@,
    {
        "process launch".to_owned()
    }
}

} // verus!
