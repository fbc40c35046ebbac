//! The `breakpoint` command.

use vstd::prelude::*;
use crate::debugger::commands::command::Command;
use crate::debugger::commands::debugger::Breakpoint;
use crate::debugger::debugger::MainDebugger;

verus! {

pub struct BreakpointCommand {}

impl BreakpointCommand {
    pub fn new() -> Self {
        Self {}
    }
}

impl Command for BreakpointCommand {
    fn name(&self) -> (r: &'static str)
        ensures
            r@ == "breakpoint"@,
    {
        "breakpoint"
    }

    fn description(&self) -> (r: &'static str)
        ensures
            r@ == "Commands for operating on breakpoints."@,
    {
        "Commands for operating on breakpoints."
    }
}

/// The options of `breakpoint`.
#[derive(Clone, Debug)]
pub enum BreakpointOpts {
    /// Sets a breakpoint at the functions whose names hold `name`.
    SetSymbol { name: String },
}

impl BreakpointCommand {
    /// Carries out `breakpoint`.
    pub fn execute(&self, debugger: &mut MainDebugger, opts: BreakpointOpts)
        ensures
            match opts {
                BreakpointOpts::SetSymbol { name } => final(debugger).spec_breakpoints().spec_names()
                    == (if old(debugger).spec_breakpoints().spec_names().contains(name@) {
                        old(debugger).spec_breakpoints().spec_names()
                    } else {
                        old(debugger).spec_breakpoints().spec_names().push(name@)
                    }),
            },
            final(debugger).instance == old(debugger).instance,
    {
        match opts {
            BreakpointOpts::SetSymbol { name } => debugger.set_breakpoint(Breakpoint::Function { name }),
        }
    }
}

} // verus!
