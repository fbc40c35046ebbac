//! What the debugger's commands work with.

use vstd::prelude::*;
use crate::vm::address::ModuleIndex;
use crate::vm::executor::HostRequest;
use crate::vm::value::Value;

verus! {

/// Settings of a debugging session.
#[derive(Clone, Copy, Debug, PartialEq, Eq, Structural)]
pub struct DebuggerOpts {
    pub watch_memory: bool,
}

impl Default for DebuggerOpts {
    fn default() -> (r: Self)
        ensures
            r.watch_memory == false,
    {
        DebuggerOpts { watch_memory: false }
    }
}

/// Where execution stops.
#[derive(Clone, Debug)]
pub enum Breakpoint {
    /// At the entry of a function whose name contains this one.
    Function { name: String },
    /// After the instruction at this code offset.
    Instruction { inst_offset: usize },
}

/// How a run stopped.
#[derive(Clone, Debug)]
pub enum RunResult {
    /// The function returned these values.
    Finish(Vec<Value>),
    /// A breakpoint was hit.
    Breakpoint,
    /// The embedder must do this work and hand back its results.
    Host(HostRequest),
    /// The budget of steps is spent; the run can go on.
    Paused,
}

/// How far a step goes.
#[derive(Clone, Copy, Debug, PartialEq, Eq, Structural)]
pub enum StepStyle {
    /// One instruction.
    InstIn,
    /// One instruction, and the whole of a call it makes.
    InstOver,
    /// Until the current function returns.
    Out,
}

/// The innermost frame: its module and how many arguments its function takes.
#[derive(Clone, Copy, Debug, PartialEq, Eq, Structural)]
pub struct FunctionFrame {
    pub module_index: ModuleIndex,
    pub argument_count: usize,
}

/// Where the debugger writes.
pub trait OutputPrinter {
    fn println(&self, line: &str);
    fn eprintln(&self, line: &str);
}

} // verus!
