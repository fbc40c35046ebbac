//! What the commands of the command-line debugger work with.

use vstd::prelude::*;
use crate::vm::value::Value;

verus! {

/// Where execution stops.
#[derive(Clone, Debug)]
pub enum Breakpoint {
    /// At the entry of a function whose name holds this one.
    Function { name: String },
}

/// How a run stopped.
#[derive(Clone, Debug)]
pub enum RunResult {
    Finish(Vec<Value>),
    Breakpoint,
}

} // verus!
