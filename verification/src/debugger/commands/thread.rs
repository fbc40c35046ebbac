//! The `thread` command.

use vstd::prelude::*;
use crate::debugger::commands::command::Command;
use crate::debugger::commands::debugger::StepStyle;
use crate::debugger::commands::sourcemap::LineInfo;
use crate::vm::utils::str_eq;

verus! {

pub struct ThreadCommand {}

impl ThreadCommand {
    pub fn new() -> Self {
        Self {}
    }
}

impl Command for ThreadCommand {
    fn name(&self) -> (r: &'static str)
        ensures
            r@ == "thread"@,
    {
        "thread"
    }

    fn description(&self) -> (r: &'static str)
        ensures
            r@ == "Commands for operating the thread."@,
    {
        "Commands for operating the thread."
    }
}

/// The options of `thread`.
#[derive(Clone, Copy, Debug, PartialEq, Eq, Structural)]
pub enum ThreadOpts {
    Info,
    Backtrace,
    StepIn,
    StepOver,
    StepOut,
    StepInstIn,
    StepInstOver,
}

/// How far a step option goes; `None` for options that do not step.
pub fn step_style(opts: ThreadOpts) -> (r: Option<StepStyle>)
    ensures
        r == match opts {
            ThreadOpts::StepIn | ThreadOpts::StepInstIn => Some(StepStyle::InstIn),
            ThreadOpts::StepOver | ThreadOpts::StepInstOver => Some(StepStyle::InstOver),
            ThreadOpts::StepOut => Some(StepStyle::Out),
            _ => None,
        },
{
    match opts {
        ThreadOpts::StepIn | ThreadOpts::StepInstIn => Some(StepStyle::InstIn),
        ThreadOpts::StepOver | ThreadOpts::StepInstOver => Some(StepStyle::InstOver),
        ThreadOpts::StepOut => Some(StepStyle::Out),
        _ => None,
    }
}

/// The lines of a backtrace: the innermost frame first, numbered from 0.
pub fn backtrace_lines(frames: &Vec<String>) -> (r: Vec<(usize, String)>)
    ensures
        r@.len() == frames@.len(),
        forall|k: int| 0 <= k < r@.len() ==> (#[trigger] r@[k]).0 == k as usize
            && r@[k].1@ == frames@[frames@.len() - 1 - k]@,
{
    let mut r: Vec<(usize, String)> = Vec::new();
    let n = frames.len();
    let mut k: usize = 0;
    while k < n
        invariant
            n == frames@.len(),
            k <= n,
            r@.len() == k,
            forall|m: int| 0 <= m < k ==> (#[trigger] r@[m]).0 == m as usize && r@[m].1@ == frames@[n - 1 - m]@,
        decreases n - k,
    {
        r.push((k, frames[n - 1 - k].clone()));
        k = k + 1;
    }
    r
}

/// What stepping by source line does after a step.
#[derive(Clone, Copy, Debug, PartialEq, Eq, Structural)]
pub enum LineStep {
    /// The next instruction is still on the starting line: step again.
    StepAgain,
    /// The next instruction is on another line: stop and show it.
    Stop,
}

/// Decides whether stepping by source line goes on: while the next
/// instruction is in the same file and on the same line as where the
/// stepping started.
pub fn line_step(initial: &LineInfo, next: &LineInfo) -> (r: LineStep)
    ensures
        r == (if initial.filepath@ == next.filepath@ && initial.line == next.line {
            LineStep::StepAgain
        } else {
            LineStep::Stop
        }),
{
    if str_eq(initial.filepath.as_str(), next.filepath.as_str()) && initial.line == next.line {
        LineStep::StepAgain
    } else {
        LineStep::Stop
    }
}

} // verus!
