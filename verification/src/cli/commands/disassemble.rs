//! The `disassemble` command.

use vstd::prelude::*;
use crate::cli::commands::command::Command;

verus! {

pub struct DisassembleCommand {}

impl DisassembleCommand {
    pub fn new() -> Self {
        Self {}
    }
}

impl Command for DisassembleCommand {
    fn name(&self) -> (r: &'static str)
        ensures
            r@ == "disassemble"@,
    {
        "disassemble"
    }

    fn description(&self) -> (r: &'static str)
        ensures
            r@ == "Disassemble instructions in the current function."@,
    {
        "Disassemble instructions in the current function."
    }
}

/// For each instruction of a body of `len`, whether it is the one last
/// executed, given the index of the next one.
pub fn display_asm(len: usize, next_index: usize) -> (r: Vec<bool>)
    ensures
        r@.len() == len,
        forall|k: int| 0 <= k < len ==> #[trigger] r@[k] == (k + 1 == next_index),
{
    let mut marks: Vec<bool> = Vec::new();
    let mut i: usize = 0;
    while i < len
        invariant
            i <= len,
            marks@.len() == i,
            forall|k: int| 0 <= k < i ==> #[trigger] marks@[k] == (k + 1 == next_index),
        decreases len - i,
    {
        marks.push(next_index > 0 && i == next_index - 1);
        i = i + 1;
    }
    marks
}

} // verus!
