//! The `disassemble` command.

use vstd::prelude::*;
use crate::debugger::commands::command::Command;

verus! {

pub struct DisassembleCommand {}

impl DisassembleCommand {
    pub fn new() -> Self {
        Self {}
    }
}

impl Command for DisassembleCommand {
    fn name(&self) -> (r: &'static str)
        ensures
            r@ == "disassemble"@,
    {
        "disassemble"
    }

    fn description(&self) -> (r: &'static str)
        ensures
            r@ == "Disassemble instructions in the current function."@,
    {
        "Disassemble instructions in the current function."
    }
}

/// The options of `disassemble`.
#[derive(Clone, Copy, Debug)]
pub struct DisassembleOpts {
    /// How many instructions to show.
    pub count: Option<usize>,
    /// Start at the pc.
    pub pc: bool,
}

/// How many instructions to show: at the pc, 4 unless a count is given.
pub fn effective_count(opts: DisassembleOpts) -> (r: Option<usize>)
    ensures
        r == (if opts.pc {
            Some(match opts.count { Some(c) => c, None => 4 })
        } else {
            opts.count
        }),
{
    if opts.pc {
        Some(match opts.count {
            Some(c) => c,
            None => 4,
        })
    } else {
        opts.count
    }
}

/// A line of a listing: the index of an instruction and whether it is the pc.
#[derive(Clone, Copy, Debug, PartialEq, Eq, Structural)]
pub struct AsmLine {
    pub index: usize,
    pub is_pc: bool,
}

/// The instructions to show of a body of `len` instructions whose next one
/// is `inst_index`: `count` of them from the pc, or from the start; all when
/// no count is given.
pub fn display_asm(len: usize, inst_index: usize, count: Option<usize>, pc_rel: bool) -> (r: Vec<AsmLine>)
    requires
        count matches Some(c) ==> (if pc_rel { inst_index } else { 0 }) + c <= usize::MAX,
    ensures
        ({
            let begin: int = if pc_rel { inst_index as int } else { 0 };
            let end: int = match count { Some(c) => begin + c, None => len as int };
            let lo: int = if begin < len { begin } else { len as int };
            let hi: int = if end < len { end } else { len as int };
            &&& r@.len() == (if lo < hi { hi - lo } else { 0 })
            &&& forall|k: int| 0 <= k < r@.len() ==> (#[trigger] r@[k]).index == lo + k
                && r@[k].is_pc == (lo + k == inst_index)
        }),
{
    let begin: usize = if pc_rel { inst_index } else { 0 };
    let end: usize = match count {
        Some(c) => begin + c,
        None => len,
    };
    let mut lines: Vec<AsmLine> = Vec::new();
    let mut index: usize = 0;
    while index < len
        invariant
            index <= len,
            lines@.len() == (if begin < index && begin < end {
                (if index < end { index } else { end }) - begin
            } else {
                0
            }),
            forall|k: int| 0 <= k < lines@.len() ==> (#[trigger] lines@[k]).index == begin + k
                && lines@[k].is_pc == (begin + k == inst_index),
        decreases len - index,
    {
        if begin <= index && index < end {
            lines.push(AsmLine { index, is_pc: index == inst_index });
        }
        index = index + 1;
    }
    lines
}

} // verus!
