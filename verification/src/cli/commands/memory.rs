//! The `memory` command.

use vstd::prelude::*;
use crate::cli::commands::command::Command;
use crate::debugger::commands::memory::{memory_rows, rows_of, MemoryRow};

verus! {

pub struct MemoryCommand {}

impl MemoryCommand {
    pub fn new() -> Self {
        Self {}
    }
}

impl Command for MemoryCommand {
    fn name(&self) -> (r: &'static str)
        ensures
            r@ == "memory"@,
    {
        "memory"
    }

    fn description(&self) -> (r: &'static str)
        ensures
            r@ == "No description yet"@,
    {
        "No description yet"
    }
}

/// The dump of `count` bytes of `memory` from `address`, in lines of 16
/// bytes.
pub fn read_memory(memory: &[u8], address: i64, count: u32) -> (r: Vec<MemoryRow>)
    requires
        (address as usize) + count <= memory@.len(),
    ensures
        rows_of(r@, memory@, (address as usize) as int, (address as usize) + count),
{
    let begin = address as usize;
    let n = memory.len();
    assert(begin + count <= n);
    memory_rows(memory, begin, begin + count as usize)
}

} // verus!
