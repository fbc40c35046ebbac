//! What every command of the debugger has.

use vstd::prelude::*;
use crate::debugger::commands::sourcemap::{EmptySourceMap, LineInfo, SourceMap};
use crate::debugger::dwarf::{directory_mapped, line_found, DwarfSourceMap, DwarfSubroutineMap};
use crate::vm::value::Value;

verus! {

/// What a command leaves the command loop with.
#[derive(Clone, Debug)]
pub enum CommandResult {
    /// The process finished with these values.
    ProcessFinish(Vec<Value>),
    Exit,
}

/// Why a command failed.
#[derive(Clone, Debug)]
pub enum CommandError {
    /// A number that does not parse.
    InvalidNumber(String),
    /// A memory range past the end of memory: its end and the memory's length.
    OutOfRange(usize, usize),
    /// A settings key that does not exist.
    InvalidKey(String),
    /// No instruction to look at.
    NoInstruction,
    /// No call frame.
    NoFrame,
    /// A frame base that cannot be read: what was missing.
    FrameBase(String),
}

/// The source map the commands use: none, or one read from DWARF.
pub enum ContextSourceMap {
    Empty(EmptySourceMap),
    Dwarf(DwarfSourceMap),
}

impl SourceMap for ContextSourceMap {
    fn find_line_info(&self, offset: usize) -> (r: Option<LineInfo>)
        ensures
            match *self {
                ContextSourceMap::Empty(_) => r is None,
                ContextSourceMap::Dwarf(m) => line_found(m, offset, r),
            },
    {
        match self {
            ContextSourceMap::Empty(m) => m.find_line_info(offset),
            ContextSourceMap::Dwarf(m) => m.find_line_info(offset),
        }
    }

    fn set_directory_map(&mut self, from: String, to: String)
        ensures
            match *old(self) {
                ContextSourceMap::Empty(_) => *final(self) is Empty,
                ContextSourceMap::Dwarf(m) => *final(self) matches ContextSourceMap::Dwarf(m2)
                    && directory_mapped(m, m2, from@, to@),
            },
    {
        match self {
            ContextSourceMap::Empty(m) => m.set_directory_map(from, to),
            ContextSourceMap::Dwarf(m) => m.set_directory_map(from, to),
        }
    }
}

/// What commands share: the source map and the subroutines of the module.
pub struct CommandContext {
    pub sourcemap: ContextSourceMap,
    pub subroutine: DwarfSubroutineMap,
}

/// A command of the debugger.
pub trait Command {
    fn name(&self) -> &'static str;

    fn description(&self) -> &'static str;
}

/// A command that stands for another command line.
pub trait AliasCommand {
    fn name(&self) -> &'static str;

    /// The command line it stands for.
    fn run(&self, args: Vec<&str>) -> String;
}

} // verus!
