//! The variables and frame bases of subroutines.

use vstd::prelude::*;
use crate::debugger::dwarf::{DwarfError, WasmLoc};

verus! {

/// A variable: its name and the name of its type.
#[derive(Clone, Debug)]
pub struct Variable {
    pub name: String,
    pub ty_name: String,
}

/// The variables and frame bases of the subroutines of a module.
pub trait SubroutineMap {
    fn variable_name_list(&self, code_offset: usize) -> Result<Vec<Variable>, DwarfError>;

    fn get_frame_base(&self, code_offset: usize) -> Result<WasmLoc, DwarfError>;

    /// The text that shows the variable `name` of the subroutine holding
    /// `code_offset`, with frame base `frame_base` and memory `memory`; none
    /// when there is nothing to show.
    fn display_variable(&self, code_offset: usize, frame_base: u64, memory: &[u8], name: String)
        -> Result<Option<String>, DwarfError>;
}

/// A map that knows no subroutine.
pub struct EmptySubroutineMap {}

impl EmptySubroutineMap {
    pub fn new() -> Self {
        Self {}
    }
}

impl SubroutineMap for EmptySubroutineMap {
    fn variable_name_list(&self, code_offset: usize) -> (r: Result<Vec<Variable>, DwarfError>)
        ensures
            r matches Ok(v) && v@.len() == 0,
    {
        Ok(Vec::new())
    }

    fn get_frame_base(&self, code_offset: usize) -> (r: Result<WasmLoc, DwarfError>)
        ensures
            r == Ok::<WasmLoc, DwarfError>(WasmLoc::Global(0)),
    {
        Ok(WasmLoc::Global(0))
    }

    fn display_variable(&self, code_offset: usize, frame_base: u64, memory: &[u8], name: String)
        -> (r: Result<Option<String>, DwarfError>)
        ensures
            r matches Ok(None),
    {
        Ok(None)
    }
}

} // verus!
