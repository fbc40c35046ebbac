//! The `expression` command.

use vstd::prelude::*;
use crate::cli::commands::command::Command;
use crate::debugger::commands::expression::spec_base_offset;
use crate::debugger::dwarf::WasmLoc;
use crate::vm::address::{GlobalAddr, ModuleIndex};
use crate::vm::store::Store;
use crate::vm::value::Value;

verus! {

pub struct ExpressionCommand {}

impl ExpressionCommand {
    pub fn new() -> Self {
        Self {}
    }
}

impl Command for ExpressionCommand {
    fn name(&self) -> (r: &'static str)
        ensures
            r@ == "expression"@,
    {
        "expression"
    }

    fn description(&self) -> (r: &'static str)
        ensures
            r@ == "Evaluate an expression on the process (only support variable name now)."@,
    {
        "Evaluate an expression on the process (only support variable name now)."
    }
}

/// Why the frame base could not be read.
#[derive(Clone, Copy, Debug, PartialEq, Eq, Structural)]
pub enum FrameBaseError {
    /// No local or operand at the index.
    Missing,
    /// A value that is no integer.
    NotAnInteger,
}

/// The value at the frame base's location, as an address.
pub open spec fn spec_frame_base_value(loc: WasmLoc, store: Store, mod_index: ModuleIndex, locals: Seq<Value>, stack_values: Seq<Value>)
    -> Result<u64, FrameBaseError>
{
    let v = match loc {
        WasmLoc::Global(i) => Some(store.spec_global(GlobalAddr(mod_index, i as usize))->0.spec_value()),
        WasmLoc::Local(i) => if (i as usize) < locals.len() { Some(locals[i as usize as int]) } else { None },
        WasmLoc::Stack(i) => if (i as usize) < stack_values.len() { Some(stack_values[i as usize as int]) } else { None },
    };
    match v {
        None => Err(FrameBaseError::Missing),
        Some(x) => match spec_base_offset(x) {
            Some(o) => Ok(o),
            None => Err(FrameBaseError::NotAnInteger),
        },
    }
}

/// Reads the frame base at `loc` as an address.
pub fn frame_base_value(loc: WasmLoc, store: &Store, mod_index: ModuleIndex, locals: &Vec<Value>, stack_values: &Vec<Value>)
    -> (r: Result<u64, FrameBaseError>)
    requires
        loc matches WasmLoc::Global(i) ==> store.spec_global(GlobalAddr(mod_index, i as usize)) is Some,
    ensures
        r == spec_frame_base_value(loc, *store, mod_index, locals@, stack_values@),
{
    let v = match loc {
        WasmLoc::Global(i) => match store.global(GlobalAddr(mod_index, i as usize)) {
            Some(g) => g.value(),
            None => return Err(FrameBaseError::Missing),
        },
        WasmLoc::Local(i) => {
            if (i as usize) < locals.len() {
                locals[i as usize]
            } else {
                return Err(FrameBaseError::Missing);
            }
        },
        WasmLoc::Stack(i) => {
            if (i as usize) < stack_values.len() {
                stack_values[i as usize]
            } else {
                return Err(FrameBaseError::Missing);
            }
        },
    };
    match v {
        Value::I32(x) => Ok(x as u64),
        Value::I64(x) => Ok(x as u64),
        _ => Err(FrameBaseError::NotAnInteger),
    }
}

} // verus!
