//! The `expression` command: the frame base of the current function, from
//! which a variable is found.

use vstd::prelude::*;
use crate::debugger::commands::command::{Command, CommandError};
use crate::debugger::dwarf::{FrameBase, WasmLoc};
use crate::vm::address::{GlobalAddr, ModuleIndex};
use crate::vm::store::Store;
use crate::vm::value::Value;

verus! {

pub struct ExpressionCommand {}

impl ExpressionCommand {
    pub fn new() -> Self {
        Self {}
    }
}

impl Command for ExpressionCommand {
    fn name(&self) -> (r: &'static str)
        ensures
            r@ == "expression"@,
    {
        "expression"
    }

    fn description(&self) -> (r: &'static str)
        ensures
            r@ == "Evaluate an expression on the process (only support variable name now)."@,
    {
        "Evaluate an expression on the process (only support variable name now)."
    }
}

/// The index of the instruction last executed, given the next one's.
pub fn current_index(next_index: usize) -> (r: usize)
    ensures
        r == (if next_index == 0 { 0 } else { next_index - 1 }),
{
    if next_index == 0 { 0 } else { next_index - 1 }
}

/// A frame base value as an address: an `i32` sign-extended, or an `i64`.
pub open spec fn spec_base_offset(v: Value) -> Option<u64> {
    match v {
        Value::I32(x) => Some(x as u64),
        Value::I64(x) => Some(x as u64),
        _ => None,
    }
}

/// The frame base of the current function: from the location the debug
/// information gives (a global of module `mod_index`, a local, or an
/// operand), or else the local just after the arguments and two more.
pub open spec fn spec_frame_base(
    loc: Option<WasmLoc>,
    store: Store,
    mod_index: ModuleIndex,
    locals: Seq<Value>,
    stack_values: Seq<Value>,
    argument_count: Option<usize>,
) -> Option<FrameBase> {
    match loc {
        Some(l) => {
            let v = match l {
                WasmLoc::Global(i) => match store.spec_global(GlobalAddr(mod_index, i as usize)) {
                    Some(g) => Some(g.spec_value()),
                    None => None,
                },
                WasmLoc::Local(i) => if (i as usize) < locals.len() { Some(locals[i as usize as int]) } else { None },
                WasmLoc::Stack(i) => if (i as usize) < stack_values.len() { Some(stack_values[i as usize as int]) } else { None },
            };
            match v {
                Some(x) => match spec_base_offset(x) {
                    Some(o) => Some(FrameBase::WasmFrameBase(o)),
                    None => None,
                },
                None => None,
            }
        },
        None => match argument_count {
            Some(n) => if n + 2 < locals.len() {
                match locals[n + 2] {
                    Value::I32(x) => Some(FrameBase::RBP(x as u64)),
                    _ => None,
                }
            } else {
                None
            },
            None => None,
        },
    }
}

/// Computes the frame base; `argument_count` is that of the current frame,
/// when there is one.
pub fn frame_base(
    loc: Option<WasmLoc>,
    store: &Store,
    mod_index: ModuleIndex,
    locals: &Vec<Value>,
    stack_values: &Vec<Value>,
    argument_count: Option<usize>,
) -> (r: Result<FrameBase, CommandError>)
    requires
        loc matches Some(WasmLoc::Global(i)) ==> store.spec_global(GlobalAddr(mod_index, i as usize)) is Some,
    ensures
        match spec_frame_base(loc, *store, mod_index, locals@, stack_values@, argument_count) {
            Some(b) => r == Ok::<FrameBase, CommandError>(b),
            None => r is Err,
        },
{
    match loc {
        Some(l) => {
            let v = match l {
                WasmLoc::Global(i) => match store.global(GlobalAddr(mod_index, i as usize)) {
                    Some(g) => g.value(),
                    None => return Err(CommandError::FrameBase("global".to_owned())),
                },
                WasmLoc::Local(i) => {
                    if (i as usize) < locals.len() {
                        locals[i as usize]
                    } else {
                        return Err(CommandError::FrameBase("failed to get base local".to_owned()));
                    }
                },
                WasmLoc::Stack(i) => {
                    if (i as usize) < stack_values.len() {
                        stack_values[i as usize]
                    } else {
                        return Err(CommandError::FrameBase("failed to get base local".to_owned()));
                    }
                },
            };
            match v {
                Value::I32(x) => Ok(FrameBase::WasmFrameBase(x as u64)),
                Value::I64(x) => Ok(FrameBase::WasmFrameBase(x as u64)),
                _ => Err(CommandError::FrameBase("unexpected frame base value".to_owned())),
            }
        },
        None => {
            let n = match argument_count {
                Some(n) => n,
                None => return Err(CommandError::NoFrame),
            };
            if n < locals.len() && locals.len() - n > 2 {
                match locals[n + 2] {
                    Value::I32(x) => Ok(FrameBase::RBP(x as u64)),
                    _ => Err(CommandError::FrameBase("unexpected frame base value".to_owned())),
                }
            } else {
                Err(CommandError::FrameBase("failed to get rbp".to_owned()))
            }
        },
    }
}

} // verus!
