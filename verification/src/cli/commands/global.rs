//! The `global` command.

use vstd::prelude::*;
use crate::cli::commands::command::Command;
use crate::vm::address::{GlobalAddr, ModuleIndex};
use crate::vm::store::Store;
use crate::vm::value::Value;

verus! {

pub struct GlobalCommand {}

impl GlobalCommand {
    pub fn new() -> Self {
        Self {}
    }
}

impl Command for GlobalCommand {
    fn name(&self) -> (r: &'static str)
        ensures
            r@ == "global"@,
    {
        "global"
    }

    fn description(&self) -> (r: &'static str)
        ensures
            r@ == "Commands for operating globals."@,
    {
        "Commands for operating globals."
    }
}

/// The value of global `index` of the current frame's module.
pub fn read_global(store: &Store, mod_index: ModuleIndex, index: usize) -> (r: Value)
    requires
        store.spec_global(GlobalAddr(mod_index, index)) is Some,
    ensures
        r == store.spec_global(GlobalAddr(mod_index, index))->0.spec_value(),
{
    match store.global(GlobalAddr(mod_index, index)) {
        Some(g) => g.value(),
        None => Value::I32(0),
    }
}

} // verus!
