//! Addresses of instances in the store: a module and an index within it.

use vstd::prelude::*;

verus! {

/// The index of a module instance in the store.
#[derive(Clone, Copy, Debug, PartialEq, Eq, Hash, Structural)]
pub struct ModuleIndex(pub u32);

/// The address of a global variable.
#[derive(Clone, Copy, Debug, PartialEq, Eq, Structural)]
pub struct GlobalAddr(pub ModuleIndex, pub usize);

/// The address of a linear memory.
#[derive(Clone, Copy, Debug, PartialEq, Eq, Structural)]
pub struct MemoryAddr(pub ModuleIndex, pub usize);

/// The address of a function.
#[derive(Clone, Copy, Debug, PartialEq, Eq, Structural)]
pub struct FuncAddr(pub ModuleIndex, pub usize);

/// The address of a table.
#[derive(Clone, Copy, Debug, PartialEq, Eq, Structural)]
pub struct TableAddr(pub ModuleIndex, pub usize);

impl FuncAddr {
    /// The module the function belongs to.
    pub fn module_index(&self) -> (m: ModuleIndex)
        ensures
            m == self.0,
    {
        self.0
    }
}

} // verus!
