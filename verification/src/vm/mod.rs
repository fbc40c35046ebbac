//! The interpreter: values, instructions, stack, store and execution.

pub mod value;
pub mod address;
pub mod instruction;
pub mod func;
pub mod stack;
pub mod memory;
pub mod global;
pub mod table;
pub mod utils;
pub mod module;
pub mod store;
pub mod executor;
pub mod instance;
pub mod instantiate;
