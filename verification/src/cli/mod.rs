//! The command-line debugger: its commands, source map and type formatting.

pub mod commands;
pub mod dwarf;
