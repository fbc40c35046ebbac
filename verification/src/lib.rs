//! A WebAssembly debugger core: the interpreter and its store, and the
//! debugger's breakpoints, source maps, type formatting and remote protocol.

pub mod vm;
pub mod text;
pub mod debugger;
pub mod cli;
pub mod server;
pub mod swift;
