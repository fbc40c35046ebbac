//! The debugger's commands and the types they share.

pub mod command;
pub mod sourcemap;
pub mod subroutine;
pub mod debugger;
pub mod memory;
pub mod backtrace;
pub mod run;
pub mod breakpoint;
pub mod disassemble;
pub mod settings;
pub mod expression;
pub mod local;
pub mod stack;
pub mod process;
pub mod thread;
