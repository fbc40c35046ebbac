//! The commands of the command-line debugger.

pub mod command;
pub mod debugger;
pub mod sourcemap;
pub mod subroutine;
pub mod symbol;
pub mod backtrace;
pub mod run;
pub mod stack;
pub mod frame;
pub mod global;
pub mod process;
pub mod expression;
pub mod list;
pub mod memory;
pub mod disassemble;
pub mod thread;
pub mod breakpoint;
