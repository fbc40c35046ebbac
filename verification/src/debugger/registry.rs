//! The commands the debugger registers, with their descriptions, and the
//! aliases.

use vstd::prelude::*;
use crate::cli::commands::command::Command as ListedCommand;
use crate::cli::commands::frame::FrameCommand;
use crate::cli::commands::global::GlobalCommand;
use crate::cli::commands::list::ListCommand;
use crate::debugger::commands::backtrace::BacktraceCommand;
use crate::debugger::commands::breakpoint::BreakpointCommand;
use crate::debugger::commands::command::{AliasCommand, Command};
use crate::debugger::commands::disassemble::DisassembleCommand;
use crate::debugger::commands::expression::ExpressionCommand;
use crate::debugger::commands::local::LocalCommand;
use crate::debugger::commands::memory::MemoryCommand;
use crate::debugger::commands::process::ProcessCommand;
use crate::debugger::commands::run::RunCommand;
use crate::debugger::commands::settings::SettingsCommand;
use crate::debugger::commands::stack::StackCommand;
use crate::debugger::commands::thread::ThreadCommand;

verus! {

/// The registered commands' names and descriptions, in order.
pub open spec fn spec_commands() -> Seq<(Seq<char>, Seq<char>)> {
    seq![
        ("thread"@, "Commands for operating the thread."@),
        ("list"@, "No description yet"@),
        ("memory"@, "Commands for operating on memory."@),
        ("stack"@, "Commands for operating stack."@),
        ("breakpoint"@, "Commands for operating on breakpoints."@),
        ("disassemble"@, "Disassemble instructions in the current function."@),
        ("expression"@, "Evaluate an expression on the process (only support variable name now)."@),
        ("global"@, "Commands for operating globals."@),
        ("local"@, "Commands for operating locals."@),
        ("frame"@, "Commands for selecting current stack frame."@),
        ("settings"@, "Commands for setting environment"@),
        ("process"@, "Commands for interacting with processes."@),
    ]
}

/// The registered aliases' names, in order.
pub open spec fn spec_aliases() -> Seq<Seq<char>> {
    seq!["run"@, "bt"@]
}

/// The commands the debugger registers: each one's name and description.
pub fn command_list() -> (r: Vec<(&'static str, &'static str)>)
    ensures
        r@.map_values(|p: (&'static str, &'static str)| (p.0@, p.1@)) == spec_commands(),
{
    let mut v: Vec<(&'static str, &'static str)> = Vec::new();
    v.push((ThreadCommand::new().name(), ThreadCommand::new().description()));
    v.push((ListCommand::new().name(), ListCommand::new().description()));
    v.push((MemoryCommand::new().name(), MemoryCommand::new().description()));
    v.push((StackCommand::new().name(), StackCommand::new().description()));
    v.push((BreakpointCommand::new().name(), BreakpointCommand::new().description()));
    v.push((DisassembleCommand::new().name(), DisassembleCommand::new().description()));
    v.push((ExpressionCommand::new().name(), ExpressionCommand::new().description()));
    v.push((GlobalCommand::new().name(), GlobalCommand::new().description()));
    v.push((LocalCommand::new().name(), LocalCommand::new().description()));
    v.push((FrameCommand::new().name(), FrameCommand::new().description()));
    v.push((SettingsCommand::new().name(), SettingsCommand::new().description()));
    v.push((ProcessCommand::new().name(), ProcessCommand::new().description()));
    assert(v@.map_values(|p: (&'static str, &'static str)| (p.0@, p.1@)) =~= spec_commands());
    v
}

/// The aliases the debugger registers, by name.
pub fn alias_list() -> (r: Vec<&'static str>)
    ensures
        r@.map_values(|s: &'static str| s@) == spec_aliases(),
{
    let mut v: Vec<&'static str> = Vec::new();
    v.push(RunCommand::new().name());
    v.push(BacktraceCommand::new().name());
    assert(v@.map_values(|s: &'static str| s@) =~= spec_aliases());
    v
}

} // verus!
