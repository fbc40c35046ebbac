//! The debugger: breakpoints, stepping, source maps and commands.

pub mod commands;
pub mod die;
pub mod dwarf;
pub mod process;
pub mod transform;
pub mod format;
pub mod variables;
pub mod readable;
pub mod sections;
pub mod registry;
pub mod debugger;

use vstd::prelude::*;
use std::collections::HashMap;
use crate::debugger::commands::command::{CommandContext, ContextSourceMap};
use crate::debugger::commands::sourcemap::EmptySourceMap;
use crate::debugger::debugger::{wasm_valid, DebuggerError, MainDebugger};
use crate::debugger::dwarf::{DwarfError, DwarfSourceMap, DwarfSubroutineMap};
use crate::debugger::process::Process;
use crate::debugger::registry::{spec_aliases, spec_commands};

verus! {

/// A module to debug: its bytes and its file's base name.
pub struct ModuleInput {
    pub bytes: Vec<u8>,
    pub basename: String,
}

/// What is read from a module's DWARF sections.
pub struct DwarfDebugInfo {
    pub sourcemap: DwarfSourceMap,
    pub subroutine: DwarfSubroutineMap,
}

/// Makes the commands use the debug information where it could be read;
/// where it could not, the error is handed back and the commands keep what
/// they had.
pub fn try_load_dwarf(debug_info: Result<DwarfDebugInfo, DwarfError>, context: &mut CommandContext) -> (r: Result<(), DwarfError>)
    ensures
        match debug_info {
            Ok(info) => r is Ok && final(context).sourcemap == ContextSourceMap::Dwarf(info.sourcemap)
                && final(context).subroutine == info.subroutine,
            Err(e) => r == Err::<(), DwarfError>(e) && *final(context) == *old(context),
        },
{
    match debug_info {
        Ok(info) => {
            context.sourcemap = ContextSourceMap::Dwarf(info.sourcemap);
            context.subroutine = info.subroutine;
            Ok(())
        },
        Err(e) => Err(e),
    }
}

/// A debugger with its commands and the commands' context, with the main
/// module loaded when one is given, and its debug information when it could
/// be read. Nothing is running yet.
pub fn start_debugger(module_input: Option<ModuleInput>, debug_info: Option<DwarfDebugInfo>)
    -> (r: Result<(Process, CommandContext), DebuggerError>)
    ensures
        r matches Ok((p, c)) ==> p.commands@.map_values(|q: (&'static str, &'static str)| (q.0@, q.1@)) == spec_commands()
            && p.aliases@.map_values(|s: &'static str| s@) == spec_aliases()
            && p.debugger.instance is None,
        match module_input {
            None => r matches Ok((p, c)) && p.debugger.spec_main_module() is None && p.debugger.instance is None
                && c.sourcemap is Empty && c.subroutine.subroutines@.len() == 0,
            Some(m) => if wasm_valid(m.bytes@) {
                r matches Ok((p, c)) && p.debugger.spec_main_module() == Some((m.bytes@, m.basename@)) && p.debugger.instance is None
                    && match debug_info {
                        Some(info) => c.sourcemap == ContextSourceMap::Dwarf(info.sourcemap) && c.subroutine == info.subroutine,
                        None => c.sourcemap is Empty && c.subroutine.subroutines@.len() == 0,
                    }
            } else {
                r matches Err(DebuggerError::InvalidModule(_))
            },
        },
{
    let mut debugger = MainDebugger::new();
    let mut context = CommandContext {
        sourcemap: ContextSourceMap::Empty(EmptySourceMap::new()),
        subroutine: DwarfSubroutineMap { subroutines: Vec::new(), units: Vec::new(), type_hash: HashMap::new() },
    };
    match module_input {
        Some(m) => {
            match debugger.load_main_module(m.bytes.as_slice(), m.basename) {
                Ok(()) => {},
                Err(e) => return Err(e),
            }
            match debug_info {
                Some(info) => {
                    let _ = try_load_dwarf(Ok(info), &mut context);
                },
                None => {},
            }
        },
        None => {},
    }
    Ok((Process::new(debugger), context))
}

} // verus!
