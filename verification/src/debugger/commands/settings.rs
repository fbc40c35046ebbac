//! The `settings` command.

use vstd::prelude::*;
use crate::debugger::commands::command::{Command, CommandContext, CommandError, ContextSourceMap};
use crate::debugger::commands::sourcemap::SourceMap;
use crate::debugger::dwarf::directory_mapped;
use crate::vm::utils::str_eq;

verus! {

pub struct SettingsCommand {}

impl SettingsCommand {
    pub fn new() -> Self {
        Self {}
    }
}

impl Command for SettingsCommand {
    fn name(&self) -> (r: &'static str)
        ensures
            r@ == "settings"@,
    {
        "settings"
    }

    fn description(&self) -> (r: &'static str)
        ensures
            r@ == "Commands for setting environment"@,
    {
        "Commands for setting environment"
    }
}

/// The options of `settings`.
#[derive(Clone, Debug)]
pub enum SettingsOpts {
    /// Sets `key` with two operands.
    SetValue { key: String, operand1: String, operand2: String },
}

impl SettingsCommand {
    /// Carries out `settings`: `directory.map FROM TO` rewrites the source
    /// directory `FROM` to `TO`; another key is an error.
    pub fn execute(&self, context: &mut CommandContext, opts: SettingsOpts) -> (r: Result<(), CommandError>)
        ensures
            match opts {
                SettingsOpts::SetValue { key, operand1, operand2 } => if key@ == "directory.map"@ {
                    r is Ok && match old(context).sourcemap {
                        ContextSourceMap::Empty(_) => final(context).sourcemap is Empty,
                        ContextSourceMap::Dwarf(m) => final(context).sourcemap matches ContextSourceMap::Dwarf(m2)
                            && directory_mapped(m, m2, operand1@, operand2@),
                    }
                } else {
                    r matches Err(CommandError::InvalidKey(k)) && k@ == key@
                        && final(context).sourcemap == old(context).sourcemap
                },
            },
            final(context).subroutine == old(context).subroutine,
    {
        match opts {
            SettingsOpts::SetValue { key, operand1, operand2 } => {
                if str_eq(key.as_str(), "directory.map") {
                    context.sourcemap.set_directory_map(operand1, operand2);
                    Ok(())
                } else {
                    Err(CommandError::InvalidKey(key))
                }
            },
        }
    }
}

} // verus!
