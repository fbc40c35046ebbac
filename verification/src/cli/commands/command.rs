//! What every command of the command-line debugger has.

use vstd::prelude::*;
use crate::cli::dwarf::DwarfSourceMap;

verus! {

/// What commands share: the source map.
pub struct CommandContext {
    pub sourcemap: DwarfSourceMap,
}

/// A command.
pub trait Command {
    fn name(&self) -> &'static str;

    fn description(&self) -> &'static str;
}

/// A command that stands for another command line.
pub trait AliasCommand {
    fn name(&self) -> &'static str;

    /// The command line it stands for.
    fn run(&self, args: Vec<&str>) -> String;
}

} // verus!
