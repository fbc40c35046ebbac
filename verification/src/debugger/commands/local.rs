//! The `local` command.

use vstd::prelude::*;
use crate::debugger::commands::command::Command;
use crate::vm::value::Value;

verus! {

pub struct LocalCommand {}

impl LocalCommand {
    pub fn new() -> Self {
        Self {}
    }
}

impl Command for LocalCommand {
    fn name(&self) -> (r: &'static str)
        ensures
            r@ == "local"@,
    {
        "local"
    }

    fn description(&self) -> (r: &'static str)
        ensures
            r@ == "Commands for operating locals."@,
    {
        "Commands for operating locals."
    }
}

/// The options of `local`.
#[derive(Clone, Copy, Debug)]
pub enum LocalOpts {
    /// Reads all locals, or the one at an index.
    Read { index: Option<usize> },
}

/// The locals `local read` shows, each with its index.
pub fn read_locals(locals: &Vec<Value>, opts: LocalOpts) -> (r: Vec<(usize, Value)>)
    requires
        opts matches LocalOpts::Read { index: Some(i) } ==> i < locals@.len(),
    ensures
        match opts {
            LocalOpts::Read { index: Some(i) } => r@ == seq![(i, locals@[i as int])],
            LocalOpts::Read { index: None } => r@.len() == locals@.len()
                && forall|k: int| 0 <= k < r@.len() ==> #[trigger] r@[k] == (k as usize, locals@[k]),
        },
{
    match opts {
        LocalOpts::Read { index: Some(i) } => {
            let mut r: Vec<(usize, Value)> = Vec::new();
            r.push((i, locals[i]));
            assert(r@ =~= seq![(i, locals@[i as int])]);
            r
        },
        LocalOpts::Read { index: None } => {
            let mut r: Vec<(usize, Value)> = Vec::new();
            let mut k: usize = 0;
            while k < locals.len()
                invariant
                    k <= locals@.len(),
                    r@.len() == k,
                    forall|m: int| 0 <= m < k ==> #[trigger] r@[m] == (m as usize, locals@[m]),
                decreases locals@.len() - k,
            {
                r.push((k, locals[k]));
                k = k + 1;
            }
            r
        },
    }
}

} // verus!
