//! The variables of subroutines, as the commands show them.

use vstd::prelude::*;

verus! {

/// A variable: its name and the name of its type.
#[derive(Clone, Debug)]
pub struct Variable {
    pub name: String,
    pub ty_name: String,
}

} // verus!
