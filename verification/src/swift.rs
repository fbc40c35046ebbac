//! Errors of demangling Swift symbols with the Swift runtime.

use vstd::prelude::*;

verus! {

/// Why a Swift symbol could not be demangled.
#[derive(Clone, Copy, Debug, PartialEq, Eq, Structural)]
pub enum DemangleError {
    /// The demangled name is no valid UTF-8; the length of its valid prefix.
    Utf8Error(usize),
    /// The runtime returned nothing.
    Null,
}

} // verus!
