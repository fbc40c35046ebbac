//! Source locations of code offsets.

use vstd::prelude::*;

verus! {

pub use crate::debugger::commands::sourcemap::ColumnType;

/// A source location.
#[derive(Debug)]
pub struct LineInfo {
    pub filepath: String,
    pub line: Option<u64>,
    pub column: ColumnType,
}

/// Maps code offsets to source locations.
pub trait SourceMap {
    fn find_line_info(&self, offset: usize) -> Option<LineInfo>;
}

} // verus!
