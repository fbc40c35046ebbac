//! Source locations of code offsets.

use vstd::prelude::*;

verus! {

/// The column of a source location.
#[derive(Copy, Clone, Debug, PartialEq, Eq, Structural)]
pub enum ColumnType {
    LeftEdge,
    Column(u64),
}

/// The column as a number: the left edge is column 0.
pub open spec fn column_number(c: ColumnType) -> u64 {
    match c {
        ColumnType::Column(n) => n,
        ColumnType::LeftEdge => 0,
    }
}

impl From<ColumnType> for u64 {
    fn from(val: ColumnType) -> (r: u64) {
        match val {
            ColumnType::Column(c) => c,
            ColumnType::LeftEdge => 0,
        }
    }
}

impl vstd::std_specs::convert::FromSpecImpl<ColumnType> for u64 {
    open spec fn obeys_from_spec() -> bool {
        true
    }

    open spec fn from_spec(v: ColumnType) -> u64 {
        column_number(v)
    }
}

/// A source location.
#[derive(Debug)]
pub struct LineInfo {
    pub filepath: String,
    pub line: Option<u64>,
    pub column: ColumnType,
}

/// A source location, as plain values.
pub struct LineInfoView {
    pub filepath: Seq<char>,
    pub line: Option<u64>,
    pub column: ColumnType,
}

impl View for LineInfo {
    type V = LineInfoView;

    open spec fn view(&self) -> LineInfoView {
        LineInfoView { filepath: self.filepath@, line: self.line, column: self.column }
    }
}

impl LineInfo {
    /// A copy with the same contents.
    pub fn copy(&self) -> (r: LineInfo)
        ensures
            r@ == self@,
    {
        LineInfo { filepath: self.filepath.clone(), line: self.line, column: self.column }
    }
}

/// Maps code offsets to source locations.
pub trait SourceMap {
    fn find_line_info(&self, offset: usize) -> Option<LineInfo>;

    /// Rewrites the directory `from` to `to` in the paths found later.
    fn set_directory_map(&mut self, from: String, to: String);
}

/// A source map that knows no location.
pub struct EmptySourceMap {}

impl EmptySourceMap {
    pub fn new() -> Self {
        Self {}
    }
}

impl SourceMap for EmptySourceMap {
    fn find_line_info(&self, offset: usize) -> (r: Option<LineInfo>)
        ensures
            r is None,
    {
        None
    }

    fn set_directory_map(&mut self, from: String, to: String) {
    }
}

} // verus!
