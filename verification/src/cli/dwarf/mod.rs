//! Debug information of the command-line debugger.

pub mod types;
pub mod format;
pub mod subroutine;
pub mod transform;

use vstd::prelude::*;
use crate::cli::commands::sourcemap::{ColumnType, LineInfo, SourceMap};
use crate::debugger::commands::sourcemap::LineInfoView;
use crate::debugger::dwarf::{floor_row, merged, unit_entries, DwarfUnitSourceMap};
use crate::debugger::commands::sourcemap::SourceMap as DebuggerSourceMap;

verus! {

/// The line tables of all units, merged by address.
pub struct DwarfSourceMap {
    inner: crate::debugger::dwarf::DwarfSourceMap,
}

impl DwarfSourceMap {
    pub closed spec fn spec_rows(&self) -> Seq<(u64, LineInfoView)> {
        self.inner.spec_rows()
    }

    pub closed spec fn spec_no_dirs(&self) -> bool {
        self.inner.spec_dirs().len() == 0
    }

    /// Merges the rows of `units`: sorted by address, and where units share
    /// an address, the later one wins.
    pub fn new(units: Vec<DwarfUnitSourceMap>) -> (m: Self)
        requires
            forall|k: int| 0 <= k < units@.len() ==> (#[trigger] units@[k]).wf(),
        ensures
            merged(m.spec_rows(), unit_entries(units@)),
            m.spec_no_dirs(),
    {
        DwarfSourceMap { inner: crate::debugger::dwarf::DwarfSourceMap::new(units) }
    }
}

impl SourceMap for DwarfSourceMap {
    /// The location of the row that holds `offset`.
    fn find_line_info(&self, offset: usize) -> (r: Option<LineInfo>)
        ensures
            self.spec_no_dirs() ==> match r {
                None => forall|i: int| 0 <= i < self.spec_rows().len() ==> self.spec_rows()[i].0 > offset,
                Some(li) => exists|i: int| #![trigger self.spec_rows()[i]] floor_row(self.spec_rows(), offset as u64, i)
                    && li.filepath@ == self.spec_rows()[i].1.filepath && li.line == self.spec_rows()[i].1.line
                    && li.column == self.spec_rows()[i].1.column,
            },
    {
        match self.inner.find_line_info(offset) {
            Some(li) => {
                proof {
                    let rows = self.inner.spec_rows();
                    let i = choose|i: int| #![trigger rows[i]] floor_row(rows, offset as u64, i)
                        && li@ == LineInfoView {
                            filepath: crate::debugger::dwarf::apply_dirs(rows[i].1.filepath, self.inner.spec_dirs()),
                            ..rows[i].1
                        };
                    assert(floor_row(self.spec_rows(), offset as u64, i));
                    if self.spec_no_dirs() {
                        assert(crate::debugger::dwarf::apply_dirs(rows[i].1.filepath, self.inner.spec_dirs()) == rows[i].1.filepath);
                    }
                }
                Some(LineInfo { filepath: li.filepath, line: li.line, column: li.column })
            },
            None => None,
        }
    }
}

} // verus!
