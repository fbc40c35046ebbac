//! Reading a module's units as the command-line debugger does: each unit's
//! line table, then its subroutines.

use vstd::prelude::*;
use crate::cli::dwarf::subroutine::{
    spec_flat_subroutines, sub_views, transform_subprogram, CliSubroutineView, DwarfSubroutineMap, Subroutine,
};
use crate::cli::dwarf::DwarfSourceMap;
use crate::debugger::die::{clone_string_attribute, spec_attr_string};
use crate::debugger::dwarf::{merged, unit_entries, DwarfError, DwarfUnitSourceMap};
use crate::debugger::transform::{
    lemma_map_wf, line_map_of, paths_in_dirs, rows_name_files, spec_dirs, spec_lines, units_rows_ok, LineProgram, UnitInput,
};
use crate::debugger::variables::Scan;

verus! {

/// What is read from a module's DWARF sections.
pub struct DwarfDebugInfo {
    pub sourcemap: DwarfSourceMap,
    pub subroutine: DwarfSubroutineMap,
}

/// Reading a unit's line program: a directory that cannot be read is an
/// error; otherwise as the debugger reads it.
pub open spec fn spec_cli_lines(lines: Option<LineProgram>) -> Scan<()> {
    match lines {
        Some(p) => if spec_dirs(p) is None {
            Scan::Fail(DwarfError::BadString)
        } else {
            spec_lines(lines)
        },
        None => spec_lines(lines),
    }
}

/// The line table of a unit, read from its line program.
pub fn transform_debug_line(lines: &Option<LineProgram>, comp_dir: &Option<String>) -> (r: Result<DwarfUnitSourceMap, DwarfError>)
    requires
        !(spec_cli_lines(*lines) is Crash),
    ensures
        match spec_cli_lines(*lines) {
            Scan::Done(_) => r matches Ok(m) && line_map_of(m, lines->0) && paths_in_dirs(m, lines->0, *comp_dir),
            Scan::Fail(e) => r matches Err(x) && x == e,
            Scan::Crash => true,
        },
{
    match lines {
        Some(p) => {
            let mut k: usize = 0;
            while k < p.include_directories.len()
                invariant
                    *lines == Some(*p),
                    k <= p.include_directories@.len(),
                    forall|j: int| 0 <= j < k ==> (#[trigger] spec_attr_string(p.include_directories@[j])) is Some,
                decreases p.include_directories@.len() - k,
            {
                if clone_string_attribute(&p.include_directories[k]).is_none() {
                    proof {
                        assert(!(spec_attr_string(p.include_directories@[k as int]) is Some));
                        assert(spec_dirs(*p) is None);
                    }
                    return Err(DwarfError::BadString);
                }
                k = k + 1;
            }
            proof { assert(spec_dirs(*p) is Some); }
        },
        None => {},
    }
    crate::debugger::transform::transform_debug_line(lines, comp_dir)
}

/// Reading one unit: its line table, then its subroutines.
pub open spec fn spec_cli_unit(u: UnitInput) -> Scan<Seq<CliSubroutineView>> {
    match spec_cli_lines(u.lines) {
        Scan::Crash => Scan::Crash,
        Scan::Fail(e) => Scan::Fail(e),
        Scan::Done(_) => spec_flat_subroutines(u.entries.root, u.entries.encoding),
    }
}

/// Reading the units in order: their subroutines one after another.
pub open spec fn spec_cli_dwarf(units: Seq<UnitInput>) -> Scan<Seq<CliSubroutineView>>
    decreases units.len(),
{
    if units.len() == 0 {
        Scan::Done(Seq::empty())
    } else {
        match spec_cli_unit(units[0]) {
            Scan::Done(s) => match spec_cli_dwarf(units.drop_first()) {
                Scan::Done(s2) => Scan::Done(s + s2),
                Scan::Fail(e) => Scan::Fail(e),
                Scan::Crash => Scan::Crash,
            },
            Scan::Fail(e) => Scan::Fail(e),
            Scan::Crash => Scan::Crash,
        }
    }
}

/// Reads the debug information of a module from its units: the line tables
/// merged into one source map, and the subroutines of all units in order.
pub fn transform_dwarf(units: Vec<UnitInput>) -> (r: Result<DwarfDebugInfo, DwarfError>)
    requires
        !(spec_cli_dwarf(units@) is Crash),
        units_rows_ok(units@),
    ensures
        match spec_cli_dwarf(units@) {
            Scan::Done(subs) => r matches Ok(info) && sub_views(info.subroutine.subroutines@) == subs
                && exists|maps: Seq<DwarfUnitSourceMap>| #![trigger unit_entries(maps)]
                    maps.len() == units@.len()
                    && (forall|k: int| 0 <= k < maps.len() ==> line_map_of(#[trigger] maps[k], units@[k].lines->0))
                    && merged(info.sourcemap.spec_rows(), unit_entries(maps)),
            Scan::Fail(e) => r matches Err(x) && x == e,
            Scan::Crash => true,
        },
{
    let n = units.len();
    let mut maps: Vec<DwarfUnitSourceMap> = Vec::new();
    let mut subroutines: Vec<Subroutine> = Vec::new();
    let mut i: usize = 0;
    proof {
        assert(units@.subrange(0, n as int) =~= units@);
        assert(sub_views(subroutines@) =~= Seq::<CliSubroutineView>::empty());
        if let Scan::Done(s) = spec_cli_dwarf(units@) {
            assert(Seq::<CliSubroutineView>::empty() + s =~= s);
        }
    }
    while i < n
        invariant
            n == units@.len(),
            i <= n,
            units_rows_ok(units@),
            !(spec_cli_dwarf(units@) is Crash),
            spec_cli_dwarf(units@) == match spec_cli_dwarf(units@.subrange(i as int, n as int)) {
                Scan::Done(s2) => Scan::Done(sub_views(subroutines@) + s2),
                Scan::Fail(e) => Scan::Fail(e),
                Scan::Crash => Scan::Crash,
            },
            maps@.len() == i,
            forall|k: int| 0 <= k < i ==> line_map_of(#[trigger] maps@[k], units@[k].lines->0),
            forall|k: int| 0 <= k < i ==> (#[trigger] maps@[k]).wf(),
        decreases n - i,
    {
        let u = &units[i];
        let ghost sfx = units@.subrange(i as int, n as int);
        let ghost rest = units@.subrange(i + 1, n as int);
        proof {
            assert(sfx[0] == units@[i as int]);
            assert(sfx.drop_first() =~= rest);
        }
        let map = match transform_debug_line(&u.lines, &u.comp_dir) {
            Ok(m) => m,
            Err(e) => {
                proof {
                    assert(spec_cli_lines(u.lines) == Scan::<()>::Fail(e));
                    assert(spec_cli_dwarf(sfx) == Scan::<Seq<CliSubroutineView>>::Fail(e));
                }
                return Err(e);
            },
        };
        let mut subs = match transform_subprogram(&u.entries.root, u.entries.encoding) {
            Ok(s) => s,
            Err(e) => {
                proof {
                    assert(spec_cli_dwarf(sfx) == Scan::<Seq<CliSubroutineView>>::Fail(e));
                }
                return Err(e);
            },
        };
        proof {
            assert(units_rows_ok(units@));
            assert(match units@[i as int].lines { Some(p) => rows_name_files(p), None => true });
            lemma_map_wf(map, u.lines->0);
        }
        let ghost before = sub_views(subroutines@);
        let ghost added = sub_views(subs@);
        subroutines.append(&mut subs);
        proof {
            assert(sub_views(subroutines@) =~= before + added);
            match spec_cli_dwarf(rest) {
                Scan::Done(s2) => {
                    assert(before + (added + s2) =~= (before + added) + s2);
                },
                _ => {},
            }
        }
        maps.push(map);
        i = i + 1;
    }
    proof {
        assert(units@.subrange(n as int, n as int) =~= Seq::<UnitInput>::empty());
        assert(sub_views(subroutines@) + Seq::<CliSubroutineView>::empty() =~= sub_views(subroutines@));
    }
    let ghost ms = maps@;
    let sourcemap = DwarfSourceMap::new(maps);
    proof {
        assert(ms.len() == units@.len());
    }
    Ok(DwarfDebugInfo { sourcemap, subroutine: DwarfSubroutineMap { subroutines } })
}

} // verus!
