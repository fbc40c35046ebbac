//! The debug information of a module, read from its units: line tables,
//! subroutines and types.

use vstd::prelude::*;
use std::collections::HashMap;
use crate::cli::dwarf::types::{get_types, spec_types, table_view, TypeInfo, TypeView};
use crate::debugger::die::{clone_string_attribute, spec_attr_string, AttrValue};
use crate::debugger::dwarf::{
    insert_line_row, merged, unit_entries, DwarfError, DwarfSourceMap, DwarfSubroutineMap, DwarfUnitSourceMap, LineRow,
    Subroutine, SubroutineView, UnitEntries,
};
use crate::debugger::variables::{spec_subprograms, transform_subprogram, views, Scan};
use crate::debugger::DwarfDebugInfo;

verus! {

/// The header and the rows of a unit's line program, in the order the
/// program gives them.
pub struct LineProgram {
    pub version: u16,
    pub include_directories: Vec<AttrValue>,
    /// Each file's directory, as an index into the directories, and name.
    pub file_names: Vec<(u64, AttrValue)>,
    pub rows: Vec<(u64, LineRow)>,
}

/// A unit as read from the debug information: its entries, its line
/// program when it has one, and its compilation directory.
pub struct UnitInput {
    pub entries: UnitEntries,
    pub lines: Option<LineProgram>,
    pub comp_dir: Option<String>,
}

/// Text that, as a path, is one plain relative component on every platform:
/// not empty, with no `/`, `\` or `:`.
pub open spec fn plain_component(t: Seq<char>) -> bool {
    t.len() > 0 && !t.contains('/') && !t.contains('\\') && !t.contains(':')
}

/// Whether `t` holds a `\\`.
pub open spec fn has_backslash(t: Seq<char>) -> bool {
    t.contains('\\')
}

/// `base`, then at most one separator, then `path`.
pub open spec fn adjoined(base: Seq<char>, sep: Seq<char>, path: Seq<char>) -> Seq<char> {
    base + sep + path
}

/// Whether `r` is `path` added after `base` with at most one separator.
pub open spec fn joined_after(r: Seq<char>, base: Seq<char>, path: Seq<char>) -> bool {
    exists|sep: Seq<char>| sep.len() <= 1 && r == #[trigger] adjoined(base, sep, path)
}

/// Whether `t` ends with `tail`.
pub open spec fn ends_with(t: Seq<char>, tail: Seq<char>) -> bool {
    tail.len() <= t.len() && t.subrange(t.len() - tail.len(), t.len() as int) == tail
}

/// `Path::join` of `path` onto `base`, as text. Which separator it puts in
/// and which paths are absolute depend on the platform; what is stated holds
/// on every platform, for a `base` without `\` (so without a verbatim
/// prefix, whose joins are normalized): the result ends with `path` (an
/// absolute `path` replaces `base`, one with a root keeps at most `base`'s
/// prefix, and another is added after it), and a plain relative component
/// is added after `base` with at most one separator between them.
#[verifier::external_body]
fn path_join(base: &str, path: &str) -> (r: String)
    ensures
        !has_backslash(base@) ==> ends_with(r@, path@),
        !has_backslash(base@) && plain_component(path@) ==> joined_after(r@, base@, path@),
{
    std::path::Path::new(base).join(path).to_string_lossy().into_owned()
}

/// `Path::is_absolute`; which paths are absolute depends on the platform,
/// so nothing is stated of it.
#[verifier::external_body]
fn path_is_absolute(path: &str) -> (r: bool) {
    std::path::Path::new(path).is_absolute()
}

/// The index of a line table's first file: 1 before version 5, else 0.
pub open spec fn base_index(p: LineProgram) -> usize {
    if p.version <= 4 { 1 } else { 0 }
}

/// The directories of a line program: `./` first before version 5, then
/// its include directories; none when one of them cannot be read.
pub open spec fn spec_dirs(p: LineProgram) -> Option<Seq<Seq<char>>> {
    if forall|k: int| 0 <= k < p.include_directories@.len() ==> (#[trigger] spec_attr_string(p.include_directories@[k])) is Some {
        Some((if p.version <= 4 { seq!["./"@] } else { Seq::empty() })
            + p.include_directories@.map_values(|a: AttrValue| spec_attr_string(a)->0))
    } else {
        None
    }
}

/// Reading the files of a line program with `ndirs` directories: a
/// directory index past them cannot be read; a name that cannot be read is
/// an error.
pub open spec fn spec_files(files: Seq<(u64, AttrValue)>, ndirs: nat) -> Scan<()>
    decreases files.len(),
{
    if files.len() == 0 {
        Scan::Done(())
    } else if files[0].0 >= ndirs {
        Scan::Crash
    } else if spec_attr_string(files[0].1) is None {
        Scan::Fail(DwarfError::BadString)
    } else {
        spec_files(files.drop_first(), ndirs)
    }
}

/// Reading a unit's line program.
pub open spec fn spec_lines(lines: Option<LineProgram>) -> Scan<()> {
    match lines {
        None => Scan::Fail(DwarfError::NoLineProgram),
        Some(p) => match spec_dirs(p) {
            None => Scan::Crash,
            Some(d) => spec_files(p.file_names@, d.len()),
        },
    }
}

/// A unit's line table as read from its program: the first file's index,
/// one path per file, and the rows sorted by address, a later row at an
/// address over an earlier one.
/// Where the path of a file can be told on every platform (its directory and
/// the compilation directory without `\`, its name a plain component): the
/// path ends with the file's name adjoined to the file's own directory, the
/// one at its directory index.
pub open spec fn path_in_dir(path: Seq<char>, dirs: Option<Seq<Seq<char>>>, file: (u64, AttrValue), comp_dir: Option<String>) -> bool {
    match (dirs, spec_attr_string(file.1)) {
        (Some(d), Some(name)) => ((file.0 as int) < d.len() && !has_backslash(d[file.0 as int]) && plain_component(name)
            && (comp_dir matches Some(c) ==> !has_backslash(c@)))
            ==> exists|sep: Seq<char>| sep.len() <= 1 && ends_with(path, #[trigger] adjoined(d[file.0 as int], sep, name)),
        _ => true,
    }
}

/// Each file's path is joined onto its own directory.
pub open spec fn paths_in_dirs(m: DwarfUnitSourceMap, p: LineProgram, comp_dir: Option<String>) -> bool {
    forall|k: int| 0 <= k < p.file_names@.len() && k < m.paths@.len()
        ==> path_in_dir(#[trigger] m.paths@[k]@, spec_dirs(p), p.file_names@[k], comp_dir)
}

pub open spec fn line_map_of(m: DwarfUnitSourceMap, p: LineProgram) -> bool {
    &&& m.sequence_base_index == base_index(p)
    &&& m.paths@.len() == p.file_names@.len()
    &&& merged(m.address_sorted_rows@, p.rows@)
}

/// Every row of the program names one of its files.
pub open spec fn rows_name_files(p: LineProgram) -> bool {
    forall|k: int| 0 <= k < p.rows@.len() ==>
        base_index(p) <= (#[trigger] p.rows@[k]).1.file_index < base_index(p) + p.file_names@.len()
}

fn read_dirs(p: &LineProgram) -> (r: Vec<String>)
    requires
        spec_dirs(*p) is Some,
    ensures
        r@.map_values(|x: String| x@) == spec_dirs(*p)->0,
{
    let mut dirs: Vec<String> = Vec::new();
    if p.version <= 4 {
        dirs.push("./".to_owned());
    }
    let ghost base = dirs@.map_values(|x: String| x@);
    proof {
        reveal_strlit("./");
        if p.version <= 4 {
            assert(base =~= seq!["./"@]);
        } else {
            assert(base =~= Seq::<Seq<char>>::empty());
        }
    }
    let mut k: usize = 0;
    while k < p.include_directories.len()
        invariant
            k <= p.include_directories@.len(),
            spec_dirs(*p) is Some,
            dirs@.map_values(|x: String| x@) == base
                + p.include_directories@.subrange(0, k as int).map_values(|a: AttrValue| spec_attr_string(a)->0),
        decreases p.include_directories@.len() - k,
    {
        proof { assert(spec_attr_string(p.include_directories@[k as int]) is Some); }
        let d = match clone_string_attribute(&p.include_directories[k]) {
            Some(d) => d,
            None => String::new(),
        };
        let ghost before = dirs@.map_values(|x: String| x@);
        dirs.push(d);
        proof {
            assert(dirs@.map_values(|x: String| x@) =~= before.push(d@));
            assert(p.include_directories@.subrange(0, k + 1).map_values(|a: AttrValue| spec_attr_string(a)->0)
                =~= p.include_directories@.subrange(0, k as int).map_values(|a: AttrValue| spec_attr_string(a)->0)
                    .push(spec_attr_string(p.include_directories@[k as int])->0));
        }
        k = k + 1;
    }
    proof { assert(p.include_directories@.subrange(0, k as int) =~= p.include_directories@); }
    dirs
}

/// Reads a unit's line table from its line program: the files, each joined
/// onto its directory and, when that is not absolute, onto the compilation
/// directory; and the rows sorted by address.
pub fn transform_debug_line(lines: &Option<LineProgram>, comp_dir: &Option<String>) -> (r: Result<DwarfUnitSourceMap, DwarfError>)
    requires
        !(spec_lines(*lines) is Crash),
    ensures
        match spec_lines(*lines) {
            Scan::Done(_) => r matches Ok(m) && line_map_of(m, lines->0) && paths_in_dirs(m, lines->0, *comp_dir),
            Scan::Fail(e) => r matches Err(x) && x == e,
            Scan::Crash => true,
        },
{
    let p = match lines {
        Some(p) => p,
        None => return Err(DwarfError::NoLineProgram),
    };
    let sequence_base_index: usize = if p.version <= 4 { 1 } else { 0 };
    let dirs = read_dirs(p);
    let ghost d = spec_dirs(*p)->0;
    let n = p.file_names.len();
    let mut paths: Vec<String> = Vec::new();
    let mut k: usize = 0;
    proof { assert(p.file_names@.subrange(0, n as int) =~= p.file_names@); }
    while k < n
        invariant
            n == p.file_names@.len(),
            k <= n,
            d == spec_dirs(*p)->0,
            dirs@.len() == d.len(),
            paths@.len() == k,
            lines == Some(*p),
            dirs@.map_values(|x: String| x@) == d,
            spec_dirs(*p) is Some,
            forall|j: int| 0 <= j < k ==> path_in_dir(#[trigger] paths@[j]@, spec_dirs(*p), p.file_names@[j], *comp_dir),
            spec_lines(*lines) == spec_files(p.file_names@.subrange(k as int, n as int), d.len()),
            spec_lines(*lines) == spec_files(p.file_names@, d.len()),
            !(spec_lines(*lines) is Crash),
        decreases n - k,
    {
        let ghost t = p.file_names@.subrange(k as int, n as int);
        proof {
            assert(t[0] == p.file_names@[k as int]);
            assert(t.drop_first() =~= p.file_names@.subrange(k + 1, n as int));
        }
        let (dir_index, name_attr) = (&p.file_names[k].0, &p.file_names[k].1);
        let i = *dir_index as usize;
        if *dir_index >= dirs.len() as u64 {
            return Err(DwarfError::BadString);
        }
        let name = match clone_string_attribute(name_attr) {
            Some(s) => s,
            None => return Err(DwarfError::BadString),
        };
        let mut path = path_join(dirs[i].as_str(), name.as_str());
        let ghost inner = path@;
        proof { assert(dirs@[i as int]@ == d[i as int]); }
        proof { assert(inner.subrange(0, inner.len() as int) =~= inner); }
        if !path_is_absolute(path.as_str()) {
            match comp_dir {
                Some(c) => {
                    path = path_join(c.as_str(), path.as_str());
                    proof { assert(!has_backslash(c@) ==> ends_with(path@, inner)); }
                },
                None => {},
            }
        }
        proof {
            let fk = p.file_names@[k as int];
            let ghost cd = *comp_dir;
            if !has_backslash(d[i as int]) && plain_component(name@) && (cd matches Some(c) ==> !has_backslash(c@)) {
                let sep = choose|sep: Seq<char>| sep.len() <= 1 && inner == #[trigger] adjoined(d[i as int], sep, name@);
                assert(ends_with(path@, inner));
                assert(path@.subrange(path@.len() - inner.len(), path@.len() as int) == inner);
                assert(ends_with(path@, adjoined(d[i as int], sep, name@)));
            }
            assert(path_in_dir(path@, spec_dirs(*p), fk, *comp_dir));
        }
        let ghost before = paths@;
        paths.push(path);
        proof {
            assert forall|j: int| 0 <= j < k + 1 implies path_in_dir(#[trigger] paths@[j]@, spec_dirs(*p), p.file_names@[j], *comp_dir) by {
                if j < k {
                    assert(paths@[j] == before[j]);
                }
            }
        }
        k = k + 1;
    }
    let mut rows: Vec<(u64, LineRow)> = Vec::new();
    let mut j: usize = 0;
    proof { assert(p.rows@.subrange(0, 0) =~= Seq::<(u64, LineRow)>::empty()); }
    while j < p.rows.len()
        invariant
            j <= p.rows@.len(),
            merged(rows@, p.rows@.subrange(0, j as int)),
        decreases p.rows@.len() - j,
    {
        let (addr, row) = p.rows[j];
        proof { assert(p.rows@.subrange(0, j + 1) =~= p.rows@.subrange(0, j as int).push((addr, row))); }
        insert_line_row(&mut rows, addr, row, Ghost(p.rows@.subrange(0, j as int)));
        j = j + 1;
    }
    proof { assert(p.rows@.subrange(0, j as int) =~= p.rows@); }
    Ok(DwarfUnitSourceMap { address_sorted_rows: rows, paths, sequence_base_index })
}

/// Reading one unit: its line table, then its subroutines, then its types
/// into the table `types`.
pub open spec fn spec_unit(u: UnitInput, types: Map<usize, TypeView>) -> Scan<(Seq<SubroutineView>, Map<usize, TypeView>)> {
    match spec_lines(u.lines) {
        Scan::Crash => Scan::Crash,
        Scan::Fail(e) => Scan::Fail(e),
        Scan::Done(_) => match spec_subprograms(u.entries.root, u.entries.encoding, u.entries.offset) {
            Scan::Crash => Scan::Crash,
            Scan::Fail(e) => Scan::Fail(e),
            Scan::Done(subs) => match spec_types(u.entries.root, types) {
                Scan::Crash => Scan::Crash,
                Scan::Fail(e) => Scan::Fail(e),
                Scan::Done(t) => Scan::Done((subs, t)),
            },
        },
    }
}

/// Reading the units in order: their subroutines one after another, and
/// their types into one table.
pub open spec fn spec_dwarf(units: Seq<UnitInput>, types: Map<usize, TypeView>) -> Scan<(Seq<SubroutineView>, Map<usize, TypeView>)>
    decreases units.len(),
{
    if units.len() == 0 {
        Scan::Done((Seq::empty(), types))
    } else {
        match spec_unit(units[0], types) {
            Scan::Done((s, t)) => match spec_dwarf(units.drop_first(), t) {
                Scan::Done((s2, t2)) => Scan::Done((s + s2, t2)),
                other => other,
            },
            other => other,
        }
    }
}

/// Every unit's line rows name its files.
pub open spec fn units_rows_ok(units: Seq<UnitInput>) -> bool {
    forall|k: int| 0 <= k < units.len() ==> match (#[trigger] units[k]).lines {
        Some(p) => rows_name_files(p),
        None => true,
    }
}

/// Reads the debug information of a module from its units: the line tables
/// merged into one source map, the subroutines of all units in order, and
/// their types.
pub fn transform_dwarf(units: Vec<UnitInput>) -> (r: Result<DwarfDebugInfo, DwarfError>)
    requires
        !(spec_dwarf(units@, Map::empty()) is Crash),
        units_rows_ok(units@),
    ensures
        match spec_dwarf(units@, Map::empty()) {
            Scan::Done((subs, types)) => r matches Ok(info) && views(info.subroutine.subroutines@) == subs
                && table_view(info.subroutine.type_hash@) == types
                && info.subroutine.units@ == units@.map_values(|u: UnitInput| u.entries)
                && exists|maps: Seq<DwarfUnitSourceMap>| #![trigger unit_entries(maps)]
                    maps.len() == units@.len()
                    && (forall|k: int| 0 <= k < maps.len() ==> line_map_of(#[trigger] maps[k], units@[k].lines->0))
                    && merged(info.sourcemap.spec_rows(), unit_entries(maps)),
            Scan::Fail(e) => r matches Err(x) && x == e,
            Scan::Crash => true,
        },
{
    let ghost all = units@;
    let count = units.len();
    assert(all.len() == count);
    let mut rev: Vec<UnitInput> = Vec::new();
    let mut pending = units;
    while pending.len() > 0
        invariant
            all == pending@ + rev@.reverse(),
            all == units@,
            all.len() <= usize::MAX,
        decreases pending@.len(),
    {
        let u = pending.pop().unwrap();
        proof {
            assert(all =~= pending@ + rev@.push(u).reverse());
        }
        rev.push(u);
    }
    proof { assert(all =~= rev@.reverse()); assert(rev@.len() == all.len()); }
    let mut maps: Vec<DwarfUnitSourceMap> = Vec::new();
    let mut subroutines: Vec<Subroutine> = Vec::new();
    let mut entries: Vec<UnitEntries> = Vec::new();
    let mut types: HashMap<usize, TypeInfo> = HashMap::new();
    let ghost mut acc: Seq<SubroutineView> = Seq::empty();
    let mut done: usize = 0;
    proof {
        assert(views(subroutines@) =~= Seq::<SubroutineView>::empty());
        assert(table_view(types@) =~= Map::<usize, TypeView>::empty());
        assert(all.subrange(0, 0) =~= Seq::<UnitInput>::empty());
        assert(all.subrange(0, all.len() as int) =~= all);
    }
    while rev.len() > 0
        invariant
            all == all.subrange(0, done as int) + rev@.reverse(),
            done <= all.len(),
            done + rev@.len() == all.len(),
            all.len() <= usize::MAX,
            all == units@,
            units_rows_ok(all),
            !(spec_dwarf(all, Map::empty()) is Crash),
            spec_dwarf(all, Map::empty()) == match spec_dwarf(all.subrange(done as int, all.len() as int), table_view(types@)) {
                Scan::Done((s2, t2)) => Scan::Done((views(subroutines@) + s2, t2)),
                other => other,
            },
            entries@ == all.subrange(0, done as int).map_values(|u: UnitInput| u.entries),
            maps@.len() == done,
            forall|k: int| 0 <= k < done ==> line_map_of(#[trigger] maps@[k], all[k].lines->0),
            forall|k: int| 0 <= k < done ==> (#[trigger] maps@[k]).wf(),
        decreases rev@.len(),
    {
        let u = rev.pop().unwrap();
        let ghost rest = all.subrange(done + 1, all.len() as int);
        proof {
            assert(all[done as int] == u);
            let sfx = all.subrange(done as int, all.len() as int);
            assert(sfx[0] == u);
            assert(sfx.drop_first() =~= rest);
            assert(all.subrange(0, done + 1) =~= all.subrange(0, done as int).push(u));
        }
        let map = match transform_debug_line(&u.lines, &u.comp_dir) {
            Ok(m) => m,
            Err(e) => {
                proof {
                    let sfx = all.subrange(done as int, all.len() as int);
                    assert(spec_lines(u.lines) == Scan::<()>::Fail(e));
                    assert(spec_unit(u, table_view(types@)) == Scan::<(Seq<SubroutineView>, Map<usize, TypeView>)>::Fail(e));
                    assert(spec_dwarf(sfx, table_view(types@)) == Scan::<(Seq<SubroutineView>, Map<usize, TypeView>)>::Fail(e));
                }
                return Err(e);
            },
        };
        let subs = match transform_subprogram(&u.entries.root, u.entries.encoding, u.entries.offset) {
            Ok(s) => s,
            Err(e) => return Err(e),
        };
        let ghost t_before = table_view(types@);
        match get_types(&u.entries.root, &mut types) {
            Ok(()) => {},
            Err(e) => return Err(e),
        }
        let ghost before = views(subroutines@);
        let mut subs = subs;
        let ghost added = views(subs@);
        let mut rev_subs: Vec<Subroutine> = Vec::new();
        while subs.len() > 0
            invariant
                added == views(subs@) + views(rev_subs@).reverse(),
            decreases subs@.len(),
        {
            let s = subs.pop().unwrap();
            proof {
                assert(views(subs@.push(s)) =~= views(subs@).push(s@));
                assert(views(rev_subs@.push(s)) =~= views(rev_subs@).push(s@));
                assert(added =~= views(subs@) + views(rev_subs@.push(s)).reverse());
            }
            rev_subs.push(s);
        }
        proof { assert(added =~= views(rev_subs@).reverse()); }
        let ghost start = views(subroutines@);
        while rev_subs.len() > 0
            invariant
                views(subroutines@) + views(rev_subs@).reverse() == start + added,
            decreases rev_subs@.len(),
        {
            let s = rev_subs.pop().unwrap();
            proof {
                assert(views(rev_subs@.push(s)) =~= views(rev_subs@).push(s@));
                assert(views(subroutines@.push(s)) =~= views(subroutines@).push(s@));
                assert(views(subroutines@).push(s@) + views(rev_subs@).reverse() =~= views(subroutines@) + views(rev_subs@).push(s@).reverse());
            }
            subroutines.push(s);
        }
        proof { assert(views(subroutines@) =~= start + added); }
        proof {
            assert(units_rows_ok(all));
            let k = done as int;
            assert(match all[k].lines { Some(p) => rows_name_files(p), None => true });
            let p = u.lines->0;
            assert forall|i: int| 0 <= i < map.address_sorted_rows@.len() implies map.row_ok(#[trigger] map.address_sorted_rows@[i].1) by {
                let a = map.address_sorted_rows@[i].0;
                assert(crate::debugger::dwarf::last_at(p.rows@, a) == Some(map.address_sorted_rows@[i].1));
                lemma_last_at_in(p.rows@, a);
            }
            let sfx = all.subrange(done as int, all.len() as int);
            match spec_dwarf(rest, table_view(types@)) {
                Scan::Done((s2, t2)) => {
                    assert(before + (added + s2) =~= (before + added) + s2);
                },
                _ => {},
            }
        }
        maps.push(map);
        entries.push(u.entries);
        proof {
            assert(entries@ =~= all.subrange(0, done + 1).map_values(|x: UnitInput| x.entries));
        }
        done = done + 1;
    }
    proof {
        assert(all.subrange(done as int, all.len() as int) =~= Seq::<UnitInput>::empty());
        assert(all.subrange(0, done as int) =~= all);
        assert(views(subroutines@) + Seq::<SubroutineView>::empty() =~= views(subroutines@));
    }
    let sourcemap = DwarfSourceMap::new(maps);
    Ok(DwarfDebugInfo {
        sourcemap,
        subroutine: DwarfSubroutineMap { subroutines, units: entries, type_hash: types },
    })
}

/// A unit's line table read from a program whose rows name its files has
/// rows that each name one of its paths.
pub(crate) proof fn lemma_map_wf(map: DwarfUnitSourceMap, p: LineProgram)
    requires
        line_map_of(map, p),
        rows_name_files(p),
    ensures
        map.wf(),
{
    assert forall|i: int| 0 <= i < map.address_sorted_rows@.len() implies map.row_ok(#[trigger] map.address_sorted_rows@[i].1) by {
        let a = map.address_sorted_rows@[i].0;
        assert(crate::debugger::dwarf::last_at(p.rows@, a) == Some(map.address_sorted_rows@[i].1));
        lemma_last_at_in(p.rows@, a);
    }
}

/// The value last set at an address is one of the values set.
proof fn lemma_last_at_in(rows: Seq<(u64, LineRow)>, a: u64)
    requires
        crate::debugger::dwarf::last_at(rows, a) is Some,
    ensures
        exists|k: int| 0 <= k < rows.len() && rows[k] == (a, crate::debugger::dwarf::last_at(rows, a)->0),
    decreases rows.len(),
{
    if rows.last().0 == a {
        assert(rows[rows.len() - 1] == (a, rows.last().1));
    } else {
        lemma_last_at_in(rows.drop_last(), a);
        let k = choose|k: int| 0 <= k < rows.drop_last().len() && rows.drop_last()[k] == (a, crate::debugger::dwarf::last_at(rows.drop_last(), a)->0);
        assert(rows[k] == rows.drop_last()[k]);
    }
}

} // verus!
