//! Whether the units of a module can be read through: a dry run of the
//! reading that says where it would stop, without building anything.

use vstd::prelude::*;
use crate::cli::dwarf::types::{
    opt_name, read_node_type, spec_member, spec_node_type, spec_type_children, spec_types, type_ref, TypeView,
};
use crate::debugger::die::{
    attr_value, clone_string_attribute, spec_attr_string, AttrValue, Die, DwarfEncoding, DW_AT_DATA_MEMBER_LOCATION,
    DW_AT_FRAME_BASE, DW_AT_HIGH_PC, DW_AT_LOW_PC, DW_TAG_FORMAL_PARAMETER, DW_TAG_LEXICAL_BLOCK, DW_TAG_MEMBER,
    DW_TAG_SUBPROGRAM, DW_TAG_VARIABLE,
};
use crate::debugger::dwarf::DwarfError;
use crate::debugger::transform::{
    base_index, rows_name_files, spec_dirs, spec_dwarf, spec_files, spec_lines, spec_unit, units_rows_ok, LineProgram,
    UnitInput,
};
use crate::debugger::dwarf::DwarfSubroutineMap;
use crate::debugger::transform::{line_map_of, transform_dwarf};
use crate::debugger::dwarf::{merged, unit_entries, DwarfUnitSourceMap};
use crate::cli::dwarf::types::table_view;
use crate::debugger::variables::views;
use crate::debugger::DwarfDebugInfo;
use crate::cli::dwarf::subroutine::{spec_visit, spec_walk_list, spec_walk_node, WalkView};
use crate::cli::dwarf::transform::{spec_cli_dwarf, spec_cli_unit};
use crate::debugger::die::{find_die, DW_AT_CONST_VALUE, DW_AT_LOCATION};
use crate::debugger::variables::{
    const_bytes, find_named, header_from_offset, lemma_first_containing, read_name, spec_header,
    spec_scope_variables, spec_subprograms, spec_subprograms_list, spec_variable, spec_variable_readable,
    spec_variables, subroutine_variables, var_views, wasm_location_of, Scan, VariableContent,
};

verus! {

/// How a reading ends, without what it read.
pub open spec fn erase<T>(s: Scan<T>) -> Scan<()> {
    match s {
        Scan::Done(_) => Scan::Done(()),
        Scan::Fail(e) => Scan::Fail(e),
        Scan::Crash => Scan::Crash,
    }
}

/// How reading the header of a subroutine entry ends.
fn header_scan(node: &Die, enc: DwarfEncoding, unit_offset: usize) -> (r: Scan<()>)
    ensures
        r == erase(spec_header(*node, enc, unit_offset)),
{
    if node.tag != DW_TAG_SUBPROGRAM && node.tag != DW_TAG_LEXICAL_BLOCK {
        return Scan::Done(());
    }
    match read_name(node) {
        Ok(_) => {},
        Err(e) => return Scan::Fail(e),
    }
    let low = match attr_value(node, DW_AT_LOW_PC) {
        Some(AttrValue::Addr(l)) => *l,
        _ => return Scan::Done(()),
    };
    match attr_value(node, DW_AT_HIGH_PC) {
        Some(AttrValue::Udata(size)) => {
            if *size > u64::MAX - low {
                return Scan::Crash;
            }
        },
        Some(AttrValue::Addr(_)) => {},
        Some(_) => return Scan::Crash,
        None => return Scan::Done(()),
    }
    match attr_value(node, DW_AT_FRAME_BASE) {
        Some(a) => match wasm_location_of(a) {
            Ok(_) => Scan::Done(()),
            Err(e) => Scan::Fail(e),
        },
        None => Scan::Done(()),
    }
}

/// How reading the subroutines of the tree of `node` ends.
fn subprograms_scan(node: &Die, enc: DwarfEncoding, unit_offset: usize) -> (r: Scan<()>)
    ensures
        r == erase(spec_subprograms(*node, enc, unit_offset)),
    decreases node, 1nat,
{
    match header_scan(node, enc, unit_offset) {
        Scan::Done(()) => {},
        Scan::Fail(e) => return Scan::Fail(e),
        Scan::Crash => return Scan::Crash,
    }
    subprograms_list_scan(&node.children, enc, unit_offset)
}

/// How reading the subroutines of the trees of `nodes` ends.
fn subprograms_list_scan(nodes: &Vec<Die>, enc: DwarfEncoding, unit_offset: usize) -> (r: Scan<()>)
    ensures
        r == erase(spec_subprograms_list(nodes@, enc, unit_offset)),
    decreases nodes@, 0nat,
{
    let n = nodes.len();
    let mut i: usize = 0;
    proof { assert(nodes@.subrange(0, n as int) =~= nodes@); }
    while i < n
        invariant
            n == nodes@.len(),
            i <= n,
            erase(spec_subprograms_list(nodes@, enc, unit_offset))
                == erase(spec_subprograms_list(nodes@.subrange(i as int, n as int), enc, unit_offset)),
        decreases n - i,
    {
        let ghost suffix = nodes@.subrange(i as int, n as int);
        proof {
            assert(suffix[0] == nodes@[i as int]);
            assert(suffix.subrange(1, suffix.len() as int) =~= nodes@.subrange(i + 1, n as int));
        }
        let node = &nodes[i];
        if node.tag != DW_TAG_VARIABLE && node.tag != DW_TAG_FORMAL_PARAMETER {
            match subprograms_scan(node, enc, unit_offset) {
                Scan::Done(()) => {},
                Scan::Fail(e) => return Scan::Fail(e),
                Scan::Crash => return Scan::Crash,
            }
        }
        i = i + 1;
    }
    proof { assert(nodes@.subrange(n as int, n as int) =~= Seq::<Die>::empty()); }
    Scan::Done(())
}

/// How reading the type of one entry ends.
fn node_type_scan(node: &Die) -> (r: Scan<()>)
    ensures
        r == erase(spec_node_type(*node)),
{
    if node.tag == DW_TAG_MEMBER {
        return Scan::Crash;
    }
    match read_node_type(node) {
        Ok(_) => Scan::Done(()),
        Err(e) => Scan::Fail(e),
    }
}

/// How reading a member ends.
fn member_scan(node: &Die) -> (r: Scan<()>)
    ensures
        r == erase(spec_member(*node)),
{
    match opt_name(node) {
        Ok(_) => {},
        Err(e) => return Scan::Fail(e),
    }
    if type_ref(node).is_none() {
        return Scan::Fail(DwarfError::NoMemberType);
    }
    match attr_value(node, DW_AT_DATA_MEMBER_LOCATION) {
        None => Scan::Done(()),
        Some(AttrValue::Udata(_)) => Scan::Done(()),
        Some(AttrValue::Exprloc(_)) => Scan::Done(()),
        Some(_) => Scan::Crash,
    }
}

/// How reading the types of the tree of `node` into the table `t` ends.
fn types_scan(node: &Die, Ghost(t): Ghost<Map<usize, TypeView>>) -> (r: Scan<()>)
    ensures
        r == erase(spec_types(*node, t)),
    decreases node, 1nat,
{
    match node_type_scan(node) {
        Scan::Done(()) => {},
        Scan::Fail(e) => return Scan::Fail(e),
        Scan::Crash => return Scan::Crash,
    }
    type_children_scan(&node.children, Ghost(t))
}

/// How reading the types of the trees of `nodes` into the table `t` ends.
fn type_children_scan(nodes: &Vec<Die>, Ghost(t): Ghost<Map<usize, TypeView>>) -> (r: Scan<()>)
    ensures
        r == erase(spec_type_children(nodes@, t)),
    decreases nodes@, 0nat,
{
    let n = nodes.len();
    let mut i: usize = 0;
    let ghost mut cur = t;
    proof { assert(nodes@.subrange(0, n as int) =~= nodes@); }
    while i < n
        invariant
            n == nodes@.len(),
            i <= n,
            erase(spec_type_children(nodes@, t)) == erase(spec_type_children(nodes@.subrange(i as int, n as int), cur)),
        decreases n - i,
    {
        let ghost suffix = nodes@.subrange(i as int, n as int);
        proof {
            assert(suffix[0] == nodes@[i as int]);
            assert(suffix.subrange(1, suffix.len() as int) =~= nodes@.subrange(i + 1, n as int));
        }
        let child = &nodes[i];
        if child.tag == DW_TAG_MEMBER {
            match member_scan(child) {
                Scan::Done(()) => {},
                Scan::Fail(e) => return Scan::Fail(e),
                Scan::Crash => return Scan::Crash,
            }
        } else {
            match types_scan(child, Ghost(cur)) {
                Scan::Done(()) => {},
                Scan::Fail(e) => return Scan::Fail(e),
                Scan::Crash => return Scan::Crash,
            }
            proof {
                cur = spec_types(*child, cur)->Done_0;
            }
        }
        i = i + 1;
    }
    proof { assert(nodes@.subrange(n as int, n as int) =~= Seq::<Die>::empty()); }
    Scan::Done(())
}

/// How reading a unit's line program ends.
fn lines_scan(lines: &Option<LineProgram>) -> (r: Scan<()>)
    ensures
        r == erase(spec_lines(*lines)),
{
    let p = match lines {
        Some(p) => p,
        None => return Scan::Fail(DwarfError::NoLineProgram),
    };
    let mut k: usize = 0;
    while k < p.include_directories.len()
        invariant
            *lines == Some(*p),
            k <= p.include_directories@.len(),
            forall|j: int| 0 <= j < k ==> (#[trigger] spec_attr_string(p.include_directories@[j])) is Some,
        decreases p.include_directories@.len() - k,
    {
        if clone_string_attribute(&p.include_directories[k]).is_none() {
            proof {
                assert(!(spec_attr_string(p.include_directories@[k as int]) is Some));
                assert(spec_dirs(*p) is None);
            }
            return Scan::Crash;
        }
        k = k + 1;
    }
    proof { assert(spec_dirs(*p) is Some); }
    let extra: u64 = if p.version <= 4 { 1 } else { 0 };
    let ndirs = p.include_directories.len() as u64;
    let ghost nd: nat = spec_dirs(*p)->0.len();
    proof { assert(nd == extra + ndirs); }
    let files = &p.file_names;
    let n = files.len();
    let mut i: usize = 0;
    proof { assert(files@.subrange(0, n as int) =~= files@); }
    while i < n
        invariant
            n == files@.len(),
            i <= n,
            nd == extra + ndirs,
            *lines == Some(*p),
            spec_dirs(*p) is Some,
            nd == spec_dirs(*p)->0.len(),
            files == &p.file_names,
            spec_files(files@, nd) == spec_files(files@.subrange(i as int, n as int), nd),
        decreases n - i,
    {
        let ghost suffix = files@.subrange(i as int, n as int);
        proof {
            assert(suffix[0] == files@[i as int]);
            assert(suffix.drop_first() =~= files@.subrange(i + 1, n as int));
        }
        let (dir, name) = &files[i];
        if *dir >= extra && *dir - extra >= ndirs {
            return Scan::Crash;
        }
        if clone_string_attribute(name).is_none() {
            return Scan::Fail(DwarfError::BadString);
        }
        i = i + 1;
    }
    proof { assert(files@.subrange(n as int, n as int) =~= Seq::<(u64, AttrValue)>::empty()); }
    Scan::Done(())
}

/// How reading one unit into the type table `t` ends.
fn unit_scan(u: &UnitInput, Ghost(t): Ghost<Map<usize, TypeView>>) -> (r: Scan<()>)
    ensures
        r == erase(spec_unit(*u, t)),
{
    match lines_scan(&u.lines) {
        Scan::Done(()) => {},
        Scan::Fail(e) => return Scan::Fail(e),
        Scan::Crash => return Scan::Crash,
    }
    match subprograms_scan(&u.entries.root, u.entries.encoding, u.entries.offset) {
        Scan::Done(()) => {},
        Scan::Fail(e) => return Scan::Fail(e),
        Scan::Crash => return Scan::Crash,
    }
    types_scan(&u.entries.root, Ghost(t))
}

/// How reading all the units ends: done, the error it stops with, or an
/// input it cannot go on with.
pub fn dwarf_scan(units: &Vec<UnitInput>) -> (r: Scan<()>)
    ensures
        r == erase(spec_dwarf(units@, Map::empty())),
{
    let n = units.len();
    let mut i: usize = 0;
    let ghost mut cur: Map<usize, TypeView> = Map::empty();
    proof { assert(units@.subrange(0, n as int) =~= units@); }
    while i < n
        invariant
            n == units@.len(),
            i <= n,
            erase(spec_dwarf(units@, Map::empty())) == erase(spec_dwarf(units@.subrange(i as int, n as int), cur)),
        decreases n - i,
    {
        let ghost suffix = units@.subrange(i as int, n as int);
        proof {
            assert(suffix[0] == units@[i as int]);
            assert(suffix.drop_first() =~= units@.subrange(i + 1, n as int));
        }
        match unit_scan(&units[i], Ghost(cur)) {
            Scan::Done(()) => {},
            Scan::Fail(e) => return Scan::Fail(e),
            Scan::Crash => return Scan::Crash,
        }
        proof {
            cur = spec_unit(units@[i as int], cur)->Done_0.1;
        }
        i = i + 1;
    }
    proof { assert(units@.subrange(n as int, n as int) =~= Seq::<UnitInput>::empty()); }
    Scan::Done(())
}

/// Whether every row of every unit's line table names one of its files.
pub fn rows_name_their_files(units: &Vec<UnitInput>) -> (r: bool)
    ensures
        r == units_rows_ok(units@),
{
    let mut k: usize = 0;
    while k < units.len()
        invariant
            k <= units@.len(),
            forall|j: int| 0 <= j < k ==> match (#[trigger] units@[j]).lines {
                Some(p) => rows_name_files(p),
                None => true,
            },
        decreases units@.len() - k,
    {
        match &units[k].lines {
            None => {},
            Some(p) => {
                let base: u64 = if p.version <= 4 { 1 } else { 0 };
                let count = p.file_names.len() as u64;
                let mut i: usize = 0;
                while i < p.rows.len()
                    invariant
                        k < units@.len(),
                        units@[k as int].lines == Some(*p),
                        i <= p.rows@.len(),
                        base == base_index(*p),
                        count == p.file_names@.len(),
                        forall|j: int| 0 <= j < i ==>
                            base_index(*p) <= (#[trigger] p.rows@[j]).1.file_index < base_index(*p) + p.file_names@.len(),
                    decreases p.rows@.len() - i,
                {
                    let f = p.rows[i].1.file_index;
                    if f < base || f - base >= count {
                        proof { assert(!rows_name_files(*p)); }
                        return false;
                    }
                    i = i + 1;
                }
            },
        }
        k = k + 1;
    }
    true
}

/// Whether `transform_dwarf` can read the units: the reading does not stop
/// on an input it cannot go on with, and the rows name their files.
pub fn dwarf_readable(units: &Vec<UnitInput>) -> (r: bool)
    ensures
        r == (!(spec_dwarf(units@, Map::empty()) is Crash) && units_rows_ok(units@)),
{
    let s = dwarf_scan(units);
    !matches!(s, Scan::Crash) && rows_name_their_files(units)
}

/// How reading a variable entry ends.
fn variable_scan(d: &Die) -> (r: Scan<()>)
    ensures
        r == erase(spec_variable(*d)),
{
    match attr_value(d, DW_AT_LOCATION) {
        Some(_) => {},
        None => match attr_value(d, DW_AT_CONST_VALUE) {
            None => {},
            Some(c) => {
                if const_bytes(c).is_none() {
                    return Scan::Crash;
                }
            },
        },
    }
    match read_name(d) {
        Ok(_) => Scan::Done(()),
        Err(e) => Scan::Fail(e),
    }
}

/// How reading the variables among `nodes` ends.
fn variables_scan(nodes: &Vec<Die>) -> (r: Scan<()>)
    ensures
        r == erase(spec_variables(nodes@)),
{
    let n = nodes.len();
    let mut i: usize = 0;
    proof { assert(nodes@.subrange(0, n as int) =~= nodes@); }
    while i < n
        invariant
            n == nodes@.len(),
            i <= n,
            erase(spec_variables(nodes@)) == erase(spec_variables(nodes@.subrange(i as int, n as int))),
        decreases n - i,
    {
        let ghost suffix = nodes@.subrange(i as int, n as int);
        proof {
            assert(suffix[0] == nodes@[i as int]);
            assert(suffix.subrange(1, suffix.len() as int) =~= nodes@.subrange(i + 1, n as int));
        }
        let node = &nodes[i];
        if node.tag == DW_TAG_VARIABLE || node.tag == DW_TAG_FORMAL_PARAMETER {
            match variable_scan(node) {
                Scan::Done(()) => {},
                Scan::Fail(e) => return Scan::Fail(e),
                Scan::Crash => return Scan::Crash,
            }
        }
        i = i + 1;
    }
    proof { assert(nodes@.subrange(n as int, n as int) =~= Seq::<Die>::empty()); }
    Scan::Done(())
}

impl DwarfSubroutineMap {
    /// Whether the variables of the subroutine holding `code_offset` can be
    /// read through, so that `variable_name_list` may be asked for them.
    pub fn scope_readable(&self, code_offset: usize) -> (r: bool)
        ensures
            r == !(spec_scope_variables(*self, code_offset) matches Some(Scan::Crash)),
    {
        let i = self.find_subroutine(code_offset);
        proof { lemma_first_containing(self.subroutines@, code_offset as u64, i); }
        let sub = match i {
            Some(i) => &self.subroutines[i],
            None => return true,
        };
        let u = match header_from_offset(&self.units, sub.unit_offset) {
            Some(u) => u,
            None => return true,
        };
        let root = &self.units[u].root;
        match find_die(root, sub.entry_offset) {
            None => true,
            Some(d) => !matches!(variables_scan(&d.children), Scan::Crash),
        }
    }

    /// Whether the variable `name` of the subroutine holding `code_offset`
    /// can be shown, so that `display_variable` may be asked for it.
    pub fn variable_readable(&self, code_offset: usize, name: &str) -> (r: bool)
        ensures
            r == spec_variable_readable(*self, code_offset, name@),
    {
        let i = self.find_subroutine(code_offset);
        proof { lemma_first_containing(self.subroutines@, code_offset as u64, i); }
        let sub = match i {
            Some(i) => &self.subroutines[i],
            None => return true,
        };
        let u = match header_from_offset(&self.units, sub.unit_offset) {
            Some(u) => u,
            None => return true,
        };
        let root = &self.units[u].root;
        let d = match find_die(root, sub.entry_offset) {
            None => return true,
            Some(d) => d,
        };
        match variables_scan(&d.children) {
            Scan::Crash => false,
            Scan::Fail(_) => true,
            Scan::Done(()) => {
                let vars = match subroutine_variables(root, sub.entry_offset) {
                    Ok(v) => v,
                    Err(_) => return true,
                };
                match find_named(&vars, name) {
                    None => true,
                    Some(k) => {
                        proof { assert(var_views(vars@)[k as int] == vars@[k as int]@); }
                        matches!(&vars[k].content, VariableContent::Location(AttrValue::Exprloc(_)))
                    },
                }
            },
        }
    }
}

/// How visiting an entry in the command-line debugger's walk ends.
fn visit_scan(d: &Die, Ghost(st): Ghost<WalkView>, enc: DwarfEncoding) -> (r: Scan<()>)
    ensures
        r == erase(spec_visit(st, *d, enc)),
{
    if d.tag == DW_TAG_SUBPROGRAM {
        match read_name(d) {
            Ok(_) => {},
            Err(e) => return Scan::Fail(e),
        }
        let low = match attr_value(d, DW_AT_LOW_PC) {
            Some(AttrValue::Addr(l)) => *l,
            _ => return Scan::Done(()),
        };
        match attr_value(d, DW_AT_HIGH_PC) {
            Some(AttrValue::Udata(size)) => if *size > u64::MAX - low { Scan::Crash } else { Scan::Done(()) },
            Some(AttrValue::Addr(_)) => Scan::Done(()),
            Some(_) => Scan::Crash,
            None => Scan::Done(()),
        }
    } else if d.tag == DW_TAG_VARIABLE || d.tag == DW_TAG_FORMAL_PARAMETER {
        variable_scan(d)
    } else {
        Scan::Done(())
    }
}

/// How the walk over the tree of `d` from the state `st` ends.
fn walk_node_scan(d: &Die, Ghost(st): Ghost<WalkView>, enc: DwarfEncoding) -> (r: Scan<()>)
    ensures
        r == erase(spec_walk_node(*d, st, enc)),
    decreases d, 1nat,
{
    match visit_scan(d, Ghost(st), enc) {
        Scan::Done(()) => {},
        Scan::Fail(e) => return Scan::Fail(e),
        Scan::Crash => return Scan::Crash,
    }
    walk_list_scan(&d.children, Ghost(spec_visit(st, *d, enc)->Done_0), enc)
}

/// How the walk over the trees of `nodes` from the state `st` ends.
fn walk_list_scan(nodes: &Vec<Die>, Ghost(st): Ghost<WalkView>, enc: DwarfEncoding) -> (r: Scan<()>)
    ensures
        r == erase(spec_walk_list(nodes@, st, enc)),
    decreases nodes@, 0nat,
{
    let n = nodes.len();
    let mut i: usize = 0;
    let ghost mut cur = st;
    proof { assert(nodes@.subrange(0, n as int) =~= nodes@); }
    while i < n
        invariant
            n == nodes@.len(),
            i <= n,
            erase(spec_walk_list(nodes@, st, enc)) == erase(spec_walk_list(nodes@.subrange(i as int, n as int), cur, enc)),
        decreases n - i,
    {
        let ghost suffix = nodes@.subrange(i as int, n as int);
        proof {
            assert(suffix[0] == nodes@[i as int]);
            assert(suffix.subrange(1, suffix.len() as int) =~= nodes@.subrange(i + 1, n as int));
        }
        let node = &nodes[i];
        match walk_node_scan(node, Ghost(cur), enc) {
            Scan::Done(()) => {},
            Scan::Fail(e) => return Scan::Fail(e),
            Scan::Crash => return Scan::Crash,
        }
        proof {
            cur = spec_walk_node(*node, cur, enc)->Done_0;
        }
        i = i + 1;
    }
    proof { assert(nodes@.subrange(n as int, n as int) =~= Seq::<Die>::empty()); }
    Scan::Done(())
}

/// How reading a unit as the command-line debugger does ends.
fn cli_unit_scan(u: &UnitInput) -> (r: Scan<()>)
    ensures
        r == erase(spec_cli_unit(*u)),
{
    match &u.lines {
        Some(p) => {
            let mut k: usize = 0;
            while k < p.include_directories.len()
                invariant
                    u.lines == Some(*p),
                    k <= p.include_directories@.len(),
                    forall|j: int| 0 <= j < k ==> (#[trigger] spec_attr_string(p.include_directories@[j])) is Some,
                decreases p.include_directories@.len() - k,
            {
                if clone_string_attribute(&p.include_directories[k]).is_none() {
                    proof {
                        assert(!(spec_attr_string(p.include_directories@[k as int]) is Some));
                        assert(spec_dirs(*p) is None);
                    }
                    return Scan::Fail(DwarfError::BadString);
                }
                k = k + 1;
            }
            proof { assert(spec_dirs(*p) is Some); }
        },
        None => {},
    }
    match lines_scan(&u.lines) {
        Scan::Done(()) => {},
        Scan::Fail(e) => return Scan::Fail(e),
        Scan::Crash => return Scan::Crash,
    }
    let empty = Ghost(WalkView { done: Seq::empty(), current: None });
    walk_list_scan(&u.entries.root.children, empty, u.entries.encoding)
}

/// How reading all the units as the command-line debugger does ends.
pub fn cli_dwarf_scan(units: &Vec<UnitInput>) -> (r: Scan<()>)
    ensures
        r == erase(spec_cli_dwarf(units@)),
{
    let n = units.len();
    let mut i: usize = 0;
    proof { assert(units@.subrange(0, n as int) =~= units@); }
    while i < n
        invariant
            n == units@.len(),
            i <= n,
            erase(spec_cli_dwarf(units@)) == erase(spec_cli_dwarf(units@.subrange(i as int, n as int))),
        decreases n - i,
    {
        let ghost suffix = units@.subrange(i as int, n as int);
        proof {
            assert(suffix[0] == units@[i as int]);
            assert(suffix.drop_first() =~= units@.subrange(i + 1, n as int));
        }
        match cli_unit_scan(&units[i]) {
            Scan::Done(()) => {},
            Scan::Fail(e) => return Scan::Fail(e),
            Scan::Crash => return Scan::Crash,
        }
        i = i + 1;
    }
    proof { assert(units@.subrange(n as int, n as int) =~= Seq::<UnitInput>::empty()); }
    Scan::Done(())
}

/// Whether the command-line debugger's `transform_dwarf` can read the
/// units: the reading does not stop on an input it cannot go on with, and
/// the rows name their files.
pub fn cli_dwarf_readable(units: &Vec<UnitInput>) -> (r: bool)
    ensures
        r == (!(spec_cli_dwarf(units@) is Crash) && units_rows_ok(units@)),
{
    let s = cli_dwarf_scan(units);
    !matches!(s, Scan::Crash) && rows_name_their_files(units)
}

/// Reads the debug information of a module from its units, where it can be
/// read: entries that the reading cannot go on with are `Malformed`, and a
/// line row that names no file of its unit is `RowWithoutFile`; otherwise
/// what `transform_dwarf` gives.
pub fn debug_info_of_units(units: Vec<UnitInput>) -> (r: Result<DwarfDebugInfo, DwarfError>)
    ensures
        spec_dwarf(units@, Map::empty()) is Crash ==> r matches Err(DwarfError::Malformed),
        !(spec_dwarf(units@, Map::empty()) is Crash) && !units_rows_ok(units@) ==> r matches Err(DwarfError::RowWithoutFile),
        !(spec_dwarf(units@, Map::empty()) is Crash) && units_rows_ok(units@) ==> match spec_dwarf(units@, Map::empty()) {
            Scan::Done((subs, types)) => r matches Ok(info) && views(info.subroutine.subroutines@) == subs
                && table_view(info.subroutine.type_hash@) == types
                && info.subroutine.units@ == units@.map_values(|u: UnitInput| u.entries)
                && exists|maps: Seq<DwarfUnitSourceMap>| #![trigger unit_entries(maps)]
                    maps.len() == units@.len()
                    && (forall|k: int| 0 <= k < maps.len() ==> line_map_of(#[trigger] maps[k], units@[k].lines->0))
                    && merged(info.sourcemap.spec_rows(), unit_entries(maps)),
            Scan::Fail(e) => r matches Err(x) && x == e,
            Scan::Crash => false,
        },
{
    if let Scan::Crash = dwarf_scan(&units) {
        return Err(DwarfError::Malformed);
    }
    if !rows_name_their_files(&units) {
        return Err(DwarfError::RowWithoutFile);
    }
    transform_dwarf(units)
}

} // verus!
