//! Subroutines and their variables, read from the entries of a unit.

use vstd::prelude::*;
use crate::debugger::die::{
    attr_value, clone_string_attribute, copy_attr, eval_at, eval_from, spec_eval_at, spec_eval_from, find_die, find_in,
    spec_attr_string, AttrValue, AttrView, Die, DwarfEncoding, EvalOutcome, EvalResult, DW_AT_CONST_VALUE, DW_AT_FRAME_BASE, DW_AT_HIGH_PC, DW_AT_LOCATION, DW_AT_LOW_PC, DW_AT_NAME,
    DW_AT_TYPE, DW_TAG_FORMAL_PARAMETER, DW_TAG_LEXICAL_BLOCK, DW_TAG_SUBPROGRAM, DW_TAG_VARIABLE,
};
use crate::debugger::dwarf::{
    first_containing, read_wasm_location, spec_wasm_location, DwarfError, DwarfSubroutineMap, FrameBase, Subroutine,
    SubroutineView, UnitEntries, WasmLoc,
};
use crate::debugger::format::{format_die, spec_format_die};
use vstd::string::StringExecFns;
use crate::debugger::commands::subroutine::Variable;
use crate::vm::memory::{le_bytes, le_encode};

verus! {

/// The outcome of reading debug information: a value, an error, or an
/// input on which reading cannot go on.
pub enum Scan<T> {
    Done(T),
    Fail(DwarfError),
    Crash,
}

/// A sequence read so far, followed by what the rest reads as.
pub open spec fn seq_then<T>(a: Seq<T>, s: Scan<Seq<T>>) -> Scan<Seq<T>> {
    match s {
        Scan::Done(b) => Scan::Done(a + b),
        Scan::Fail(e) => Scan::Fail(e),
        Scan::Crash => Scan::Crash,
    }
}

pub proof fn lemma_seq_then_assoc<T>(a: Seq<T>, b: Seq<T>, s: Scan<Seq<T>>)
    ensures
        seq_then(a, seq_then(b, s)) == seq_then(a + b, s),
{
    if let Scan::Done(c) = s {
        assert(a + (b + c) =~= (a + b) + c);
    }
}

/// A frame base location as an attribute holds it: an expression.
pub open spec fn spec_location_of(v: AttrValue) -> Result<WasmLoc, DwarfError> {
    match v {
        AttrValue::Exprloc(b) => spec_wasm_location(b@),
        _ => Err(DwarfError::UnexpectedAttribute),
    }
}

pub fn wasm_location_of(v: &AttrValue) -> (r: Result<WasmLoc, DwarfError>)
    ensures
        r == spec_location_of(*v),
{
    match v {
        AttrValue::Exprloc(b) => read_wasm_location(b.as_slice()),
        _ => Err(DwarfError::UnexpectedAttribute),
    }
}

/// The name of an entry, when it has one.
pub open spec fn spec_name(d: Die) -> Result<Option<Seq<char>>, DwarfError> {
    match d.attr(DW_AT_NAME) {
        None => Ok(None),
        Some(a) => match spec_attr_string(a) {
            Some(t) => Ok(Some(t)),
            None => Err(DwarfError::BadString),
        },
    }
}

pub open spec fn name_matches(r: Result<Option<String>, DwarfError>, s: Result<Option<Seq<char>>, DwarfError>) -> bool {
    match s {
        Ok(Some(t)) => r matches Ok(Some(x)) && x@ == t,
        Ok(None) => r matches Ok(None),
        Err(e) => r == Err::<Option<String>, DwarfError>(e),
    }
}

pub(crate) fn read_name(d: &Die) -> (r: Result<Option<String>, DwarfError>)
    ensures
        name_matches(r, spec_name(*d)),
{
    match attr_value(d, DW_AT_NAME) {
        None => Ok(None),
        Some(a) => match clone_string_attribute(a) {
            Some(s) => Ok(Some(s)),
            None => Err(DwarfError::BadString),
        },
    }
}

/// Whether an entry is a subprogram or a lexical block.
pub open spec fn is_scope(tag: u16) -> bool {
    tag == DW_TAG_SUBPROGRAM || tag == DW_TAG_LEXICAL_BLOCK
}

/// Whether an entry is a variable or a parameter.
pub open spec fn is_variable(tag: u16) -> bool {
    tag == DW_TAG_VARIABLE || tag == DW_TAG_FORMAL_PARAMETER
}

/// The subroutine an entry of a unit at `unit_offset` describes: a
/// subprogram or lexical block with a low address and either an end address
/// or a size; none for another entry.
pub open spec fn spec_header(d: Die, enc: DwarfEncoding, unit_offset: usize) -> Scan<Option<SubroutineView>> {
    if !is_scope(d.tag) {
        Scan::Done(None)
    } else {
        match spec_name(d) {
            Err(e) => Scan::Fail(e),
            Ok(name) => match d.attr(DW_AT_LOW_PC) {
                Some(AttrValue::Addr(low)) => {
                    let high: Option<Option<int>> = match d.attr(DW_AT_HIGH_PC) {
                        Some(AttrValue::Udata(size)) => Some(Some(low + size)),
                        Some(AttrValue::Addr(h)) => Some(Some(h as int)),
                        Some(_) => None,
                        None => Some(None),
                    };
                    match high {
                        None => Scan::Crash,
                        Some(None) => Scan::Done(None),
                        Some(Some(h)) => if h > u64::MAX {
                            Scan::Crash
                        } else {
                            let view = |fb: Option<WasmLoc>| SubroutineView {
                                name,
                                low_pc: low,
                                high_pc: h as u64,
                                entry_offset: d.offset,
                                unit_offset,
                                encoding: enc,
                                frame_base: fb,
                            };
                            match d.attr(DW_AT_FRAME_BASE) {
                                Some(a) => match spec_location_of(a) {
                                    Err(e) => Scan::Fail(e),
                                    Ok(l) => Scan::Done(Some(view(Some(l)))),
                                },
                                None => Scan::Done(Some(view(None))),
                            }
                        },
                    }
                },
                _ => Scan::Done(None),
            },
        }
    }
}

pub open spec fn header_matches(r: Result<Option<Subroutine>, DwarfError>, s: Scan<Option<SubroutineView>>) -> bool {
    match s {
        Scan::Done(Some(v)) => r matches Ok(Some(x)) && x@ == v,
        Scan::Done(None) => r matches Ok(None),
        Scan::Fail(e) => r == Err::<Option<Subroutine>, DwarfError>(e),
        Scan::Crash => true,
    }
}

/// Reads the subroutine an entry describes.
pub fn read_subprogram_header(node: &Die, enc: DwarfEncoding, unit_offset: usize) -> (r: Result<Option<Subroutine>, DwarfError>)
    requires
        !(spec_header(*node, enc, unit_offset) is Crash),
    ensures
        header_matches(r, spec_header(*node, enc, unit_offset)),
{
    if node.tag != DW_TAG_SUBPROGRAM && node.tag != DW_TAG_LEXICAL_BLOCK {
        return Ok(None);
    }
    let name = match read_name(node) {
        Ok(n) => n,
        Err(e) => return Err(e),
    };
    let low_pc = match attr_value(node, DW_AT_LOW_PC) {
        Some(AttrValue::Addr(low)) => *low,
        _ => return Ok(None),
    };
    let high_pc = match attr_value(node, DW_AT_HIGH_PC) {
        Some(AttrValue::Udata(size)) => low_pc + *size,
        Some(AttrValue::Addr(h)) => *h,
        Some(_) => return Ok(None),
        None => return Ok(None),
    };
    let frame_base = match attr_value(node, DW_AT_FRAME_BASE) {
        Some(a) => match wasm_location_of(a) {
            Ok(l) => Some(l),
            Err(e) => return Err(e),
        },
        None => None,
    };
    Ok(Some(Subroutine {
        name,
        low_pc,
        high_pc,
        entry_offset: node.offset,
        unit_offset,
        encoding: enc,
        frame_base,
    }))
}

/// The subroutines of the tree of `node`, each after those nested in it.
pub open spec fn spec_subprograms(node: Die, enc: DwarfEncoding, unit_offset: usize) -> Scan<Seq<SubroutineView>>
    decreases node, 1nat,
{
    match spec_header(node, enc, unit_offset) {
        Scan::Crash => Scan::Crash,
        Scan::Fail(e) => Scan::Fail(e),
        Scan::Done(h) => match spec_subprograms_list(node.children@, enc, unit_offset) {
            Scan::Done(l) => Scan::Done(match h {
                Some(s) => l.push(s),
                None => l,
            }),
            Scan::Fail(e) => Scan::Fail(e),
            Scan::Crash => Scan::Crash,
        },
    }
}

/// The subroutines of the trees of `nodes` in order, passing over variables.
pub open spec fn spec_subprograms_list(nodes: Seq<Die>, enc: DwarfEncoding, unit_offset: usize) -> Scan<Seq<SubroutineView>>
    decreases nodes, 0nat,
{
    if nodes.len() == 0 {
        Scan::Done(Seq::empty())
    } else {
        let first = if is_variable(nodes[0].tag) {
            Scan::Done(Seq::empty())
        } else {
            spec_subprograms(nodes[0], enc, unit_offset)
        };
        match first {
            Scan::Done(a) => seq_then(a, spec_subprograms_list(nodes.subrange(1, nodes.len() as int), enc, unit_offset)),
            Scan::Fail(e) => Scan::Fail(e),
            Scan::Crash => Scan::Crash,
        }
    }
}

pub open spec fn views(s: Seq<Subroutine>) -> Seq<SubroutineView> {
    s.map_values(|x: Subroutine| x@)
}

/// Adds the subroutines of the tree of `node` to `out`.
pub fn transform_subprogram_rec(node: &Die, enc: DwarfEncoding, unit_offset: usize, out: &mut Vec<Subroutine>)
    -> (r: Result<(), DwarfError>)
    requires
        !(spec_subprograms(*node, enc, unit_offset) is Crash),
    ensures
        match spec_subprograms(*node, enc, unit_offset) {
            Scan::Done(l) => r is Ok && views(final(out)@) == views(old(out)@) + l,
            Scan::Fail(e) => r == Err::<(), DwarfError>(e),
            Scan::Crash => true,
        },
    decreases node, 1nat,
{
    let subroutine = match read_subprogram_header(node, enc, unit_offset) {
        Ok(s) => s,
        Err(e) => return Err(e),
    };
    let ghost before = views(out@);
    match transform_children(&node.children, enc, unit_offset, out) {
        Ok(()) => {},
        Err(e) => return Err(e),
    }
    let ghost mid = views(out@);
    match subroutine {
        Some(s) => {
            out.push(s);
            proof { assert(views(out@) =~= mid.push(s@)); }
        },
        None => {},
    }
    proof {
        if let Scan::Done(l) = spec_subprograms_list(node.children@, enc, unit_offset) {
            assert(mid == before + l);
            match spec_header(*node, enc, unit_offset) {
                Scan::Done(Some(v)) => assert(views(out@) =~= before + l.push(v)),
                _ => {},
            }
        }
    }
    Ok(())
}

fn transform_children(nodes: &Vec<Die>, enc: DwarfEncoding, unit_offset: usize, out: &mut Vec<Subroutine>)
    -> (r: Result<(), DwarfError>)
    requires
        !(spec_subprograms_list(nodes@, enc, unit_offset) is Crash),
    ensures
        match spec_subprograms_list(nodes@, enc, unit_offset) {
            Scan::Done(l) => r is Ok && views(final(out)@) == views(old(out)@) + l,
            Scan::Fail(e) => r == Err::<(), DwarfError>(e),
            Scan::Crash => true,
        },
    decreases nodes@, 0nat,
{
    let ghost start = views(out@);
    let ghost mut acc: Seq<SubroutineView> = Seq::empty();
    let n = nodes.len();
    let mut i: usize = 0;
    proof {
        assert(nodes@.subrange(0, n as int) =~= nodes@);
        assert(start + acc =~= start);
    }
    while i < n
        invariant
            n == nodes@.len(),
            i <= n,
            views(out@) == start + acc,
            spec_subprograms_list(nodes@, enc, unit_offset)
                == seq_then(acc, spec_subprograms_list(nodes@.subrange(i as int, n as int), enc, unit_offset)),
            !(spec_subprograms_list(nodes@, enc, unit_offset) is Crash),
        decreases n - i,
    {
        let ghost suffix = nodes@.subrange(i as int, n as int);
        proof {
            assert(suffix[0] == nodes@[i as int]);
            assert(suffix.subrange(1, suffix.len() as int) =~= nodes@.subrange(i + 1, n as int));
        }
        let node = &nodes[i];
        if node.tag == DW_TAG_VARIABLE || node.tag == DW_TAG_FORMAL_PARAMETER {
            proof {
                lemma_seq_then_assoc(acc, Seq::empty(), spec_subprograms_list(nodes@.subrange(i + 1, n as int), enc, unit_offset));
                assert(acc + Seq::<SubroutineView>::empty() =~= acc);
            }
        } else {
            let ghost before = views(out@);
            match transform_subprogram_rec(node, enc, unit_offset, out) {
                Ok(()) => {},
                Err(e) => return Err(e),
            }
            proof {
                if let Scan::Done(a) = spec_subprograms(*node, enc, unit_offset) {
                    lemma_seq_then_assoc(acc, a, spec_subprograms_list(nodes@.subrange(i + 1, n as int), enc, unit_offset));
                    acc = acc + a;
                    assert(views(out@) =~= start + acc);
                }
            }
        }
        i = i + 1;
    }
    proof {
        assert(nodes@.subrange(n as int, n as int) =~= Seq::<Die>::empty());
        assert(acc + Seq::<SubroutineView>::empty() =~= acc);
    }
    Ok(())
}

/// The subroutines of a unit whose root entry is `root`.
pub fn transform_subprogram(root: &Die, enc: DwarfEncoding, unit_offset: usize) -> (r: Result<Vec<Subroutine>, DwarfError>)
    requires
        !(spec_subprograms(*root, enc, unit_offset) is Crash),
    ensures
        match spec_subprograms(*root, enc, unit_offset) {
            Scan::Done(l) => r matches Ok(v) && views(v@) == l,
            Scan::Fail(e) => r matches Err(x) && x == e,
            Scan::Crash => true,
        },
{
    let mut out: Vec<Subroutine> = Vec::new();
    proof { assert(views(out@) =~= Seq::<SubroutineView>::empty()); }
    match transform_subprogram_rec(root, enc, unit_offset, &mut out) {
        Ok(()) => {
            proof {
                if let Scan::Done(l) = spec_subprograms(*root, enc, unit_offset) {
                    assert(Seq::<SubroutineView>::empty() + l =~= l);
                }
            }
            Ok(out)
        },
        Err(e) => Err(e),
    }
}


// ---------------------------------------------------------------- variables

/// Where a variable's value is: a location attribute, constant bytes, or
/// nothing known.
#[derive(Debug)]
pub enum VariableContent {
    Location(AttrValue),
    ConstValue(Vec<u8>),
    Unknown { debug_info: String },
}

pub enum ContentView {
    Location(AttrView),
    ConstValue(Seq<u8>),
    Unknown(Seq<char>),
}

impl View for VariableContent {
    type V = ContentView;

    open spec fn view(&self) -> ContentView {
        match self {
            VariableContent::Location(a) => ContentView::Location(a@),
            VariableContent::ConstValue(b) => ContentView::ConstValue(b@),
            VariableContent::Unknown { debug_info } => ContentView::Unknown(debug_info@),
        }
    }
}

/// A variable or parameter of a subroutine: its name, where its value is,
/// and the offset of its type's entry.
#[derive(Debug)]
pub struct SymbolVariable {
    pub name: Option<String>,
    pub content: VariableContent,
    pub ty_offset: Option<usize>,
}

pub struct VariableView {
    pub name: Option<Seq<char>>,
    pub content: ContentView,
    pub ty_offset: Option<usize>,
}

impl View for SymbolVariable {
    type V = VariableView;

    open spec fn view(&self) -> VariableView {
        VariableView {
            name: match self.name { Some(n) => Some(n@), None => None },
            content: self.content@,
            ty_offset: self.ty_offset,
        }
    }
}

/// The bytes of a constant value, little-endian; none for a form that
/// holds no constant.
pub open spec fn spec_const_bytes(c: AttrView) -> Option<Seq<u8>> {
    match c {
        AttrView::Block(b) => Some(b),
        AttrView::Data1(b) => Some(seq![b]),
        AttrView::Data2(b) => Some(le_bytes(b as nat, 2)),
        AttrView::Data4(b) => Some(le_bytes(b as nat, 4)),
        AttrView::Data8(b) => Some(le_bytes(b as nat, 8)),
        AttrView::Sdata(b) => Some(le_bytes((b as u64) as nat, 8)),
        AttrView::Udata(b) => Some(le_bytes(b as nat, 8)),
        AttrView::String(b, _) => Some(b),
        _ => None,
    }
}

/// The variable an entry describes: its location when it has one, else its
/// constant value, else nothing known; its name; and its type when the type
/// attribute refers to an entry of the unit.
pub open spec fn spec_variable(d: Die) -> Scan<VariableView> {
    let content: Option<ContentView> = match d.attr(DW_AT_LOCATION) {
        Some(l) => Some(ContentView::Location(l@)),
        None => match d.attr(DW_AT_CONST_VALUE) {
            None => Some(ContentView::Unknown(Seq::empty())),
            Some(c) => match spec_const_bytes(c@) {
                Some(b) => Some(ContentView::ConstValue(b)),
                None => None,
            },
        },
    };
    match content {
        None => Scan::Crash,
        Some(c) => match spec_name(d) {
            Err(e) => Scan::Fail(e),
            Ok(n) => Scan::Done(VariableView {
                name: n,
                content: c,
                ty_offset: match d.attr(DW_AT_TYPE) {
                    Some(AttrValue::UnitRef(o)) => Some(o),
                    _ => None,
                },
            }),
        },
    }
}

pub(crate) fn const_bytes(c: &AttrValue) -> (r: Option<Vec<u8>>)
    ensures
        match spec_const_bytes(c@) {
            Some(b) => r matches Some(v) && v@ == b,
            None => r is None,
        },
{
    match c {
        AttrValue::Block(b) => {
            let v = b.clone();
            assert(v@ =~= b@);
            Some(v)
        },
        AttrValue::Data1(b) => {
            let v = vec![*b];
            assert(v@ =~= seq![*b]);
            Some(v)
        },
        AttrValue::Data2(b) => Some(le_encode(*b as u64, 2)),
        AttrValue::Data4(b) => Some(le_encode(*b as u64, 4)),
        AttrValue::Data8(b) => Some(le_encode(*b, 8)),
        AttrValue::Sdata(b) => Some(le_encode(*b as u64, 8)),
        AttrValue::Udata(b) => Some(le_encode(*b, 8)),
        AttrValue::String(b, _) => {
            let v = b.clone();
            assert(v@ =~= b@);
            Some(v)
        },
        _ => None,
    }
}

/// Reads the variable an entry describes.
pub fn transform_variable(entry: &Die) -> (r: Result<SymbolVariable, DwarfError>)
    requires
        !(spec_variable(*entry) is Crash),
    ensures
        match spec_variable(*entry) {
            Scan::Done(v) => r matches Ok(x) && x@ == v,
            Scan::Fail(e) => r matches Err(x) && x == e,
            Scan::Crash => true,
        },
{
    let content = match attr_value(entry, DW_AT_LOCATION) {
        Some(l) => VariableContent::Location(copy_attr(l)),
        None => match attr_value(entry, DW_AT_CONST_VALUE) {
            None => VariableContent::Unknown { debug_info: String::new() },
            Some(c) => match const_bytes(c) {
                Some(b) => VariableContent::ConstValue(b),
                None => VariableContent::Unknown { debug_info: String::new() },
            },
        },
    };
    let name = match read_name(entry) {
        Ok(n) => n,
        Err(e) => return Err(e),
    };
    let ty_offset = match attr_value(entry, DW_AT_TYPE) {
        Some(AttrValue::UnitRef(o)) => Some(*o),
        _ => None,
    };
    Ok(SymbolVariable { name, content, ty_offset })
}

/// The variables among `nodes`, in order.
pub open spec fn spec_variables(nodes: Seq<Die>) -> Scan<Seq<VariableView>>
    decreases nodes.len(),
{
    if nodes.len() == 0 {
        Scan::Done(Seq::empty())
    } else {
        let first = if is_variable(nodes[0].tag) {
            match spec_variable(nodes[0]) {
                Scan::Done(v) => Scan::Done(seq![v]),
                Scan::Fail(e) => Scan::Fail(e),
                Scan::Crash => Scan::Crash,
            }
        } else {
            Scan::Done(Seq::empty())
        };
        match first {
            Scan::Done(a) => seq_then(a, spec_variables(nodes.subrange(1, nodes.len() as int))),
            Scan::Fail(e) => Scan::Fail(e),
            Scan::Crash => Scan::Crash,
        }
    }
}

/// The variables of the subroutine whose entry is at `entry_offset` in the
/// tree of `root`: its children that are variables or parameters.
pub open spec fn spec_subroutine_variables(root: Die, entry_offset: usize) -> Scan<Seq<VariableView>> {
    match find_in(root, entry_offset) {
        None => Scan::Fail(DwarfError::NoEntry(entry_offset)),
        Some(d) => spec_variables(d.children@),
    }
}

pub open spec fn var_views(s: Seq<SymbolVariable>) -> Seq<VariableView> {
    s.map_values(|x: SymbolVariable| x@)
}

/// Reads the variables of the subroutine whose entry is at `entry_offset`.
pub fn subroutine_variables(root: &Die, entry_offset: usize) -> (r: Result<Vec<SymbolVariable>, DwarfError>)
    requires
        !(spec_subroutine_variables(*root, entry_offset) is Crash),
    ensures
        match spec_subroutine_variables(*root, entry_offset) {
            Scan::Done(l) => r matches Ok(v) && var_views(v@) == l,
            Scan::Fail(e) => r matches Err(x) && x == e,
            Scan::Crash => true,
        },
{
    let entry = match find_die(root, entry_offset) {
        Some(d) => d,
        None => return Err(DwarfError::NoEntry(entry_offset)),
    };
    let nodes = &entry.children;
    assert(spec_subroutine_variables(*root, entry_offset) == spec_variables(nodes@));
    let n = nodes.len();
    let mut out: Vec<SymbolVariable> = Vec::new();
    let mut i: usize = 0;
    proof {
        assert(nodes@.subrange(0, n as int) =~= nodes@);
        assert(var_views(out@) =~= Seq::<VariableView>::empty());
        assert(Seq::<VariableView>::empty() + Seq::<VariableView>::empty() =~= Seq::<VariableView>::empty());
        if let Scan::Done(l) = spec_variables(nodes@) {
            assert(Seq::<VariableView>::empty() + l =~= l);
        }
    }
    while i < n
        invariant
            n == nodes@.len(),
            i <= n,
            spec_variables(nodes@) == seq_then(var_views(out@), spec_variables(nodes@.subrange(i as int, n as int))),
            !(spec_variables(nodes@) is Crash),
            spec_subroutine_variables(*root, entry_offset) == spec_variables(nodes@),
        decreases n - i,
    {
        let ghost suffix = nodes@.subrange(i as int, n as int);
        proof {
            assert(suffix[0] == nodes@[i as int]);
            assert(suffix.subrange(1, suffix.len() as int) =~= nodes@.subrange(i + 1, n as int));
        }
        let node = &nodes[i];
        if node.tag == DW_TAG_VARIABLE || node.tag == DW_TAG_FORMAL_PARAMETER {
            let v = match transform_variable(node) {
                Ok(v) => v,
                Err(e) => {
                    proof {
                        assert(spec_variable(nodes@[i as int]) == Scan::<VariableView>::Fail(e));
                        assert(spec_variables(suffix) == Scan::<Seq<VariableView>>::Fail(e));
                        assert(spec_variables(nodes@) == Scan::<Seq<VariableView>>::Fail(e));
                    }
                    return Err(e);
                },
            };
            let ghost prev = var_views(out@);
            out.push(v);
            proof {
                assert(var_views(out@) =~= prev + seq![v@]);
                lemma_seq_then_assoc(prev, seq![v@], spec_variables(nodes@.subrange(i + 1, n as int)));
            }
        } else {
            proof {
                let prev = var_views(out@);
                lemma_seq_then_assoc(prev, Seq::empty(), spec_variables(nodes@.subrange(i + 1, n as int)));
                assert(prev + Seq::<VariableView>::empty() =~= prev);
            }
        }
        i = i + 1;
    }
    proof {
        assert(nodes@.subrange(n as int, n as int) =~= Seq::<Die>::empty());
        assert(var_views(out@) + Seq::<VariableView>::empty() =~= var_views(out@));
    }
    Ok(out)
}

/// The name of the type whose entry is at `ty_offset`: `void` for none.
pub open spec fn spec_unit_type_name(root: Die, ty_offset: Option<usize>) -> Result<Seq<char>, DwarfError> {
    match ty_offset {
        None => Ok("void"@),
        Some(o) => match find_in(root, o) {
            None => Err(DwarfError::NoEntry(o)),
            Some(d) => match d.attr(DW_AT_NAME) {
                Some(a) => match spec_attr_string(a) {
                    Some(t) => Ok(t),
                    None => Err(DwarfError::BadString),
                },
                None => Err(DwarfError::NoTypeName(o)),
            },
        },
    }
}

pub fn unit_type_name(root: &Die, ty_offset: Option<usize>) -> (r: Result<String, DwarfError>)
    ensures
        match spec_unit_type_name(*root, ty_offset) {
            Ok(t) => r matches Ok(s) && s@ == t,
            Err(e) => r matches Err(x) && x == e,
        },
{
    let o = match ty_offset {
        None => return Ok("void".to_owned()),
        Some(o) => o,
    };
    let d = match find_die(root, o) {
        Some(d) => d,
        None => return Err(DwarfError::NoEntry(o)),
    };
    match attr_value(d, DW_AT_NAME) {
        Some(a) => match clone_string_attribute(a) {
            Some(s) => Ok(s),
            None => Err(DwarfError::BadString),
        },
        None => Err(DwarfError::NoTypeName(o)),
    }
}

/// The index of the first unit at `offset`.
pub open spec fn first_unit(units: Seq<UnitEntries>, offset: usize) -> Option<int>
    decreases units.len(),
{
    if units.len() == 0 {
        None
    } else if units[0].offset == offset {
        Some(0)
    } else {
        match first_unit(units.drop_first(), offset) {
            Some(i) => Some(i + 1),
            None => None,
        }
    }
}

/// Finds the unit at `offset`.
pub fn header_from_offset(units: &Vec<UnitEntries>, offset: usize) -> (r: Option<usize>)
    ensures
        match first_unit(units@, offset) {
            Some(i) => r matches Some(x) && x as int == i && 0 <= i < units@.len(),
            None => r is None,
        },
{
    let mut i: usize = 0;
    proof { assert(units@.subrange(0, units@.len() as int) =~= units@); }
    while i < units.len()
        invariant
            i <= units@.len(),
            first_unit(units@, offset) == match first_unit(units@.subrange(i as int, units@.len() as int), offset) {
                Some(k) => Some(k + i),
                None => None,
            },
        decreases units@.len() - i,
    {
        proof {
            let t = units@.subrange(i as int, units@.len() as int);
            assert(t[0] == units@[i as int]);
            assert(t.drop_first() =~= units@.subrange(i + 1, units@.len() as int));
        }
        if units[i].offset == offset {
            return Some(i);
        }
        i = i + 1;
    }
    proof {
        assert(units@.subrange(i as int, units@.len() as int) =~= Seq::<UnitEntries>::empty());
    }
    None
}


// ---------------------------------------------------------------- showing variables

/// How the evaluation of a variable's location ends: with the initial value
/// `base` for a frame pointer, or giving `base` whenever the frame base is
/// asked for.
pub open spec fn spec_evaluation(enc: DwarfEncoding, base: FrameBase, bytes: Seq<u8>) -> EvalOutcome {
    match base {
        FrameBase::RBP(b) => spec_eval_from(bytes, enc, b),
        FrameBase::WasmFrameBase(b) => spec_eval_at(bytes, enc, b),
    }
}

/// The pieces of a complete evaluation, each as its address when it lies in
/// memory; an evaluation that asks for something or fails is an error.
pub open spec fn eval_matches(r: Result<Vec<Option<u64>>, DwarfError>, o: EvalOutcome) -> bool {
    match o {
        EvalOutcome::Complete(p) => r matches Ok(v) && v@ == p,
        EvalOutcome::RequiresFrameBase => r matches Err(DwarfError::UnexpectedFrameBase),
        EvalOutcome::Requires(t) => r matches Err(DwarfError::Evaluation(x)) && x@ == t,
        EvalOutcome::Failed(t) => r matches Err(DwarfError::Evaluation(x)) && x@ == t,
    }
}

/// Evaluates a variable's location expression.
pub fn evaluate_variable_location(enc: DwarfEncoding, base: FrameBase, bytes: &[u8]) -> (r: Result<Vec<Option<u64>>, DwarfError>)
    ensures
        eval_matches(r, spec_evaluation(enc, base, bytes@)),
{
    let outcome = match base {
        FrameBase::RBP(b) => eval_from(bytes, enc, b),
        FrameBase::WasmFrameBase(b) => eval_at(bytes, enc, b),
    };
    match outcome {
        EvalResult::Complete(p) => Ok(p),
        EvalResult::RequiresFrameBase => Err(DwarfError::UnexpectedFrameBase),
        EvalResult::Requires(t) => Err(DwarfError::Evaluation(t)),
        EvalResult::Failed(t) => Err(DwarfError::Evaluation(t)),
    }
}

/// The index of the first variable named `name`.
pub open spec fn first_named(vars: Seq<VariableView>, name: Seq<char>) -> Option<int>
    decreases vars.len(),
{
    if vars.len() == 0 {
        None
    } else if vars[0].name == Some(name) {
        Some(0)
    } else {
        match first_named(vars.drop_first(), name) {
            Some(i) => Some(i + 1),
            None => None,
        }
    }
}

pub(crate) fn find_named(vars: &Vec<SymbolVariable>, name: &str) -> (r: Option<usize>)
    ensures
        match first_named(var_views(vars@), name@) {
            Some(i) => r matches Some(x) && x as int == i && 0 <= i < vars@.len(),
            None => r is None,
        },
{
    let ghost vs = var_views(vars@);
    let mut i: usize = 0;
    proof { assert(vs.subrange(0, vs.len() as int) =~= vs); }
    while i < vars.len()
        invariant
            i <= vars@.len(),
            vs == var_views(vars@),
            first_named(vs, name@) == match first_named(vs.subrange(i as int, vs.len() as int), name@) {
                Some(k) => Some(k + i),
                None => None,
            },
        decreases vars@.len() - i,
    {
        proof {
            let t = vs.subrange(i as int, vs.len() as int);
            assert(t[0] == vs[i as int]);
            assert(t.drop_first() =~= vs.subrange(i + 1, vs.len() as int));
        }
        let hit = match &vars[i].name {
            Some(n) => crate::vm::utils::str_eq(n.as_str(), name),
            None => false,
        };
        if hit {
            return Some(i);
        }
        i = i + 1;
    }
    proof { assert(vs.subrange(i as int, vs.len() as int) =~= Seq::<VariableView>::empty()); }
    None
}

/// The first subroutine holding `offset`, as `find_subroutine` finds it.
pub(crate) proof fn lemma_first_containing(subs: Seq<Subroutine>, o: u64, r: Option<usize>)
    requires
        match r {
            Some(i) => i < subs.len() && subs[i as int].spec_contains(o)
                && forall|j: int| 0 <= j < i ==> !(#[trigger] subs[j]).spec_contains(o),
            None => forall|j: int| 0 <= j < subs.len() ==> !(#[trigger] subs[j]).spec_contains(o),
        },
    ensures
        match r {
            Some(i) => first_containing(subs, o) == Some(i as int),
            None => first_containing(subs, o) is None,
        },
{
    if let Some(i) = r {
        let c = choose|k: int| 0 <= k < subs.len() && (#[trigger] subs[k]).spec_contains(o)
            && forall|j: int| 0 <= j < k ==> !(#[trigger] subs[j]).spec_contains(o);
        assert(subs[i as int].spec_contains(o));
        if c < i {
        } else if c > i {
            assert(!subs[i as int].spec_contains(o));
        }
    }
}

/// The variables of the subroutine holding `code_offset`, as read from its
/// unit; none when its unit is missing.
pub open spec fn spec_scope_variables(m: DwarfSubroutineMap, code_offset: usize) -> Option<Scan<Seq<VariableView>>> {
    match first_containing(m.subroutines@, code_offset as u64) {
        None => None,
        Some(i) => {
            let sub = m.subroutines@[i];
            match first_unit(m.units@, sub.unit_offset) {
                None => Some(Scan::Done(Seq::empty())),
                Some(u) => Some(spec_subroutine_variables(m.units@[u].root, sub.entry_offset)),
            }
        },
    }
}

/// How a variable is listed: its name and its type's name, each
/// `<<not parsed yet>>` when it cannot be read.
pub open spec fn listed(v: Variable, var: VariableView, root: Die) -> bool {
    &&& v.name@ == match var.name { Some(n) => n, None => "<<not parsed yet>>"@ }
    &&& v.ty_name@ == match spec_unit_type_name(root, var.ty_offset) { Ok(t) => t, Err(_) => "<<not parsed yet>>"@ }
}

/// What showing a variable gives.
pub enum Shown {
    /// Text to print.
    Text(Seq<char>),
    /// Nothing: the subroutine's unit is missing.
    Nothing,
    Fail(DwarfError),
    /// The subroutine has no variable of the name.
    NoVariable,
    /// The evaluation of the location asked for something or failed.
    Unevaluated(EvalOutcome),
    /// Showing cannot go on.
    Malformed,
}

/// What showing a variable named `name` of the subroutine holding
/// `code_offset` gives: its location evaluated from `frame_base`, then its
/// value in `memory` at the address of the first piece, by the entry of its
/// type.
pub open spec fn spec_display(m: DwarfSubroutineMap, code_offset: usize, frame_base: FrameBase, memory: Seq<u8>, name: Seq<char>)
    -> Shown
{
    match first_containing(m.subroutines@, code_offset as u64) {
        None => Shown::Fail(DwarfError::NoSubroutine),
        Some(i) => {
            let sub = m.subroutines@[i];
            match first_unit(m.units@, sub.unit_offset) {
                None => Shown::Nothing,
                Some(u) => {
                    let root = m.units@[u].root;
                    match spec_subroutine_variables(root, sub.entry_offset) {
                        Scan::Crash => Shown::Malformed,
                        Scan::Fail(e) => Shown::Fail(e),
                        Scan::Done(vars) => match first_named(vars, name) {
                            None => Shown::NoVariable,
                            Some(k) => match vars[k].content {
                                ContentView::Location(AttrView::Exprloc(bytes)) => match spec_evaluation(sub.encoding, frame_base, bytes) {
                                    EvalOutcome::Complete(pieces) => if pieces.len() == 0 {
                                        Shown::Text("failed to get piece of variable"@)
                                    } else {
                                        match vars[k].ty_offset {
                                            None => Shown::Text("no explicit type"@),
                                            Some(off) => match pieces[0] {
                                                None => Shown::Malformed,
                                                Some(address) => match find_in(root, off) {
                                                    None => Shown::Fail(DwarfError::NoEntry(off)),
                                                    Some(d) => if address as usize > memory.len() {
                                                        Shown::Malformed
                                                    } else {
                                                        match spec_format_die(d, memory.subrange(address as usize as int, memory.len() as int)) {
                                                            Scan::Done(t) => Shown::Text(t),
                                                            Scan::Fail(e) => Shown::Fail(e),
                                                            Scan::Crash => Shown::Malformed,
                                                        }
                                                    },
                                                },
                                            },
                                        }
                                    },
                                    o => Shown::Unevaluated(o),
                                },
                                _ => Shown::Malformed,
                            },
                        },
                    }
                },
            }
        },
    }
}

/// A result that matches what showing gives.
pub open spec fn shown_matches(r: Result<Option<String>, DwarfError>, s: Shown, name: Seq<char>) -> bool {
    match s {
        Shown::Text(t) => r matches Ok(Some(x)) && x@ == t,
        Shown::Nothing => r matches Ok(None),
        Shown::Fail(e) => r matches Err(x) && x == e,
        Shown::NoVariable => r matches Err(DwarfError::NoVariable(n)) && n@ == name,
        Shown::Unevaluated(o) => match o {
            EvalOutcome::RequiresFrameBase => r matches Err(DwarfError::UnexpectedFrameBase),
            EvalOutcome::Requires(t) => r matches Err(DwarfError::Evaluation(x)) && x@ == t,
            EvalOutcome::Failed(t) => r matches Err(DwarfError::Evaluation(x)) && x@ == t,
            EvalOutcome::Complete(_) => true,
        },
        Shown::Malformed => r matches Err(DwarfError::Malformed),
    }
}

/// Whether the variable named `name` of the subroutine holding
/// `code_offset` has a location of a form the debugger reads: when reading
/// its subroutine's variables goes on and finds it, its location is an
/// expression.
pub open spec fn spec_variable_readable(m: DwarfSubroutineMap, code_offset: usize, name: Seq<char>) -> bool {
    match spec_scope_variables(m, code_offset) {
        Some(Scan::Crash) => false,
        Some(Scan::Done(vars)) => match first_named(vars, name) {
            Some(k) => vars[k].content matches ContentView::Location(AttrView::Exprloc(_)),
            None => true,
        },
        _ => true,
    }
}

impl DwarfSubroutineMap {
    /// The variables of the subroutine holding `code_offset`, each with the
    /// name of its type.
    pub fn variable_name_list(&self, code_offset: usize) -> (r: Result<Vec<Variable>, DwarfError>)
        requires
            !(spec_scope_variables(*self, code_offset) matches Some(Scan::Crash)),
        ensures
            match spec_scope_variables(*self, code_offset) {
                None => r matches Err(DwarfError::NoSubroutine),
                Some(Scan::Fail(e)) => r matches Err(x) && x == e,
                Some(Scan::Done(vars)) => r matches Ok(v) && v@.len() == vars.len() && ({
                    let sub = self.subroutines@[first_containing(self.subroutines@, code_offset as u64)->0];
                    let root = self.units@[first_unit(self.units@, sub.unit_offset)->0].root;
                    first_unit(self.units@, sub.unit_offset) is Some ==> forall|k: int| 0 <= k < vars.len() ==> #[trigger] listed(v@[k], vars[k], root)
                }),
                Some(Scan::Crash) => true,
            },
    {
        let i = self.find_subroutine(code_offset);
        proof { lemma_first_containing(self.subroutines@, code_offset as u64, i); }
        let sub = match i {
            Some(i) => &self.subroutines[i],
            None => return Err(DwarfError::NoSubroutine),
        };
        let u = match header_from_offset(&self.units, sub.unit_offset) {
            Some(u) => u,
            None => return Ok(Vec::new()),
        };
        let root = &self.units[u].root;
        proof {
            let fi = first_containing(self.subroutines@, code_offset as u64)->0;
            assert(*sub == self.subroutines@[fi]);
            assert(first_unit(self.units@, sub.unit_offset) == Some(u as int));
            assert(spec_scope_variables(*self, code_offset) == Some(spec_subroutine_variables(*root, sub.entry_offset)));
        }
        let vars = match subroutine_variables(root, sub.entry_offset) {
            Ok(v) => v,
            Err(e) => return Err(e),
        };
        let mut out: Vec<Variable> = Vec::new();
        let mut k: usize = 0;
        while k < vars.len()
            invariant
                k <= vars@.len(),
                out@.len() == k,
                forall|m: int| 0 <= m < k ==> #[trigger] listed(out@[m], vars@[m]@, *root),
            decreases vars@.len() - k,
        {
            let var = &vars[k];
            let name = match &var.name {
                Some(n) => n.clone(),
                None => "<<not parsed yet>>".to_owned(),
            };
            let ty_name = match unit_type_name(root, var.ty_offset) {
                Ok(t) => t,
                Err(_) => "<<not parsed yet>>".to_owned(),
            };
            out.push(Variable { name, ty_name });
            k = k + 1;
        }
        proof {
            assert forall|m: int| 0 <= m < vars@.len() implies #[trigger] listed(out@[m], var_views(vars@)[m], *root) by {
                assert(var_views(vars@)[m] == vars@[m]@);
            }
        }
        Ok(out)
    }

    /// Shows the variable named `name` of the subroutine holding
    /// `code_offset`: the text to print, or none when its unit is missing.
    /// Where its first piece is no address or lies past the end of `memory`,
    /// or its type's value cannot be read, the result is `Malformed`.
    pub fn display_variable(&self, code_offset: usize, frame_base: FrameBase, memory: &[u8], name: &str)
        -> (r: Result<Option<String>, DwarfError>)
        requires
            spec_variable_readable(*self, code_offset, name@),
        ensures
            shown_matches(r, spec_display(*self, code_offset, frame_base, memory@, name@), name@),
    {
        let i = self.find_subroutine(code_offset);
        proof { lemma_first_containing(self.subroutines@, code_offset as u64, i); }
        let sub = match i {
            Some(i) => &self.subroutines[i],
            None => return Err(DwarfError::NoSubroutine),
        };
        let u = match header_from_offset(&self.units, sub.unit_offset) {
            Some(u) => u,
            None => return Ok(None),
        };
        let root = &self.units[u].root;
        let vars = match subroutine_variables(root, sub.entry_offset) {
            Ok(v) => v,
            Err(e) => return Err(e),
        };
        let k = match find_named(&vars, name) {
            Some(k) => k,
            None => return Err(DwarfError::NoVariable(name.to_owned())),
        };
        let var = &vars[k];
        proof { assert(var_views(vars@)[k as int] == var@); }
        let pieces = match &var.content {
            VariableContent::Location(AttrValue::Exprloc(bytes)) => {
                match evaluate_variable_location(sub.encoding, frame_base, bytes.as_slice()) {
                    Ok(p) => p,
                    Err(e) => return Err(e),
                }
            },
            _ => return Err(DwarfError::Malformed),
        };
        if pieces.len() == 0 {
            return Ok(Some("failed to get piece of variable".to_owned()));
        }
        let off = match var.ty_offset {
            Some(off) => off,
            None => return Ok(Some("no explicit type".to_owned())),
        };
        let address = match pieces[0] {
            Some(a) => a,
            None => return Err(DwarfError::Malformed),
        };
        let ty = match find_die(root, off) {
            Some(d) => d,
            None => return Err(DwarfError::NoEntry(off)),
        };
        let start = address as usize;
        if start > memory.len() {
            return Err(DwarfError::Malformed);
        }
        match format_die(ty, &memory[start..memory.len()]) {
            Ok(t) => Ok(Some(t)),
            Err(e) => Err(e),
        }
    }
}

} // verus!
