//! Subroutines as the command-line debugger reads them: one walk over the
//! entries of a unit in depth-first order, in which each subprogram collects
//! the variables that follow it until the next subprogram.

use vstd::prelude::*;
use crate::debugger::die::{
    attr_value, eval_from, spec_eval_from, text_view, AttrValue, AttrView, Die, DwarfEncoding, EvalResult,
    DW_AT_HIGH_PC, DW_AT_LOW_PC, DW_TAG_FORMAL_PARAMETER, DW_TAG_SUBPROGRAM, DW_TAG_VARIABLE,
};
use crate::debugger::dwarf::DwarfError;
use crate::debugger::variables::{
    is_variable, read_name, spec_name, spec_variable, transform_variable, ContentView, Scan, VariableContent,
};
use crate::vm::utils::str_eq;

verus! {

/// A variable of a subroutine: its name and where its value is.
pub struct SymbolVariable {
    pub name: Option<String>,
    pub content: VariableContent,
}

pub struct CliVariableView {
    pub name: Option<Seq<char>>,
    pub content: ContentView,
}

impl View for SymbolVariable {
    type V = CliVariableView;

    open spec fn view(&self) -> CliVariableView {
        CliVariableView { name: text_view(self.name), content: self.content@ }
    }
}

/// A subprogram with code: its name, the range of its code, its variables,
/// and the encoding of its unit.
pub struct Subroutine {
    pub name: Option<String>,
    pub pc: std::ops::Range<u64>,
    pub variables: Vec<SymbolVariable>,
    pub encoding: DwarfEncoding,
}

pub struct CliSubroutineView {
    pub name: Option<Seq<char>>,
    pub low: u64,
    pub high: u64,
    pub variables: Seq<CliVariableView>,
    pub encoding: DwarfEncoding,
}

pub open spec fn var_views(s: Seq<SymbolVariable>) -> Seq<CliVariableView> {
    s.map_values(|v: SymbolVariable| v@)
}

impl View for Subroutine {
    type V = CliSubroutineView;

    open spec fn view(&self) -> CliSubroutineView {
        CliSubroutineView {
            name: text_view(self.name),
            low: self.pc.start,
            high: self.pc.end,
            variables: var_views(self.variables@),
            encoding: self.encoding,
        }
    }
}

pub open spec fn sub_views(s: Seq<Subroutine>) -> Seq<CliSubroutineView> {
    s.map_values(|x: Subroutine| x@)
}

/// Where a walk over the entries is: the subroutines finished, and the one
/// collecting variables.
pub struct WalkView {
    pub done: Seq<CliSubroutineView>,
    pub current: Option<CliSubroutineView>,
}

pub open spec fn walk_view(done: Seq<Subroutine>, current: Option<Subroutine>) -> WalkView {
    WalkView {
        done: sub_views(done),
        current: match current {
            Some(c) => Some(c@),
            None => None,
        },
    }
}

/// The state after the entry `d`: a subprogram finishes the current
/// subroutine and starts a new one when it has a code range; a variable or
/// parameter joins the current subroutine; other entries change nothing.
pub open spec fn spec_visit(st: WalkView, d: Die, enc: DwarfEncoding) -> Scan<WalkView> {
    if d.tag == DW_TAG_SUBPROGRAM {
        match spec_name(d) {
            Err(e) => Scan::Fail(e),
            Ok(name) => {
                let done = match st.current {
                    Some(c) => st.done.push(c),
                    None => st.done,
                };
                let start = |low: u64, high: u64| Scan::Done(WalkView {
                    done,
                    current: Some(CliSubroutineView { name, low, high, variables: Seq::empty(), encoding: enc }),
                });
                match d.attr(DW_AT_LOW_PC) {
                    Some(AttrValue::Addr(low)) => match d.attr(DW_AT_HIGH_PC) {
                        Some(AttrValue::Udata(size)) => if low + size > u64::MAX {
                            Scan::Crash
                        } else {
                            start(low, (low + size) as u64)
                        },
                        Some(AttrValue::Addr(high)) => start(low, high),
                        Some(_) => Scan::Crash,
                        None => Scan::Done(WalkView { done, current: None }),
                    },
                    _ => Scan::Done(WalkView { done, current: None }),
                }
            },
        }
    } else if is_variable(d.tag) {
        match spec_variable(d) {
            Scan::Crash => Scan::Crash,
            Scan::Fail(e) => Scan::Fail(e),
            Scan::Done(v) => Scan::Done(match st.current {
                Some(c) => WalkView {
                    done: st.done,
                    current: Some(CliSubroutineView {
                        variables: c.variables.push(CliVariableView { name: v.name, content: v.content }),
                        ..c
                    }),
                },
                None => st,
            }),
        }
    } else {
        Scan::Done(st)
    }
}

/// The state after the entry `d` and the entries nested in it.
pub open spec fn spec_walk_node(d: Die, st: WalkView, enc: DwarfEncoding) -> Scan<WalkView>
    decreases d, 1nat,
{
    match spec_visit(st, d, enc) {
        Scan::Done(s1) => spec_walk_list(d.children@, s1, enc),
        Scan::Fail(e) => Scan::Fail(e),
        Scan::Crash => Scan::Crash,
    }
}

/// The state after the trees of `nodes`, one after another.
pub open spec fn spec_walk_list(nodes: Seq<Die>, st: WalkView, enc: DwarfEncoding) -> Scan<WalkView>
    decreases nodes, 0nat,
{
    if nodes.len() == 0 {
        Scan::Done(st)
    } else {
        match spec_walk_node(nodes[0], st, enc) {
            Scan::Done(s1) => spec_walk_list(nodes.subrange(1, nodes.len() as int), s1, enc),
            Scan::Fail(e) => Scan::Fail(e),
            Scan::Crash => Scan::Crash,
        }
    }
}

/// The subroutines of a unit whose root entry is `root`: the walk over the
/// entries below the root, with the last subroutine finished at the end.
pub open spec fn spec_flat_subroutines(root: Die, enc: DwarfEncoding) -> Scan<Seq<CliSubroutineView>> {
    match spec_walk_list(root.children@, WalkView { done: Seq::empty(), current: None }, enc) {
        Scan::Done(st) => Scan::Done(match st.current {
            Some(c) => st.done.push(c),
            None => st.done,
        }),
        Scan::Fail(e) => Scan::Fail(e),
        Scan::Crash => Scan::Crash,
    }
}

pub open spec fn walk_matches(r: Result<(), DwarfError>, s: Scan<WalkView>, after: WalkView) -> bool {
    match s {
        Scan::Done(st) => r is Ok && after == st,
        Scan::Fail(e) => r == Err::<(), DwarfError>(e),
        Scan::Crash => true,
    }
}

fn visit(d: &Die, enc: DwarfEncoding, done: &mut Vec<Subroutine>, current: &mut Option<Subroutine>) -> (r: Result<(), DwarfError>)
    requires
        !(spec_visit(walk_view(old(done)@, *old(current)), *d, enc) is Crash),
    ensures
        walk_matches(r, spec_visit(walk_view(old(done)@, *old(current)), *d, enc), walk_view(final(done)@, *final(current))),
{
    let ghost st = walk_view(done@, *current);
    if d.tag == DW_TAG_SUBPROGRAM {
        let name = match read_name(d) {
            Ok(n) => n,
            Err(e) => return Err(e),
        };
        match current.take() {
            Some(c) => {
                let ghost before = done@;
                done.push(c);
                proof { assert(sub_views(done@) =~= sub_views(before).push(c@)); }
            },
            None => {},
        }
        let low = match attr_value(d, DW_AT_LOW_PC) {
            Some(AttrValue::Addr(l)) => *l,
            _ => return Ok(()),
        };
        let high = match attr_value(d, DW_AT_HIGH_PC) {
            Some(AttrValue::Udata(size)) => low + *size,
            Some(AttrValue::Addr(h)) => *h,
            _ => return Ok(()),
        };
        let sub = Subroutine { name, pc: std::ops::Range { start: low, end: high }, variables: Vec::new(), encoding: enc };
        proof { assert(var_views(sub.variables@) =~= Seq::<CliVariableView>::empty()); }
        *current = Some(sub);
        Ok(())
    } else if d.tag == DW_TAG_VARIABLE || d.tag == DW_TAG_FORMAL_PARAMETER {
        let v = match transform_variable(d) {
            Ok(v) => v,
            Err(e) => return Err(e),
        };
        match current.take() {
            Some(c) => {
                let mut c = c;
                let ghost before = var_views(c.variables@);
                let ghost c0 = c@;
                c.variables.push(SymbolVariable { name: v.name, content: v.content });
                proof {
                    assert(var_views(c.variables@) =~= before.push(CliVariableView { name: v@.name, content: v@.content }));
                    assert(c@ == CliSubroutineView { variables: c0.variables.push(CliVariableView { name: v@.name, content: v@.content }), ..c0 });
                }
                *current = Some(c);
            },
            None => {},
        }
        Ok(())
    } else {
        Ok(())
    }
}

fn walk_node(d: &Die, enc: DwarfEncoding, done: &mut Vec<Subroutine>, current: &mut Option<Subroutine>) -> (r: Result<(), DwarfError>)
    requires
        !(spec_walk_node(*d, walk_view(old(done)@, *old(current)), enc) is Crash),
    ensures
        walk_matches(r, spec_walk_node(*d, walk_view(old(done)@, *old(current)), enc), walk_view(final(done)@, *final(current))),
    decreases d, 1nat,
{
    match visit(d, enc, done, current) {
        Ok(()) => {},
        Err(e) => return Err(e),
    }
    walk_list(&d.children, enc, done, current)
}

fn walk_list(nodes: &Vec<Die>, enc: DwarfEncoding, done: &mut Vec<Subroutine>, current: &mut Option<Subroutine>) -> (r: Result<(), DwarfError>)
    requires
        !(spec_walk_list(nodes@, walk_view(old(done)@, *old(current)), enc) is Crash),
    ensures
        walk_matches(r, spec_walk_list(nodes@, walk_view(old(done)@, *old(current)), enc), walk_view(final(done)@, *final(current))),
    decreases nodes@, 0nat,
{
    let ghost st0 = walk_view(done@, *current);
    let n = nodes.len();
    let mut i: usize = 0;
    proof { assert(nodes@.subrange(0, n as int) =~= nodes@); }
    while i < n
        invariant
            n == nodes@.len(),
            i <= n,
            st0 == walk_view(old(done)@, *old(current)),
            spec_walk_list(nodes@, st0, enc) == spec_walk_list(nodes@.subrange(i as int, n as int), walk_view(done@, *current), enc),
            !(spec_walk_list(nodes@, st0, enc) is Crash),
        decreases n - i,
    {
        let ghost suffix = nodes@.subrange(i as int, n as int);
        proof {
            assert(suffix[0] == nodes@[i as int]);
            assert(suffix.subrange(1, suffix.len() as int) =~= nodes@.subrange(i + 1, n as int));
        }
        match walk_node(&nodes[i], enc, done, current) {
            Ok(()) => {},
            Err(e) => return Err(e),
        }
        i = i + 1;
    }
    proof { assert(nodes@.subrange(n as int, n as int) =~= Seq::<Die>::empty()); }
    Ok(())
}

/// The subroutines of the unit whose root entry is `root`, in the order
/// their subprograms come in a depth-first walk.
pub fn transform_subprogram(root: &Die, enc: DwarfEncoding) -> (r: Result<Vec<Subroutine>, DwarfError>)
    requires
        !(spec_flat_subroutines(*root, enc) is Crash),
    ensures
        match spec_flat_subroutines(*root, enc) {
            Scan::Done(s) => r matches Ok(v) && sub_views(v@) == s,
            Scan::Fail(e) => r matches Err(x) && x == e,
            Scan::Crash => true,
        },
{
    let mut done: Vec<Subroutine> = Vec::new();
    let mut current: Option<Subroutine> = None;
    proof {
        assert(sub_views(done@) =~= Seq::<CliSubroutineView>::empty());
        assert(walk_view(done@, current) == WalkView { done: Seq::<CliSubroutineView>::empty(), current: None });
    }
    match walk_list(&root.children, enc, &mut done, &mut current) {
        Ok(()) => {},
        Err(e) => return Err(e),
    }
    match current {
        Some(c) => {
            let ghost before = done@;
            done.push(c);
            proof { assert(sub_views(done@) =~= sub_views(before).push(c@)); }
        },
        None => {},
    }
    Ok(done)
}

/// The subroutines of a module as the command-line debugger reads them.
pub struct DwarfSubroutineMap {
    pub subroutines: Vec<Subroutine>,
}

/// The index of the first subroutine whose code holds `offset`.
pub open spec fn first_holding(subs: Seq<CliSubroutineView>, offset: u64) -> Option<int>
    decreases subs.len(),
{
    if subs.len() == 0 {
        None
    } else if subs[0].low <= offset < subs[0].high {
        Some(0)
    } else {
        match first_holding(subs.drop_first(), offset) {
            Some(i) => Some(i + 1),
            None => None,
        }
    }
}

/// The names of the variables that have one, in order.
pub open spec fn names_of(vars: Seq<CliVariableView>) -> Seq<Seq<char>>
    decreases vars.len(),
{
    if vars.len() == 0 {
        Seq::empty()
    } else {
        names_of(vars.drop_last()) + match vars.last().name {
            Some(n) => seq![n],
            None => Seq::empty(),
        }
    }
}

/// The index of the first variable named `name`.
pub open spec fn first_var_named(vars: Seq<CliVariableView>, name: Seq<char>) -> Option<int>
    decreases vars.len(),
{
    if vars.len() == 0 {
        None
    } else if vars[0].name == Some(name) {
        Some(0)
    } else {
        match first_var_named(vars.drop_first(), name) {
            Some(i) => Some(i + 1),
            None => None,
        }
    }
}

/// Whether showing the variable `name` of the subroutine holding
/// `code_offset` can go on: where both are found, the variable's location is
/// an expression.
pub open spec fn spec_shown_ok(m: DwarfSubroutineMap, code_offset: usize, name: Seq<char>) -> bool {
    match first_holding(sub_views(m.subroutines@), code_offset as u64) {
        None => true,
        Some(i) => match first_var_named(sub_views(m.subroutines@)[i].variables, name) {
            None => true,
            Some(k) => sub_views(m.subroutines@)[i].variables[k].content matches ContentView::Location(AttrView::Exprloc(_)),
        },
    }
}

impl DwarfSubroutineMap {
    /// The index of the first subroutine whose code holds `code_offset`.
    fn find(&self, code_offset: usize) -> (r: Option<usize>)
        ensures
            match first_holding(sub_views(self.subroutines@), code_offset as u64) {
                Some(i) => r matches Some(x) && x as int == i && i < self.subroutines@.len(),
                None => r is None,
            },
    {
        let ghost subs = sub_views(self.subroutines@);
        let o = code_offset as u64;
        let n = self.subroutines.len();
        let mut i: usize = 0;
        proof { assert(subs.subrange(0, n as int) =~= subs); }
        while i < n
            invariant
                n == self.subroutines@.len(),
                subs == sub_views(self.subroutines@),
                o == code_offset as u64,
                i <= n,
                first_holding(subs, o) == match first_holding(subs.subrange(i as int, n as int), o) {
                    Some(k) => Some(k + i),
                    None => None,
                },
            decreases n - i,
        {
            let ghost sfx = subs.subrange(i as int, n as int);
            proof {
                assert(sfx[0] == subs[i as int]);
                assert(sfx.drop_first() =~= subs.subrange(i + 1, n as int));
            }
            let s = &self.subroutines[i];
            if s.pc.start <= o && o < s.pc.end {
                return Some(i);
            }
            i = i + 1;
        }
        proof { assert(subs.subrange(n as int, n as int) =~= Seq::<CliSubroutineView>::empty()); }
        None
    }

    /// The names of the variables of the subroutine holding `code_offset`.
    pub fn variable_name_list(&self, code_offset: usize) -> (r: Result<Vec<String>, DwarfError>)
        ensures
            match first_holding(sub_views(self.subroutines@), code_offset as u64) {
                None => r matches Err(DwarfError::NoSubroutine),
                Some(i) => r matches Ok(v)
                    && v@.map_values(|s: String| s@) == names_of(sub_views(self.subroutines@)[i].variables),
            },
    {
        let i = match self.find(code_offset) {
            Some(i) => i,
            None => return Err(DwarfError::NoSubroutine),
        };
        let vars = &self.subroutines[i].variables;
        let ghost vs = var_views(vars@);
        let mut out: Vec<String> = Vec::new();
        let mut k: usize = 0;
        proof { assert(vs.subrange(0, 0) =~= Seq::<CliVariableView>::empty()); }
        while k < vars.len()
            invariant
                k <= vars@.len(),
                vs == var_views(vars@),
                out@.map_values(|s: String| s@) == names_of(vs.subrange(0, k as int)),
            decreases vars@.len() - k,
        {
            proof {
                assert(vs.subrange(0, k + 1).drop_last() =~= vs.subrange(0, k as int));
                assert(vs.subrange(0, k + 1).last() == vars@[k as int]@);
            }
            let ghost before = out@;
            match &vars[k].name {
                Some(n) => {
                    out.push(n.clone());
                    proof {
                        assert(out@.map_values(|s: String| s@) =~= before.map_values(|s: String| s@) + seq![n@]);
                    }
                },
                None => {
                    proof {
                        assert(names_of(vs.subrange(0, k as int)) + Seq::<Seq<char>>::empty() =~= names_of(vs.subrange(0, k as int)));
                    }
                },
            }
            k = k + 1;
        }
        proof { assert(vs.subrange(0, k as int) =~= vs); }
        Ok(out)
    }

    /// Whether `display_variable` can show the variable `name` of the
    /// subroutine holding `code_offset`.
    pub fn variable_shown(&self, code_offset: usize, name: &str) -> (r: bool)
        ensures
            r == spec_shown_ok(*self, code_offset, name@),
    {
        let i = match self.find(code_offset) {
            Some(i) => i,
            None => return true,
        };
        match self.find_var(i, name) {
            None => true,
            Some(k) => matches!(&self.subroutines[i].variables[k].content, VariableContent::Location(AttrValue::Exprloc(_))),
        }
    }

    /// The index of the first variable named `name` of subroutine `i`.
    fn find_var(&self, i: usize, name: &str) -> (r: Option<usize>)
        requires
            i < self.subroutines@.len(),
        ensures
            match first_var_named(sub_views(self.subroutines@)[i as int].variables, name@) {
                Some(k) => r matches Some(x) && x as int == k && k < self.subroutines@[i as int].variables@.len(),
                None => r is None,
            },
    {
        let vars = &self.subroutines[i].variables;
        let ghost vs = var_views(vars@);
        proof { assert(vs == sub_views(self.subroutines@)[i as int].variables); }
        let n = vars.len();
        let mut k: usize = 0;
        proof { assert(vs.subrange(0, n as int) =~= vs); }
        while k < n
            invariant
                n == vars@.len(),
                vs == var_views(vars@),
                i < self.subroutines@.len(),
                vars == &self.subroutines@[i as int].variables,
                vs == sub_views(self.subroutines@)[i as int].variables,
                k <= n,
                first_var_named(vs, name@) == match first_var_named(vs.subrange(k as int, n as int), name@) {
                    Some(j) => Some(j + k),
                    None => None,
                },
            decreases n - k,
        {
            let ghost sfx = vs.subrange(k as int, n as int);
            proof {
                assert(sfx[0] == vs[k as int]);
                assert(sfx.drop_first() =~= vs.subrange(k + 1, n as int));
                assert(vs[k as int] == vars@[k as int]@);
            }
            match &vars[k].name {
                Some(v) => {
                    if str_eq(v.as_str(), name) {
                        return Some(k);
                    }
                },
                None => {},
            }
            k = k + 1;
        }
        proof { assert(vs.subrange(n as int, n as int) =~= Seq::<CliVariableView>::empty()); }
        None
    }

    /// Evaluates the location of the variable `name` of the subroutine
    /// holding `code_offset`, its stack pointer `rbp` given as the initial
    /// value: what the evaluation gives.
    pub fn display_variable(&self, code_offset: usize, rbp: u32, _memory: &[u8], name: &str) -> (r: Result<EvalResult, DwarfError>)
        requires
            spec_shown_ok(*self, code_offset, name@),
        ensures
            match first_holding(sub_views(self.subroutines@), code_offset as u64) {
                None => r matches Err(DwarfError::NoSubroutine),
                Some(i) => {
                    let sub = sub_views(self.subroutines@)[i];
                    match first_var_named(sub.variables, name@) {
                        None => r matches Err(DwarfError::NoVariable(n)) && n@ == name@,
                        Some(k) => match sub.variables[k].content {
                            ContentView::Location(AttrView::Exprloc(b)) => r matches Ok(x)
                                && x@ == spec_eval_from(b, sub.encoding, rbp as u64),
                            _ => false,
                        },
                    }
                },
            },
    {
        let i = match self.find(code_offset) {
            Some(i) => i,
            None => return Err(DwarfError::NoSubroutine),
        };
        let k = match self.find_var(i, name) {
            Some(k) => k,
            None => return Err(DwarfError::NoVariable(name.to_owned())),
        };
        let sub = &self.subroutines[i];
        proof { assert(var_views(sub.variables@)[k as int] == sub.variables@[k as int]@); }
        match &sub.variables[k].content {
            VariableContent::Location(AttrValue::Exprloc(b)) => Ok(eval_from(b.as_slice(), sub.encoding, rbp as u64)),
            _ => Err(DwarfError::UnsupportedEntry),
        }
    }
}

} // verus!
