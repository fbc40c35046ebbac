//! Instantiating a decoded module: its functions, memories and tables, with
//! the active element and data segments written into them.

use vstd::prelude::*;
use vstd::string::StringExecFns;
use crate::text::{dec, push_radix};
use crate::vm::address::{FuncAddr, ModuleIndex};
use crate::vm::executor::copy_func_type;
use crate::vm::func::{expand_locals, lemma_expand_locals_prefix, DefinedFunctionInstance, FunctionInstance, FunctionType, HostFunctionInstance, Locals};
use crate::vm::global::DefinedGlobalInstance;
use crate::vm::instruction::Instruction;
use crate::vm::memory::{self, MemoryInstance, WASM_MAX_PAGES, WASM_PAGE_SIZE};
use crate::vm::module::{spec_external_value, DefinedModuleInstance, ExportEntry, HostExport, HostModuleInstance, Internal, ModuleInstance};
use crate::vm::store::{func_wf, module_wf, ModuleParts, Store};
use crate::vm::utils::str_eq;
use crate::vm::table::{self, DefinedTableInstance};

verus! {

/// A module as its sections declare it, decoded into plain values.
pub struct DecodedModule {
    pub types: Vec<FunctionType>,
    /// Each imported function: the module and field it is imported from,
    /// and its type index.
    pub imports: Vec<(String, String, u32)>,
    /// The type index of each function the module defines.
    pub func_types: Vec<u32>,
    /// The local groups and instructions of each function the module defines.
    pub bodies: Vec<(Vec<Locals>, Vec<Instruction>)>,
    /// Each table's initial and maximum size.
    pub tables: Vec<(usize, Option<usize>)>,
    /// Each memory's initial and maximum page count.
    pub memories: Vec<(usize, Option<usize>)>,
    pub globals: Vec<DefinedGlobalInstance>,
    pub exports: Vec<ExportEntry>,
    pub start: Option<u32>,
    /// Each active element segment: its table, offset and function indices.
    pub elements: Vec<(usize, usize, Vec<u32>)>,
    /// Each active data segment: its memory, offset and bytes.
    pub data: Vec<(usize, usize, Vec<u8>)>,
}

/// Why a decoded module cannot be instantiated.
#[derive(Clone, Copy, Debug, PartialEq, Eq, Structural)]
pub enum InstantiateError {
    /// A type index with no type.
    NoType(u32),
    /// A memory of this many initial pages, more than a memory may have.
    MemoryTooLarge(usize),
    /// More functions than a function index can number.
    TooManyFunctions,
    /// The defined function at this position has no type index.
    NoFunctionType(usize),
    /// The defined function at this position declares more locals than fit.
    TooManyLocals(usize),
    /// The defined function at this position has too many instructions.
    BodyTooLong(usize),
    /// An element segment names a table that does not exist.
    NoTable(usize),
    /// An element segment does not fit in its table.
    Table(table::Error),
    /// A data segment names a memory that does not exist.
    NoMemory(usize),
    /// A data segment does not fit in its memory.
    Memory(memory::Error),
    /// More modules than a module index can number.
    TooManyModules,
}

/// Two function types with the same parameters and results.
pub open spec fn same_type(a: FunctionType, b: FunctionType) -> bool {
    a.params@ == b.params@ && a.returns@ == b.returns@
}

// ---------------------------------------------------------------- imports

pub open spec fn import_ok(types: Seq<FunctionType>, i: (String, String, u32)) -> bool {
    (i.2 as int) < types.len()
}

/// The first import whose type index has no type, as an error.
#[verifier::opaque]
pub open spec fn import_error(types: Seq<FunctionType>, imports: Seq<(String, String, u32)>) -> Option<InstantiateError> {
    if exists|k: int| 0 <= k < imports.len() && !import_ok(types, #[trigger] imports[k]) {
        let k = choose|k: int| 0 <= k < imports.len() && !import_ok(types, #[trigger] imports[k])
            && forall|j: int| 0 <= j < k ==> import_ok(types, #[trigger] imports[j]);
        Some(InstantiateError::NoType(imports[k].2))
    } else {
        None
    }
}

/// The function an import becomes: a host function of the imported module
/// and field, with the import's type.
pub open spec fn host_import(f: FunctionInstance, types: Seq<FunctionType>, i: (String, String, u32)) -> bool {
    f matches FunctionInstance::Host(h) && same_type(h.spec_ty(), types[i.2 as int])
        && h.spec_module_name() == i.0@ && h.spec_field_name() == i.1@
}

fn import_funcs(types: &Vec<FunctionType>, imports: &Vec<(String, String, u32)>) -> (r: Result<Vec<FunctionInstance>, InstantiateError>)
    ensures
        match import_error(types@, imports@) {
            Some(e) => r == Err::<Vec<FunctionInstance>, InstantiateError>(e),
            None => r matches Ok(v) && v@.len() == imports@.len()
                && forall|k: int| 0 <= k < imports@.len() ==> host_import(#[trigger] v@[k], types@, imports@[k]),
        },
{
    let mut out: Vec<FunctionInstance> = Vec::new();
    let mut k: usize = 0;
    while k < imports.len()
        invariant
            k <= imports@.len(),
            out@.len() == k,
            forall|j: int| 0 <= j < k ==> import_ok(types@, #[trigger] imports@[j]),
            forall|j: int| 0 <= j < k ==> host_import(#[trigger] out@[j], types@, imports@[j]),
        decreases imports@.len() - k,
    {
        let idx = imports[k].2;
        if idx as usize >= types.len() {
            proof {
                reveal(import_error);
                let ks = k as int;
                assert(!import_ok(types@, imports@[ks]));
                let c = choose|c: int| 0 <= c < imports@.len() && !import_ok(types@, #[trigger] imports@[c])
                    && forall|j: int| 0 <= j < c ==> import_ok(types@, #[trigger] imports@[j]);
                if c < ks {
                    assert(import_ok(types@, imports@[c]));
                } else if c > ks {
                    assert(import_ok(types@, imports@[ks]));
                }
            }
            return Err(InstantiateError::NoType(idx));
        }
        let f = FunctionInstance::Host(HostFunctionInstance::new(
            copy_func_type(&types[idx as usize]),
            imports[k].0.clone(),
            imports[k].1.clone(),
        ));
        out.push(f);
        k = k + 1;
    }
    proof { reveal(import_error); }
    Ok(out)
}

// ---------------------------------------------------------------- memories and tables

pub open spec fn memory_ok(l: (usize, Option<usize>)) -> bool {
    l.0 <= WASM_MAX_PAGES && l.0 * WASM_PAGE_SIZE <= usize::MAX
}

/// The first memory with more pages than a memory may have, as an error.
#[verifier::opaque]
pub open spec fn memory_error(limits: Seq<(usize, Option<usize>)>) -> Option<InstantiateError> {
    if exists|k: int| 0 <= k < limits.len() && !memory_ok(#[trigger] limits[k]) {
        let k = choose|k: int| 0 <= k < limits.len() && !memory_ok(#[trigger] limits[k])
            && forall|j: int| 0 <= j < k ==> memory_ok(#[trigger] limits[j]);
        Some(InstantiateError::MemoryTooLarge(limits[k].0))
    } else {
        None
    }
}

/// A new memory of the declared limits: zero bytes.
pub open spec fn fresh_memory(m: MemoryInstance, l: (usize, Option<usize>)) -> bool {
    &&& m.wf()
    &&& m.spec_data() == Seq::new((l.0 * WASM_PAGE_SIZE) as nat, |_i: int| 0u8)
    &&& m.spec_initial() == l.0
    &&& m.spec_max() == l.1
}

fn new_memories(limits: &Vec<(usize, Option<usize>)>) -> (r: Result<Vec<MemoryInstance>, InstantiateError>)
    ensures
        match memory_error(limits@) {
            Some(e) => r == Err::<Vec<MemoryInstance>, InstantiateError>(e),
            None => r matches Ok(v) && v@.len() == limits@.len()
                && forall|k: int| 0 <= k < limits@.len() ==> fresh_memory(#[trigger] v@[k], limits@[k]),
        },
{
    let mut out: Vec<MemoryInstance> = Vec::new();
    let mut k: usize = 0;
    while k < limits.len()
        invariant
            k <= limits@.len(),
            out@.len() == k,
            forall|j: int| 0 <= j < k ==> memory_ok(#[trigger] limits@[j]),
            forall|j: int| 0 <= j < k ==> fresh_memory(#[trigger] out@[j], limits@[j]),
        decreases limits@.len() - k,
    {
        let (initial, maximum) = limits[k];
        if initial > WASM_MAX_PAGES || initial > usize::MAX / WASM_PAGE_SIZE {
            proof {
                reveal(memory_error);
                let ks = k as int;
                if initial <= WASM_MAX_PAGES {
                    assert(initial * WASM_PAGE_SIZE > usize::MAX) by (nonlinear_arith)
                        requires initial > usize::MAX / WASM_PAGE_SIZE, WASM_PAGE_SIZE > 0;
                }
                assert(!memory_ok(limits@[ks]));
                let c = choose|c: int| 0 <= c < limits@.len() && !memory_ok(#[trigger] limits@[c])
                    && forall|j: int| 0 <= j < c ==> memory_ok(#[trigger] limits@[j]);
                if c < ks {
                    assert(memory_ok(limits@[c]));
                } else if c > ks {
                    assert(memory_ok(limits@[ks]));
                }
            }
            return Err(InstantiateError::MemoryTooLarge(initial));
        }
        proof {
                reveal(memory_error);
            assert(initial * WASM_PAGE_SIZE <= usize::MAX) by (nonlinear_arith)
                requires initial <= usize::MAX / WASM_PAGE_SIZE, WASM_PAGE_SIZE > 0;
        }
        out.push(MemoryInstance::new(initial, maximum));
        k = k + 1;
    }
    proof { reveal(memory_error); }
    Ok(out)
}

/// A new table of the declared limits: no element set.
pub open spec fn fresh_table(t: DefinedTableInstance, l: (usize, Option<usize>)) -> bool {
    &&& t.spec_buffer() == Seq::new(l.0 as nat, |_i: int| None::<FuncAddr>)
    &&& t.spec_initial() == l.0
    &&& t.spec_max() == l.1
}

fn new_tables(limits: &Vec<(usize, Option<usize>)>) -> (r: Vec<DefinedTableInstance>)
    ensures
        r@.len() == limits@.len(),
        forall|k: int| 0 <= k < limits@.len() ==> fresh_table(#[trigger] r@[k], limits@[k]),
{
    let mut out: Vec<DefinedTableInstance> = Vec::new();
    let mut k: usize = 0;
    while k < limits.len()
        invariant
            k <= limits@.len(),
            out@.len() == k,
            forall|j: int| 0 <= j < k ==> fresh_table(#[trigger] out@[j], limits@[j]),
        decreases limits@.len() - k,
    {
        let (initial, maximum) = limits[k];
        out.push(DefinedTableInstance::new(initial, maximum));
        k = k + 1;
    }
    out
}

// ---------------------------------------------------------------- defined functions

/// The position of the first export of function `idx`.
pub open spec fn first_func_export(exports: Seq<ExportEntry>, idx: u32) -> Option<int>
    decreases exports.len(),
{
    if exports.len() == 0 {
        None
    } else if exports[0].internal == Internal::Function(idx) {
        Some(0)
    } else {
        match first_func_export(exports.drop_first(), idx) {
            Some(k) => Some(k + 1),
            None => None,
        }
    }
}

/// The name of function `idx`: the name it is first exported under, else
/// the module's name, `::func` and its index.
pub open spec fn func_name(exports: Seq<ExportEntry>, module_name: Seq<char>, idx: u32) -> Seq<char> {
    match first_func_export(exports, idx) {
        Some(k) => exports[k].field@,
        None => module_name + "::func"@ + dec(idx as nat),
    }
}

proof fn lemma_first_func_export(e: Seq<ExportEntry>, idx: u32, i: int)
    requires
        0 <= i <= e.len(),
        forall|j: int| 0 <= j < i ==> (#[trigger] e[j]).internal != Internal::Function(idx),
        i == e.len() || e[i].internal == Internal::Function(idx),
    ensures
        first_func_export(e, idx) == if i < e.len() { Some(i) } else { None::<int> },
    decreases e.len(),
{
    if e.len() > 0 && i > 0 {
        assert(e[0].internal != Internal::Function(idx));
        lemma_first_func_export(e.drop_first(), idx, i - 1);
    }
}

fn name_of_func(exports: &Vec<ExportEntry>, module_name: &str, idx: u32) -> (r: String)
    ensures
        r@ == func_name(exports@, module_name@, idx),
{
    let mut i: usize = 0;
    while i < exports.len()
        invariant
            i <= exports@.len(),
            forall|j: int| 0 <= j < i ==> (#[trigger] exports@[j]).internal != Internal::Function(idx),
        decreases exports@.len() - i,
    {
        if exports[i].internal == Internal::Function(idx) {
            proof { lemma_first_func_export(exports@, idx, i as int); }
            return exports[i].field.clone();
        }
        i = i + 1;
    }
    proof { lemma_first_func_export(exports@, idx, i as int); }
    let mut s = String::new();
    s.append(module_name);
    proof { reveal_strlit("::func"); }
    s.append("::func");
    push_radix(&mut s, idx as u128, 10);
    proof {
        assert(s@ =~= module_name@ + "::func"@ + dec(idx as nat));
    }
    s
}

/// Decides whether the locals of the groups can be counted in `usize`.
fn locals_fit(groups: &Vec<Locals>) -> (r: bool)
    ensures
        r == (expand_locals(groups@).len() <= usize::MAX),
{
    let mut total: usize = 0;
    let mut g: usize = 0;
    proof { assert(groups@.subrange(0, 0) =~= Seq::<Locals>::empty()); }
    while g < groups.len()
        invariant
            g <= groups@.len(),
            total == expand_locals(groups@.subrange(0, g as int)).len(),
        decreases groups@.len() - g,
    {
        proof { lemma_expand_locals_prefix(groups@, (g + 1) as nat); }
        match total.checked_add(groups[g].count as usize) {
            None => return false,
            Some(t) => total = t,
        }
        g = g + 1;
    }
    proof { assert(groups@.subrange(0, groups@.len() as int) =~= groups@); }
    true
}

/// What stops the function defined at position `k` from being made.
pub open spec fn body_error_at(
    types: Seq<FunctionType>,
    func_types: Seq<u32>,
    bodies: Seq<(Vec<Locals>, Vec<Instruction>)>,
    k: int,
) -> Option<InstantiateError> {
    if k >= func_types.len() {
        Some(InstantiateError::NoFunctionType(k as usize))
    } else if func_types[k] as int >= types.len() {
        Some(InstantiateError::NoType(func_types[k]))
    } else if expand_locals(bodies[k].0@).len() > usize::MAX {
        Some(InstantiateError::TooManyLocals(k as usize))
    } else if bodies[k].1@.len() >= u32::MAX {
        Some(InstantiateError::BodyTooLong(k as usize))
    } else {
        None
    }
}

/// What stops the first defined function that cannot be made.
#[verifier::opaque]
pub open spec fn bodies_error(
    types: Seq<FunctionType>,
    func_types: Seq<u32>,
    bodies: Seq<(Vec<Locals>, Vec<Instruction>)>,
) -> Option<InstantiateError> {
    if exists|k: int| 0 <= k < bodies.len() && (#[trigger] body_error_at(types, func_types, bodies, k)) is Some {
        let k = choose|k: int| 0 <= k < bodies.len() && (#[trigger] body_error_at(types, func_types, bodies, k)) is Some
            && forall|j: int| 0 <= j < k ==> (#[trigger] body_error_at(types, func_types, bodies, j)) is None;
        body_error_at(types, func_types, bodies, k)
    } else {
        None
    }
}

/// The function defined at position `k`, at index `n + k` of the module:
/// named by `func_name`, with its type, locals and instructions.
pub open spec fn defined_func(
    f: FunctionInstance,
    types: Seq<FunctionType>,
    func_types: Seq<u32>,
    bodies: Seq<(Vec<Locals>, Vec<Instruction>)>,
    exports: Seq<ExportEntry>,
    module_name: Seq<char>,
    index: ModuleIndex,
    n: int,
    k: int,
) -> bool {
    f matches FunctionInstance::Defined(d)
        && d.spec_name() == func_name(exports, module_name, (n + k) as u32)
        && same_type(d.spec_ty(), types[func_types[k] as int])
        && d.spec_module_index() == index
        && d.spec_locals() == expand_locals(bodies[k].0@)
        && d.spec_instructions() == bodies[k].1@
}

fn defined_funcs(
    types: &Vec<FunctionType>,
    func_types: &Vec<u32>,
    bodies: &mut Vec<(Vec<Locals>, Vec<Instruction>)>,
    exports: &Vec<ExportEntry>,
    module_name: &str,
    index: ModuleIndex,
    out: &mut Vec<FunctionInstance>,
) -> (r: Result<(), InstantiateError>)
    requires
        old(out)@.len() + old(bodies)@.len() <= u32::MAX,
    ensures
        match bodies_error(types@, func_types@, old(bodies)@) {
            Some(e) => r == Err::<(), InstantiateError>(e),
            None => r is Ok && final(out)@.len() == old(out)@.len() + old(bodies)@.len()
                && final(out)@.subrange(0, old(out)@.len() as int) == old(out)@
                && (forall|k: int| 0 <= k < old(bodies)@.len() ==> defined_func(#[trigger] final(out)@[old(out)@.len() + k],
                    types@, func_types@, old(bodies)@, exports@, module_name@, index, old(out)@.len() as int, k))
                && (forall|k: int| 0 <= k < old(bodies)@.len() ==> func_wf(#[trigger] final(out)@[old(out)@.len() + k])),
        },
{
    let ghost all = bodies@;
    let ghost n = out@.len() as int;
    let ghost before = out@;
    let count = bodies.len();
    let mut k: usize = 0;
    while k < count
        invariant
            count == all.len(),
            all == old(bodies)@,
            before == old(out)@,
            k <= count,
            bodies@ == all.subrange(k as int, count as int),
            n + count <= u32::MAX,
            out@.len() == n + k,
            forall|i: int| 0 <= i < n ==> out@[i] == before[i],
            before.len() == n,
            forall|j: int| 0 <= j < k ==> (#[trigger] body_error_at(types@, func_types@, all, j)) is None,
            forall|j: int| 0 <= j < k ==> defined_func(#[trigger] out@[n + j], types@, func_types@, all, exports@, module_name@, index, n, j),
            forall|j: int| 0 <= j < k ==> func_wf(#[trigger] out@[n + j]),
        decreases count - k,
    {
        let err = if k >= func_types.len() {
            Some(InstantiateError::NoFunctionType(k))
        } else if func_types[k] as usize >= types.len() {
            Some(InstantiateError::NoType(func_types[k]))
        } else if !locals_fit(&bodies[0].0) {
            Some(InstantiateError::TooManyLocals(k))
        } else if bodies[0].1.len() >= u32::MAX as usize {
            Some(InstantiateError::BodyTooLong(k))
        } else {
            None
        };
        proof { reveal(bodies_error); assert(bodies@[0] == all[k as int]); }
        assert(err == body_error_at(types@, func_types@, all, k as int));
        if let Some(e) = err {
            proof {
                reveal(bodies_error);
                let ks = k as int;
                assert(0 <= ks < all.len() && (body_error_at(types@, func_types@, all, ks)) is Some);
                let c = choose|c: int| 0 <= c < all.len() && (#[trigger] body_error_at(types@, func_types@, all, c)) is Some
                    && forall|j: int| 0 <= j < c ==> (#[trigger] body_error_at(types@, func_types@, all, j)) is None;
                if c < ks {
                    assert(body_error_at(types@, func_types@, all, c) is None);
                } else if c > ks {
                    assert(body_error_at(types@, func_types@, all, ks) is None);
                }
                assert(c == ks);
                assert(bodies_error(types@, func_types@, all) == Some(e));
            }
            return Err(e);
        }
        let (locals, insts) = bodies.remove(0);
        proof { reveal(bodies_error); assert(bodies@ =~= all.subrange(k + 1, count as int)); }
        let idx = out.len() as u32;
        let name = name_of_func(exports, module_name, idx);
        let ty = copy_func_type(&types[func_types[k] as usize]);
        let f = FunctionInstance::Defined(DefinedFunctionInstance::new(name, ty, index, locals, insts));
        let ghost prev = out@;
        out.push(f);
        proof {
                reveal(bodies_error);
            assert(prev.len() == n + k);
            assert forall|i: int| 0 <= i < n implies out@[i] == prev[i] by {}
            assert forall|j: int| 0 <= j < k + 1 implies defined_func(#[trigger] out@[n + j], types@, func_types@, all, exports@, module_name@, index, n, j) by {
                if j < k {
                    assert(out@[n + j] == prev[n + j]);
                }
            }
            assert forall|j: int| 0 <= j < k + 1 implies func_wf(#[trigger] out@[n + j]) by {
                if j < k {
                    assert(out@[n + j] == prev[n + j]);
                }
            }
        }
        k = k + 1;
    }
    proof {
                reveal(bodies_error);
        assert(!(exists|j: int| 0 <= j < all.len() && (#[trigger] body_error_at(types@, func_types@, all, j)) is Some));
        assert(out@.subrange(0, n) =~= before);
    }
    Ok(())
}

// ---------------------------------------------------------------- segments

/// Each table's initial size.
pub open spec fn table_initials(ts: Seq<DefinedTableInstance>) -> Seq<usize> {
    ts.map_values(|t: DefinedTableInstance| t.spec_initial())
}

/// Each table's elements.
pub open spec fn table_buffers(ts: Seq<DefinedTableInstance>) -> Seq<Seq<Option<FuncAddr>>> {
    ts.map_values(|t: DefinedTableInstance| t.spec_buffer())
}

/// Where an access from `offset` of `len` items ends past `size`: the end
/// when it fits in `usize`.
pub open spec fn past_end(offset: usize, len: nat, size: usize) -> (Option<usize>, usize) {
    (if offset + len > usize::MAX { None } else { Some((offset + len) as usize) }, size)
}

/// What stops an element segment from being written.
pub open spec fn element_error_at(initials: Seq<usize>, e: (usize, usize, Vec<u32>)) -> Option<InstantiateError> {
    if e.0 as int >= initials.len() {
        Some(InstantiateError::NoTable(e.0))
    } else if e.1 + e.2@.len() > initials[e.0 as int] {
        let (end, size) = past_end(e.1, e.2@.len(), initials[e.0 as int]);
        Some(InstantiateError::Table(table::Error::AccessOutOfBounds(end, size)))
    } else {
        None
    }
}

/// What stops the first element segment that cannot be written.
#[verifier::opaque]
pub open spec fn elements_error(initials: Seq<usize>, elements: Seq<(usize, usize, Vec<u32>)>) -> Option<InstantiateError> {
    if exists|k: int| 0 <= k < elements.len() && (#[trigger] element_error_at(initials, elements[k])) is Some {
        let k = choose|k: int| 0 <= k < elements.len() && (#[trigger] element_error_at(initials, elements[k])) is Some
            && forall|j: int| 0 <= j < k ==> (#[trigger] element_error_at(initials, elements[j])) is None;
        element_error_at(initials, elements[k])
    } else {
        None
    }
}

/// The functions of a segment, as table elements of module `index`.
pub open spec fn segment_funcs(items: Seq<u32>, index: ModuleIndex) -> Seq<Option<FuncAddr>> {
    items.map_values(|f: u32| Some(FuncAddr(index, f as usize)))
}

/// `bytes` written into `b` from `offset` on.
pub open spec fn written<T>(b: Seq<T>, offset: usize, bytes: Seq<T>) -> Seq<T> {
    b.subrange(0, offset as int) + bytes + b.subrange(offset + bytes.len(), b.len() as int)
}

/// The tables' elements after the segments are written in order.
pub open spec fn elements_written(
    bufs: Seq<Seq<Option<FuncAddr>>>,
    elements: Seq<(usize, usize, Vec<u32>)>,
    index: ModuleIndex,
) -> Seq<Seq<Option<FuncAddr>>>
    decreases elements.len(),
{
    if elements.len() == 0 {
        bufs
    } else {
        let prev = elements_written(bufs, elements.drop_last(), index);
        let e = elements.last();
        prev.update(e.0 as int, written(prev[e.0 as int], e.1, segment_funcs(e.2@, index)))
    }
}

fn segment_addrs(items: &Vec<u32>, index: ModuleIndex) -> (r: Vec<FuncAddr>)
    ensures
        r@.len() == items@.len(),
        r@.map_values(|a: FuncAddr| Some(a)) == segment_funcs(items@, index),
{
    let mut out: Vec<FuncAddr> = Vec::new();
    let mut k: usize = 0;
    while k < items.len()
        invariant
            k <= items@.len(),
            out@.len() == k,
            forall|j: int| 0 <= j < k ==> #[trigger] out@[j] == FuncAddr(index, items@[j] as usize),
        decreases items@.len() - k,
    {
        out.push(FuncAddr(index, items[k] as usize));
        k = k + 1;
    }
    assert(out@.map_values(|a: FuncAddr| Some(a)) =~= segment_funcs(items@, index));
    out
}

fn write_elements(tables: &mut Vec<DefinedTableInstance>, elements: &Vec<(usize, usize, Vec<u32>)>, index: ModuleIndex)
    -> (r: Result<(), InstantiateError>)
    requires
        forall|k: int| 0 <= k < old(tables)@.len() ==> (#[trigger] old(tables)@[k]).spec_buffer().len() == old(tables)@[k].spec_initial(),
    ensures
        match elements_error(table_initials(old(tables)@), elements@) {
            Some(e) => r == Err::<(), InstantiateError>(e),
            None => r is Ok && final(tables)@.len() == old(tables)@.len()
                && table_initials(final(tables)@) == table_initials(old(tables)@)
                && (forall|k: int| 0 <= k < old(tables)@.len() ==> (#[trigger] final(tables)@[k]).spec_max() == old(tables)@[k].spec_max())
                && table_buffers(final(tables)@) == elements_written(table_buffers(old(tables)@), elements@, index),
        },
{
    let ghost initials = table_initials(tables@);
    let ghost bufs = table_buffers(tables@);
    let ghost before = tables@;
    let mut i: usize = 0;
    proof { reveal(elements_error); assert(elements@.subrange(0, 0) =~= Seq::<(usize, usize, Vec<u32>)>::empty()); }
    while i < elements.len()
        invariant
            i <= elements@.len(),
            before == old(tables)@,
            initials == table_initials(before),
            bufs == table_buffers(before),
            tables@.len() == before.len(),
            table_initials(tables@) == initials,
            forall|k: int| 0 <= k < before.len() ==> (#[trigger] tables@[k]).spec_max() == before[k].spec_max(),
            forall|k: int| 0 <= k < before.len() ==> (#[trigger] tables@[k]).spec_buffer().len() == tables@[k].spec_initial(),
            table_buffers(tables@) == elements_written(bufs, elements@.subrange(0, i as int), index),
            forall|j: int| 0 <= j < i ==> (#[trigger] element_error_at(initials, elements@[j])) is None,
        decreases elements@.len() - i,
    {
        let t = elements[i].0;
        let offset = elements[i].1;
        let ghost is = i as int;
        if t >= tables.len() {
            proof {
                reveal(elements_error);
                assert(element_error_at(initials, elements@[is]) == Some(InstantiateError::NoTable(t)));
                let c = choose|c: int| 0 <= c < elements@.len() && (#[trigger] element_error_at(initials, elements@[c])) is Some
                    && forall|j: int| 0 <= j < c ==> (#[trigger] element_error_at(initials, elements@[j])) is None;
                if c < is {
                    assert(element_error_at(initials, elements@[c]) is None);
                } else if c > is {
                    assert(element_error_at(initials, elements@[is]) is None);
                }
            }
            return Err(InstantiateError::NoTable(t));
        }
        let addrs = segment_addrs(&elements[i].2, index);
        let ghost av = addrs@;
        let mut tb = DefinedTableInstance::new(0, None);
        tables.set_and_swap(t, &mut tb);
        let ghost prev_tb = tb;
        proof {
                reveal(elements_error);
            assert(initials[t as int] == prev_tb.spec_initial());
        }
        match tb.initialize(offset, addrs) {
            Ok(()) => {},
            Err(e) => {
                proof {
                reveal(elements_error);
                    assert(av.len() == elements@[is].2@.len());
                    assert(element_error_at(initials, elements@[is]) == Some(InstantiateError::Table(e)));
                    let c = choose|c: int| 0 <= c < elements@.len() && (#[trigger] element_error_at(initials, elements@[c])) is Some
                        && forall|j: int| 0 <= j < c ==> (#[trigger] element_error_at(initials, elements@[j])) is None;
                    if c < is {
                        assert(element_error_at(initials, elements@[c]) is None);
                    } else if c > is {
                        assert(element_error_at(initials, elements@[is]) is None);
                    }
                }
                return Err(InstantiateError::Table(e));
            },
        }
        let ghost mid = tables@;
        tables.set_and_swap(t, &mut tb);
        proof {
                reveal(elements_error);
            let pre = elements@.subrange(0, is + 1);
            assert(pre.drop_last() =~= elements@.subrange(0, is));
            assert(pre.last() == elements@[is]);
            assert(av.len() == elements@[is].2@.len());
            assert(tables@[t as int].spec_buffer() == written(prev_tb.spec_buffer(), offset, segment_funcs(elements@[is].2@, index)));
            assert(table_buffers(tables@) =~= elements_written(bufs, pre, index));
            assert(table_initials(tables@) =~= initials);
            assert(element_error_at(initials, elements@[is]) is None);
        }
        i = i + 1;
    }
    proof {
                reveal(elements_error);
        assert(elements@.subrange(0, elements@.len() as int) =~= elements@);
        assert(!(exists|j: int| 0 <= j < elements@.len() && (#[trigger] element_error_at(initials, elements@[j])) is Some));
    }
    Ok(())
}

/// Each memory's size in bytes.
pub open spec fn memory_sizes(ms: Seq<MemoryInstance>) -> Seq<nat> {
    ms.map_values(|m: MemoryInstance| m.spec_data().len())
}

/// Each memory's bytes.
pub open spec fn memory_datas(ms: Seq<MemoryInstance>) -> Seq<Seq<u8>> {
    ms.map_values(|m: MemoryInstance| m.spec_data())
}

/// What stops a data segment from being written.
pub open spec fn data_error_at(sizes: Seq<nat>, d: (usize, usize, Vec<u8>)) -> Option<InstantiateError> {
    if d.0 as int >= sizes.len() {
        Some(InstantiateError::NoMemory(d.0))
    } else if d.1 + d.2@.len() > sizes[d.0 as int] {
        let (end, size) = past_end(d.1, d.2@.len(), sizes[d.0 as int] as usize);
        Some(InstantiateError::Memory(memory::Error::AccessOutOfBounds(end, size)))
    } else {
        None
    }
}

/// What stops the first data segment that cannot be written.
#[verifier::opaque]
pub open spec fn data_error(sizes: Seq<nat>, data: Seq<(usize, usize, Vec<u8>)>) -> Option<InstantiateError> {
    if exists|k: int| 0 <= k < data.len() && (#[trigger] data_error_at(sizes, data[k])) is Some {
        let k = choose|k: int| 0 <= k < data.len() && (#[trigger] data_error_at(sizes, data[k])) is Some
            && forall|j: int| 0 <= j < k ==> (#[trigger] data_error_at(sizes, data[j])) is None;
        data_error_at(sizes, data[k])
    } else {
        None
    }
}

/// The memories' bytes after the segments are written in order.
pub open spec fn data_written(datas: Seq<Seq<u8>>, data: Seq<(usize, usize, Vec<u8>)>) -> Seq<Seq<u8>>
    decreases data.len(),
{
    if data.len() == 0 {
        datas
    } else {
        let prev = data_written(datas, data.drop_last());
        let d = data.last();
        prev.update(d.0 as int, written(prev[d.0 as int], d.1, d.2@))
    }
}

fn write_data(memories: &mut Vec<MemoryInstance>, data: &Vec<(usize, usize, Vec<u8>)>) -> (r: Result<(), InstantiateError>)
    requires
        forall|k: int| 0 <= k < old(memories)@.len() ==> (#[trigger] old(memories)@[k]).wf(),
    ensures
        match data_error(memory_sizes(old(memories)@), data@) {
            Some(e) => r == Err::<(), InstantiateError>(e),
            None => r is Ok && final(memories)@.len() == old(memories)@.len()
                && (forall|k: int| 0 <= k < old(memories)@.len() ==> (#[trigger] final(memories)@[k]).wf()
                    && final(memories)@[k].spec_max() == old(memories)@[k].spec_max()
                    && final(memories)@[k].spec_initial() == old(memories)@[k].spec_initial())
                && memory_datas(final(memories)@) == data_written(memory_datas(old(memories)@), data@),
        },
{
    let ghost sizes = memory_sizes(memories@);
    let ghost datas = memory_datas(memories@);
    let ghost before = memories@;
    let mut i: usize = 0;
    proof { reveal(data_error); assert(data@.subrange(0, 0) =~= Seq::<(usize, usize, Vec<u8>)>::empty()); }
    while i < data.len()
        invariant
            i <= data@.len(),
            before == old(memories)@,
            sizes == memory_sizes(before),
            datas == memory_datas(before),
            memories@.len() == before.len(),
            memory_sizes(memories@) == sizes,
            forall|k: int| 0 <= k < before.len() ==> (#[trigger] memories@[k]).wf()
                && memories@[k].spec_max() == before[k].spec_max()
                && memories@[k].spec_initial() == before[k].spec_initial(),
            memory_datas(memories@) == data_written(datas, data@.subrange(0, i as int)),
            forall|j: int| 0 <= j < i ==> (#[trigger] data_error_at(sizes, data@[j])) is None,
        decreases data@.len() - i,
    {
        let m = data[i].0;
        let offset = data[i].1;
        let ghost is = i as int;
        if m >= memories.len() {
            proof {
                reveal(data_error);
                assert(data_error_at(sizes, data@[is]) == Some(InstantiateError::NoMemory(m)));
                let c = choose|c: int| 0 <= c < data@.len() && (#[trigger] data_error_at(sizes, data@[c])) is Some
                    && forall|j: int| 0 <= j < c ==> (#[trigger] data_error_at(sizes, data@[j])) is None;
                if c < is {
                    assert(data_error_at(sizes, data@[c]) is None);
                } else if c > is {
                    assert(data_error_at(sizes, data@[is]) is None);
                }
            }
            return Err(InstantiateError::NoMemory(m));
        }
        let mut mem = MemoryInstance::new(0, None);
        memories.set_and_swap(m, &mut mem);
        let ghost prev_mem = mem;
        proof {
                reveal(data_error);
            assert(sizes[m as int] == prev_mem.spec_data().len());
        }
        match mem.store(offset, data[i].2.as_slice()) {
            Ok(()) => {},
            Err(e) => {
                proof {
                reveal(data_error);
                    assert(data_error_at(sizes, data@[is]) == Some(InstantiateError::Memory(e)));
                    let c = choose|c: int| 0 <= c < data@.len() && (#[trigger] data_error_at(sizes, data@[c])) is Some
                        && forall|j: int| 0 <= j < c ==> (#[trigger] data_error_at(sizes, data@[j])) is None;
                    if c < is {
                        assert(data_error_at(sizes, data@[c]) is None);
                    } else if c > is {
                        assert(data_error_at(sizes, data@[is]) is None);
                    }
                }
                return Err(InstantiateError::Memory(e));
            },
        }
        memories.set_and_swap(m, &mut mem);
        proof {
                reveal(data_error);
            let pre = data@.subrange(0, is + 1);
            assert(pre.drop_last() =~= data@.subrange(0, is));
            assert(pre.last() == data@[is]);
            assert(memories@[m as int].spec_data() == written(prev_mem.spec_data(), offset, data@[is].2@));
            assert(memory_datas(memories@) =~= data_written(datas, pre));
            assert(memory_sizes(memories@) =~= sizes);
            assert(data_error_at(sizes, data@[is]) is None);
        }
        i = i + 1;
    }
    proof {
                reveal(data_error);
        assert(data@.subrange(0, data@.len() as int) =~= data@);
        assert(!(exists|j: int| 0 <= j < data@.len() && (#[trigger] data_error_at(sizes, data@[j])) is Some));
    }
    Ok(())
}

// ---------------------------------------------------------------- the module

/// The sizes in bytes of new memories of these limits.
pub open spec fn memory_limit_sizes(limits: Seq<(usize, Option<usize>)>) -> Seq<nat> {
    limits.map_values(|l: (usize, Option<usize>)| (l.0 * WASM_PAGE_SIZE) as nat)
}

/// The bytes of new memories of these limits: zeros.
pub open spec fn fresh_datas(limits: Seq<(usize, Option<usize>)>) -> Seq<Seq<u8>> {
    limits.map_values(|l: (usize, Option<usize>)| Seq::new((l.0 * WASM_PAGE_SIZE) as nat, |_i: int| 0u8))
}

/// The elements of new tables of these limits: none set.
pub open spec fn fresh_buffers(limits: Seq<(usize, Option<usize>)>) -> Seq<Seq<Option<FuncAddr>>> {
    limits.map_values(|l: (usize, Option<usize>)| Seq::new(l.0 as nat, |_i: int| None::<FuncAddr>))
}

/// What stops the module from being instantiated: the first import without
/// a type, the first memory too large, too many functions, the first
/// defined function that cannot be made, the first element segment and the
/// first data segment that do not fit, in that order.
pub open spec fn instantiate_error(d: DecodedModule) -> Option<InstantiateError> {
    match import_error(d.types@, d.imports@) {
        Some(e) => Some(e),
        None => match memory_error(d.memories@) {
            Some(e) => Some(e),
            None => if d.imports@.len() + d.bodies@.len() > u32::MAX {
                Some(InstantiateError::TooManyFunctions)
            } else {
                match bodies_error(d.types@, d.func_types@, d.bodies@) {
                    Some(e) => Some(e),
                    None => match elements_error(d.tables@.map_values(|l: (usize, Option<usize>)| l.0), d.elements@) {
                        Some(e) => Some(e),
                        None => data_error(memory_limit_sizes(d.memories@), d.data@),
                    },
                }
            },
        },
    }
}

/// The module's instance as its sections declare it: its exports, start
/// function and types.
pub open spec fn declared_module(m: DefinedModuleInstance, d: DecodedModule, index: ModuleIndex) -> bool {
    &&& m.spec_exports().len() == d.exports@.len()
    &&& forall|i: int| 0 <= i < d.exports@.len() ==> #[trigger] m.spec_exports()[i].spec_name() == d.exports@[i].field@
        && m.spec_exports()[i].spec_value() == spec_external_value(d.exports@[i].internal, index)
    &&& m.spec_start_func() == (match d.start {
        Some(s) => Some(FuncAddr(index, s as usize)),
        None => None::<FuncAddr>,
    })
    &&& m.spec_types() == d.types@
}

/// The parts of module `index`, named `name`, instantiated from `d`: the
/// imported functions, then the defined ones; the globals; new memories and
/// tables with the data and element segments written in order; and the
/// module's instance.
pub open spec fn instantiated(d: DecodedModule, index: ModuleIndex, name: Seq<char>, p: ModuleParts) -> bool {
    let n = d.imports@.len();
    &&& p.funcs@.len() == n + d.bodies@.len()
    &&& forall|k: int| 0 <= k < n ==> host_import(#[trigger] p.funcs@[k], d.types@, d.imports@[k])
    &&& forall|k: int| 0 <= k < d.bodies@.len() ==> defined_func(#[trigger] p.funcs@[n + k], d.types@, d.func_types@,
        d.bodies@, d.exports@, name, index, n as int, k)
    &&& forall|k: int| 0 <= k < p.funcs@.len() ==> func_wf(#[trigger] p.funcs@[k])
    &&& p.globals@ == d.globals@
    &&& p.memories@.len() == d.memories@.len()
    &&& forall|k: int| 0 <= k < d.memories@.len() ==> (#[trigger] p.memories@[k]).wf()
        && p.memories@[k].spec_initial() == d.memories@[k].0 && p.memories@[k].spec_max() == d.memories@[k].1
    &&& memory_datas(p.memories@) == data_written(fresh_datas(d.memories@), d.data@)
    &&& p.tables@.len() == d.tables@.len()
    &&& forall|k: int| 0 <= k < d.tables@.len() ==> (#[trigger] p.tables@[k]).spec_initial() == d.tables@[k].0
        && p.tables@[k].spec_max() == d.tables@[k].1
    &&& table_buffers(p.tables@) == elements_written(fresh_buffers(d.tables@), d.elements@, index)
    &&& module_wf(p.module)
    &&& p.module matches ModuleInstance::Defined(m) && declared_module(m, d, index)
}

/// Instantiates the decoded module as module `index`, named `name`.
pub fn instantiate_module(decoded: DecodedModule, index: ModuleIndex, name: &str) -> (r: Result<ModuleParts, InstantiateError>)
    ensures
        match instantiate_error(decoded) {
            Some(e) => r == Err::<ModuleParts, InstantiateError>(e),
            None => r matches Ok(p) && instantiated(decoded, index, name@, p),
        },
{
    let ghost d = decoded;
    let DecodedModule { types, imports, func_types, bodies, tables, memories, globals, exports, start, elements, data } = decoded;
    let mut bodies = bodies;
    let mut funcs = match import_funcs(&types, &imports) {
        Ok(v) => v,
        Err(e) => return Err(e),
    };
    let mut mems = match new_memories(&memories) {
        Ok(v) => v,
        Err(e) => return Err(e),
    };
    if imports.len() > u32::MAX as usize || bodies.len() > u32::MAX as usize - imports.len() {
        return Err(InstantiateError::TooManyFunctions);
    }
    let ghost funcs0 = funcs@;
    match defined_funcs(&types, &func_types, &mut bodies, &exports, name, index, &mut funcs) {
        Ok(()) => {},
        Err(e) => return Err(e),
    }
    let mut tbls = new_tables(&tables);
    let ghost tbls0 = tbls@;
    proof {
        assert(table_initials(tbls@) =~= d.tables@.map_values(|l: (usize, Option<usize>)| l.0));
        assert(table_buffers(tbls@) =~= fresh_buffers(d.tables@));
    }
    match write_elements(&mut tbls, &elements, index) {
        Ok(()) => {},
        Err(e) => return Err(e),
    }
    proof {
        assert(memory_sizes(mems@) =~= memory_limit_sizes(d.memories@));
        assert(memory_datas(mems@) =~= fresh_datas(d.memories@));
    }
    match write_data(&mut mems, &data) {
        Ok(()) => {},
        Err(e) => return Err(e),
    }
    let module = DefinedModuleInstance::new_from_parity_module(exports, start, index, types);
    let parts = ModuleParts { module: ModuleInstance::Defined(module), funcs, globals, memories: mems, tables: tbls };
    proof {
        let n = d.imports@.len() as int;
        assert forall|k: int| 0 <= k < n implies host_import(#[trigger] parts.funcs@[k], d.types@, d.imports@[k]) by {
            assert(parts.funcs@[k] == funcs0[k]);
        }
        assert forall|k: int| 0 <= k < parts.funcs@.len() implies func_wf(#[trigger] parts.funcs@[k]) by {
            if k < n {
                assert(parts.funcs@[k] == funcs0[k]);
            } else {
                let j = k - n;
                assert(func_wf(parts.funcs@[n + j]));
            }
        }
        assert forall|k: int| 0 <= k < d.tables@.len() implies (#[trigger] parts.tables@[k]).spec_initial() == d.tables@[k].0
            && parts.tables@[k].spec_max() == d.tables@[k].1 by {
            assert(table_initials(parts.tables@)[k] == parts.tables@[k].spec_initial());
            assert(table_initials(tbls0)[k] == tbls0[k].spec_initial());
            assert(fresh_table(tbls0[k], d.tables@[k]));
        }
    }
    Ok(parts)
}

// ---------------------------------------------------------------- host modules

fn has_field(values: &Vec<(String, HostExport)>, field: &str) -> (r: bool)
    ensures
        r == exists|k: int| 0 <= k < values@.len() && (#[trigger] values@[k]).0@ == field@,
{
    let mut j: usize = 0;
    while j < values.len()
        invariant
            j <= values@.len(),
            forall|k: int| 0 <= k < j ==> (#[trigger] values@[k]).0@ != field@,
        decreases values@.len() - j,
    {
        if str_eq(values[j].0.as_str(), field) {
            return true;
        }
        j = j + 1;
    }
    false
}

fn has_name(names: &Vec<String>, name: &str) -> (r: bool)
    ensures
        r == names@.map_values(|x: String| x@).contains(name@),
{
    let ghost v = names@.map_values(|x: String| x@);
    let mut j: usize = 0;
    while j < names.len()
        invariant
            j <= names@.len(),
            v == names@.map_values(|x: String| x@),
            forall|k: int| 0 <= k < j ==> v[k] != name@,
        decreases names@.len() - j,
    {
        if str_eq(names[j].as_str(), name) {
            proof { assert(v[j as int] == name@); }
            return true;
        }
        j = j + 1;
    }
    false
}

/// The fields imported from `module`, each once, in the order they are
/// first imported, with the type index of that first import.
pub open spec fn imported_fields(imports: Seq<(String, String, u32)>, module: Seq<char>) -> Seq<(Seq<char>, u32)>
    decreases imports.len(),
{
    if imports.len() == 0 {
        Seq::empty()
    } else {
        let prev = imported_fields(imports.drop_last(), module);
        let i = imports.last();
        if i.0@ == module && !prev.map_values(|p: (Seq<char>, u32)| p.0).contains(i.1@) {
            prev.push((i.1@, i.2))
        } else {
            prev
        }
    }
}

/// The modules imported from, each once, in the order they are first
/// imported from.
pub open spec fn imported_modules(imports: Seq<(String, String, u32)>) -> Seq<Seq<char>>
    decreases imports.len(),
{
    if imports.len() == 0 {
        Seq::empty()
    } else {
        let prev = imported_modules(imports.drop_last());
        if prev.contains(imports.last().0@) {
            prev
        } else {
            prev.push(imports.last().0@)
        }
    }
}

/// The host module standing for `module`: a function for each field
/// imported from it, of the type it is imported with.
pub open spec fn host_module_of(h: HostModuleInstance, types: Seq<FunctionType>, imports: Seq<(String, String, u32)>, module: Seq<char>) -> bool {
    let fields = imported_fields(imports, module);
    &&& h.wf()
    &&& h.spec_names() == fields.map_values(|p: (Seq<char>, u32)| p.0)
    &&& h.spec_values().len() == fields.len()
    &&& forall|k: int| 0 <= k < fields.len() ==> host_func(#[trigger] h.spec_values()[k], types, fields[k].1)
}

/// A host function of the type at index `ty`.
pub open spec fn host_func(v: HostExport, types: Seq<FunctionType>, ty: u32) -> bool {
    v matches HostExport::Func(t) && same_type(t, types[ty as int])
}

fn host_module_for(types: &Vec<FunctionType>, imports: &Vec<(String, String, u32)>, module: &str) -> (r: HostModuleInstance)
    requires
        forall|k: int| 0 <= k < imports@.len() ==> import_ok(types@, #[trigger] imports@[k]),
    ensures
        host_module_of(r, types@, imports@, module@),
{
    let mut values: Vec<(String, HostExport)> = Vec::new();
    let ghost mut fields: Seq<(Seq<char>, u32)> = Seq::empty();
    let mut i: usize = 0;
    proof { assert(imports@.subrange(0, 0) =~= Seq::<(String, String, u32)>::empty()); }
    while i < imports.len()
        invariant
            i <= imports@.len(),
            forall|k: int| 0 <= k < imports@.len() ==> import_ok(types@, #[trigger] imports@[k]),
            fields == imported_fields(imports@.subrange(0, i as int), module@),
            values@.len() == fields.len(),
            forall|k: int| 0 <= k < fields.len() ==> (#[trigger] values@[k]).0@ == fields[k].0
                && host_func(values@[k].1, types@, fields[k].1),
            forall|a: int, b: int| 0 <= a < b < fields.len() ==> (#[trigger] fields[a]).0 != (#[trigger] fields[b]).0,
        decreases imports@.len() - i,
    {
        let ghost is = i as int;
        proof {
            let pre = imports@.subrange(0, is + 1);
            assert(pre.drop_last() =~= imports@.subrange(0, is));
            assert(pre.last() == imports@[is]);
        }
        if str_eq(imports[i].0.as_str(), module) {
            let found = has_field(&values, imports[i].1.as_str());
            let ghost names = fields.map_values(|p: (Seq<char>, u32)| p.0);
            if !found {
                proof {
                    assert(!names.contains(imports@[is].1@)) by {
                        if names.contains(imports@[is].1@) {
                            let k = choose|k: int| 0 <= k < names.len() && names[k] == imports@[is].1@;
                            assert(values@[k].0@ == fields[k].0);
                        }
                    }
                }
                let ty = copy_func_type(&types[imports[i].2 as usize]);
                values.push((imports[i].1.clone(), HostExport::Func(ty)));
                proof {
                    let nf = fields.push((imports@[is].1@, imports@[is].2));
                    assert forall|a: int, b: int| 0 <= a < b < nf.len() implies (#[trigger] nf[a]).0 != (#[trigger] nf[b]).0 by {
                        if b == fields.len() {
                            assert(names[a] == fields[a].0);
                        } else {
                            assert(nf[a] == fields[a] && nf[b] == fields[b]);
                        }
                    }
                    fields = nf;
                }
            } else {
                proof {
                    let k = choose|k: int| 0 <= k < values@.len() && (#[trigger] values@[k]).0@ == imports@[is].1@;
                    assert(names[k] == imports@[is].1@);
                    assert(names.contains(imports@[is].1@));
                }
            }
        }
        i = i + 1;
    }
    proof { assert(imports@.subrange(0, imports@.len() as int) =~= imports@); }
    let h = HostModuleInstance::new(values);
    proof {
        assert(h.spec_names() =~= fields.map_values(|p: (Seq<char>, u32)| p.0));
    }
    h
}

fn modules_imported_from(imports: &Vec<(String, String, u32)>) -> (r: Vec<String>)
    ensures
        r@.map_values(|x: String| x@) == imported_modules(imports@),
{
    let mut out: Vec<String> = Vec::new();
    let mut i: usize = 0;
    proof { assert(imports@.subrange(0, 0) =~= Seq::<(String, String, u32)>::empty()); }
    while i < imports.len()
        invariant
            i <= imports@.len(),
            out@.map_values(|x: String| x@) == imported_modules(imports@.subrange(0, i as int)),
        decreases imports@.len() - i,
    {
        let ghost is = i as int;
        let ghost names = out@.map_values(|x: String| x@);
        proof {
            let pre = imports@.subrange(0, is + 1);
            assert(pre.drop_last() =~= imports@.subrange(0, is));
            assert(pre.last() == imports@[is]);
        }
        let found = has_name(&out, imports[i].0.as_str());
        if !found {
            out.push(imports[i].0.clone());
            proof {
                assert(out@.map_values(|x: String| x@) =~= names.push(imports@[is].0@));
            }
        }
        i = i + 1;
    }
    proof { assert(imports@.subrange(0, imports@.len() as int) =~= imports@); }
    out
}

// ---------------------------------------------------------------- a store

/// A host module standing for `module`.
pub open spec fn host_module_at(m: ModuleInstance, types: Seq<FunctionType>, imports: Seq<(String, String, u32)>, module: Seq<char>) -> bool {
    m matches ModuleInstance::Host(h) && host_module_of(h, types, imports, module)
}

/// The names of the host modules, each naming its own index.
pub open spec fn host_names(hosts: Seq<Seq<char>>) -> Seq<(Seq<char>, ModuleIndex)> {
    Seq::new(hosts.len(), |k: int| (hosts[k], ModuleIndex(k as u32)))
}

/// What stops the module and the host modules it imports from from being
/// put in a store: an import without a type, too many modules, or what
/// stops the module's instantiation.
pub open spec fn store_error(d: DecodedModule) -> Option<InstantiateError> {
    match import_error(d.types@, d.imports@) {
        Some(e) => Some(e),
        None => if imported_modules(d.imports@).len() >= u32::MAX {
            Some(InstantiateError::TooManyModules)
        } else {
            instantiate_error(d)
        },
    }
}

/// A store holding, in order, a host module for each module `d` imports
/// from, under that module's name, then `d` instantiated under `name`.
pub open spec fn store_of(d: DecodedModule, name: Seq<char>, store: Store, idx: ModuleIndex) -> bool {
    let hosts = imported_modules(d.imports@);
    &&& store.wf()
    &&& idx.0 == hosts.len()
    &&& store.spec_modules().len() == hosts.len() + 1
    &&& forall|k: int| 0 <= k < hosts.len() ==> host_module_at(#[trigger] store.spec_modules()[k], d.types@, d.imports@, hosts[k])
    &&& store.spec_names() == host_names(hosts).push((name, idx))
    &&& exists|p: ModuleParts| #[trigger] instantiated(d, idx, name, p)
        && store.spec_modules()[idx.0 as int] == p.module
        && store.spec_funcs()[idx.0 as int] == p.funcs@
        && store.spec_globals()[idx.0 as int] == p.globals@
        && store.spec_memories()[idx.0 as int] == p.memories@
        && store.spec_tables()[idx.0 as int] == p.tables@
}

/// A store with a host module for each module `decoded` imports from, then
/// `decoded` itself instantiated under `name`; and that module's index.
pub fn instantiate_store(decoded: DecodedModule, name: &str) -> (r: Result<(Store, ModuleIndex), InstantiateError>)
    ensures
        match store_error(decoded) {
            Some(e) => r == Err::<(Store, ModuleIndex), InstantiateError>(e),
            None => r matches Ok((store, idx)) && store_of(decoded, name@, store, idx),
        },
{
    let ghost d = decoded;
    match import_funcs(&decoded.types, &decoded.imports) {
        Ok(_) => {},
        Err(e) => return Err(e),
    }
    proof {
        reveal(import_error);
        assert forall|k: int| 0 <= k < d.imports@.len() implies import_ok(d.types@, #[trigger] d.imports@[k]) by {
            if !import_ok(d.types@, d.imports@[k]) {
                assert(exists|j: int| 0 <= j < d.imports@.len() && !import_ok(d.types@, #[trigger] d.imports@[j]));
            }
        }
    }
    let modules = modules_imported_from(&decoded.imports);
    let ghost hosts = imported_modules(d.imports@);
    proof { assert(modules@.len() == hosts.len()); }
    if modules.len() >= u32::MAX as usize {
        return Err(InstantiateError::TooManyModules);
    }
    let mut store = Store::new();
    let mut k: usize = 0;
    while k < modules.len()
        invariant
            k <= modules@.len(),
            modules@.len() == hosts.len(),
            hosts.len() < u32::MAX,
            modules@.map_values(|x: String| x@) == hosts,
            hosts == imported_modules(d.imports@),
            d == decoded,
            forall|j: int| 0 <= j < d.imports@.len() ==> import_ok(d.types@, #[trigger] d.imports@[j]),
            store.wf(),
            store.spec_modules().len() == k,
            store.spec_names() == host_names(hosts.subrange(0, k as int)),
            forall|j: int| 0 <= j < k ==> host_module_at(#[trigger] store.spec_modules()[j], d.types@, d.imports@, hosts[j]),
        decreases modules@.len() - k,
    {
        proof { assert(modules@[k as int]@ == hosts[k as int]); }
        let h = host_module_for(&decoded.types, &decoded.imports, modules[k].as_str());
        let ghost before = store.spec_modules();
        let ghost names0 = store.spec_names();
        match store.load_host_module(modules[k].clone(), h) {
            Some(_) => {},
            None => return Err(InstantiateError::TooManyModules),
        }
        proof {
            assert(store.spec_names() =~= host_names(hosts.subrange(0, k + 1)));
            assert forall|j: int| 0 <= j < k + 1 implies host_module_at(#[trigger] store.spec_modules()[j], d.types@, d.imports@, hosts[j]) by {
                if j < k {
                    assert(store.spec_modules()[j] == before[j]);
                }
            }
        }
        k = k + 1;
    }
    proof { assert(hosts.subrange(0, hosts.len() as int) =~= hosts); }
    let index = ModuleIndex(store.module_count() as u32);
    let parts = match instantiate_module(decoded, index, name) {
        Ok(p) => p,
        Err(e) => {
            assert(store_error(d) == Some(e));
            return Err(e);
        },
    };
    let ghost p = parts;
    let ghost before = store.spec_modules();
    proof { store.lemma_funcs_per_module(); }
    proof {
        assert(forall|j: int| 0 <= j < parts.memories@.len() ==> (#[trigger] parts.memories@[j]).wf());
    }
    let idx = match store.add_module(parts) {
        Some(i) => i,
        None => return Err(InstantiateError::TooManyModules),
    };
    store.register_name(name.to_owned(), idx);
    proof {
        assert(store.spec_names() =~= host_names(hosts).push((name@, idx)));
        assert forall|j: int| 0 <= j < hosts.len() implies host_module_at(#[trigger] store.spec_modules()[j], d.types@, d.imports@, hosts[j]) by {
            assert(store.spec_modules()[j] == before[j]);
        }
        assert(instantiated(d, idx, name@, p));
    }
    Ok((store, idx))
}

} // verus!
