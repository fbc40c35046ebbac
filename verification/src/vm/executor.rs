//! The interpreter: one instruction at a time, over the stack and the store.

use vstd::prelude::*;
use crate::vm::address::{FuncAddr, GlobalAddr, MemoryAddr, ModuleIndex, TableAddr};
use crate::vm::func::{FunctionInstance, FunctionType, InstIndex};
use crate::vm::instruction::{float_signature, spec_float_signature, BlockType, InstKind, Instruction, LoadKind, StoreKind};
use crate::vm::memory::{self, le_bytes, le_decode, le_encode, le_value};
use crate::vm::module::{ExternalValue, ModuleInstance};
use crate::vm::stack::{self, frame_top, labels_of, last_frame_pos, trailing_values, CallFrame, Entry, FrameView, Label, ProgramCounter, Stack};
use crate::vm::store::Store;
use crate::vm::table;
use crate::vm::value::{
    self, i32_binop, i32_relop, i32_unop, i64_binop, i64_relop, i64_unop, spec_i32_binop,
    spec_i32_relop, spec_i32_unop, spec_i64_binop, spec_i64_relop, spec_i64_unop, Value, ValueType,
};

verus! {

/// Why execution stopped with an error.
#[derive(Clone, Debug)]
pub enum Trap {
    Unreachable,
    Memory(memory::Error),
    Stack(stack::Error),
    Table(table::Error),
    Value(value::Error),
    /// The type the call expected and the type of the function called.
    IndirectCallTypeMismatch(FunctionType, FunctionType),
    /// The type expected on the stack and the type found.
    UnexpectedStackValueType(ValueType, ValueType),
    UndefinedFunc(FuncAddr),
    UndefinedGlobal(GlobalAddr),
    UndefinedMemory(MemoryAddr),
    UndefinedTable(TableAddr),
    UndefinedType(u32),
    ImmutableGlobal(GlobalAddr),
    /// A branch deeper than the labels of the frame.
    BranchOutOfLabels(u32),
    /// Control flow that ran past the end of the function body.
    ControlOutOfCode,
    /// Results handed back that do not match what was asked for.
    HostResultMismatch,
    /// Results handed back when nothing was asked for.
    NoPendingRequest,
    /// A floating-point opcode that does not exist.
    UnknownFloatOpcode(u8),
}

/// Work that the interpreter hands to its embedder.
#[derive(Clone, Debug)]
pub enum HostRequest {
    /// Call the function that a host module provides under a name.
    Call { module_name: String, field_name: String, args: Vec<Value> },
    /// Compute a floating-point instruction on its operands.
    Float { opcode: u8, args: Vec<Value> },
}

/// What a step leads to.
#[derive(Clone, Debug)]
pub enum Signal {
    /// Go on with the next instruction.
    Next,
    /// The outermost function has returned.
    End,
    /// The embedder must do this work and hand back its results.
    Host(HostRequest),
}

/// Errors when taking the results of a finished function.
#[derive(Clone, Debug)]
pub enum ReturnValError {
    /// The value found and the type it should have had.
    TypeMismatchReturnValue(Value, ValueType),
    Stack(stack::Error),
}

// ---------------------------------------------------------------- stack semantics

/// Popping a value of a given type: the stack after, and the value or why not.
pub open spec fn spec_pop_as(s: Seq<Entry>, ty: ValueType) -> (Seq<Entry>, Result<Value, Trap>) {
    if s.len() == 0 {
        (s, Err(Trap::Stack(stack::Error::PopEmptyStack)))
    } else {
        match s.last() {
            Entry::Value(v) => if v.spec_type() == ty {
                (s.drop_last(), Ok(v))
            } else {
                (s.drop_last(), Err(Trap::UnexpectedStackValueType(ty, v.spec_type())))
            },
            _ => (s, Err(Trap::Stack(stack::Error::MismatchStackValueType))),
        }
    }
}

/// Popping a value of any type.
pub open spec fn spec_pop_value(s: Seq<Entry>) -> (Seq<Entry>, Result<Value, Trap>) {
    if s.len() == 0 {
        (s, Err(Trap::Stack(stack::Error::PopEmptyStack)))
    } else {
        match s.last() {
            Entry::Value(v) => (s.drop_last(), Ok(v)),
            _ => (s, Err(Trap::Stack(stack::Error::MismatchStackValueType))),
        }
    }
}

/// Popping one operand of type `ty` and pushing `f` of it.
pub open spec fn spec_unary(
    s: Seq<Entry>,
    ty: ValueType,
    f: spec_fn(Value) -> Result<Value, Trap>,
) -> (Seq<Entry>, Result<(), Trap>) {
    let (s1, r1) = spec_pop_as(s, ty);
    match r1 {
        Err(e) => (s1, Err(e)),
        Ok(a) => match f(a) {
            Ok(v) => (s1.push(Entry::Value(v)), Ok(())),
            Err(e) => (s1, Err(e)),
        },
    }
}

/// Popping two operands of type `ty`, right one first, and pushing `f` of them.
pub open spec fn spec_binary(
    s: Seq<Entry>,
    ty: ValueType,
    f: spec_fn(Value, Value) -> Result<Value, Trap>,
) -> (Seq<Entry>, Result<(), Trap>) {
    let (s1, r1) = spec_pop_as(s, ty);
    match r1 {
        Err(e) => (s1, Err(e)),
        Ok(b) => {
            let (s2, r2) = spec_pop_as(s1, ty);
            match r2 {
                Err(e) => (s2, Err(e)),
                Ok(a) => match f(a, b) {
                    Ok(v) => (s2.push(Entry::Value(v)), Ok(())),
                    Err(e) => (s2, Err(e)),
                },
            }
        },
    }
}

pub open spec fn bool_value(b: bool) -> Value {
    Value::I32(if b { 1 } else { 0 })
}

pub open spec fn v_i32_bin(op: value::IntBinOp, a: Value, b: Value) -> Result<Value, Trap> {
    match (a, b) {
        (Value::I32(x), Value::I32(y)) => match spec_i32_binop(op, x, y) {
            Ok(z) => Ok(Value::I32(z)),
            Err(e) => Err(Trap::Value(e)),
        },
        _ => Err(Trap::Unreachable),
    }
}

pub open spec fn v_i64_bin(op: value::IntBinOp, a: Value, b: Value) -> Result<Value, Trap> {
    match (a, b) {
        (Value::I64(x), Value::I64(y)) => match spec_i64_binop(op, x, y) {
            Ok(z) => Ok(Value::I64(z)),
            Err(e) => Err(Trap::Value(e)),
        },
        _ => Err(Trap::Unreachable),
    }
}

pub open spec fn v_i32_rel(op: value::IntRelOp, a: Value, b: Value) -> Result<Value, Trap> {
    match (a, b) {
        (Value::I32(x), Value::I32(y)) => Ok(bool_value(spec_i32_relop(op, x, y))),
        _ => Err(Trap::Unreachable),
    }
}

pub open spec fn v_i64_rel(op: value::IntRelOp, a: Value, b: Value) -> Result<Value, Trap> {
    match (a, b) {
        (Value::I64(x), Value::I64(y)) => Ok(bool_value(spec_i64_relop(op, x, y))),
        _ => Err(Trap::Unreachable),
    }
}

/// The result of a conversion or test instruction on its operand.
pub open spec fn v_convert(kind: InstKind, a: Value) -> Result<Value, Trap> {
    match (kind, a) {
        (InstKind::I32Eqz, Value::I32(x)) => Ok(bool_value(x == 0)),
        (InstKind::I64Eqz, Value::I64(x)) => Ok(bool_value(x == 0)),
        (InstKind::I32Un(op), Value::I32(x)) => Ok(Value::I32(spec_i32_unop(op, x))),
        (InstKind::I64Un(op), Value::I64(x)) => Ok(Value::I64(spec_i64_unop(op, x))),
        (InstKind::I32WrapI64, Value::I64(x)) => Ok(Value::I32(x as i32)),
        (InstKind::I64ExtendSI32, Value::I32(x)) => Ok(Value::I64(x as i64)),
        (InstKind::I64ExtendUI32, Value::I32(x)) => Ok(Value::I64((x as u32) as i64)),
        (InstKind::I32ReinterpretF32, Value::F32(x)) => Ok(Value::I32(x as i32)),
        (InstKind::I64ReinterpretF64, Value::F64(x)) => Ok(Value::I64(x as i64)),
        (InstKind::F32ReinterpretI32, Value::I32(x)) => Ok(Value::F32(x as u32)),
        (InstKind::F64ReinterpretI64, Value::I64(x)) => Ok(Value::F64(x as u64)),
        _ => Err(Trap::Unreachable),
    }
}

/// The operand type of a conversion or test instruction.
pub open spec fn convert_operand(kind: InstKind) -> ValueType {
    match kind {
        InstKind::I32Eqz | InstKind::I32Un(_) | InstKind::I64ExtendSI32 | InstKind::I64ExtendUI32
        | InstKind::F32ReinterpretI32 => ValueType::I32,
        InstKind::I32ReinterpretF32 => ValueType::F32,
        InstKind::I64ReinterpretF64 => ValueType::F64,
        _ => ValueType::I64,
    }
}

pub open spec fn is_convert(kind: InstKind) -> bool {
    match kind {
        InstKind::I32Eqz | InstKind::I64Eqz | InstKind::I32Un(_) | InstKind::I64Un(_)
        | InstKind::I32WrapI64 | InstKind::I64ExtendSI32 | InstKind::I64ExtendUI32
        | InstKind::I32ReinterpretF32 | InstKind::I64ReinterpretF64 | InstKind::F32ReinterpretI32
        | InstKind::F64ReinterpretI64 => true,
        _ => false,
    }
}

/// Instructions that only work on the operand stack.
pub open spec fn is_numeric(kind: InstKind) -> bool {
    match kind {
        InstKind::Nop | InstKind::Drop | InstKind::Select | InstKind::I32Const(_)
        | InstKind::I64Const(_) | InstKind::F32Const(_) | InstKind::F64Const(_)
        | InstKind::I32Rel(_) | InstKind::I64Rel(_) | InstKind::I32Bin(_) | InstKind::I64Bin(_) => true,
        _ => is_convert(kind),
    }
}

/// What an instruction that only works on the operand stack does to it.
pub open spec fn spec_numeric(kind: InstKind, s: Seq<Entry>) -> (Seq<Entry>, Result<(), Trap>) {
    match kind {
        InstKind::Nop => (s, Ok(())),
        InstKind::Drop => {
            let (s1, r) = spec_pop_value(s);
            match r {
                Ok(_) => (s1, Ok(())),
                Err(e) => (s1, Err(e)),
            }
        },
        InstKind::Select => {
            let (s1, r1) = spec_pop_as(s, ValueType::I32);
            match r1 {
                Err(e) => (s1, Err(e)),
                Ok(c) => {
                    let (s2, r2) = spec_pop_value(s1);
                    match r2 {
                        Err(e) => (s2, Err(e)),
                        Ok(v2) => {
                            let (s3, r3) = spec_pop_value(s2);
                            match r3 {
                                Err(e) => (s3, Err(e)),
                                Ok(v1) => (s3.push(Entry::Value(if c != Value::I32(0) { v1 } else { v2 })), Ok(())),
                            }
                        },
                    }
                },
            }
        },
        InstKind::I32Const(x) => (s.push(Entry::Value(Value::I32(x))), Ok(())),
        InstKind::I64Const(x) => (s.push(Entry::Value(Value::I64(x))), Ok(())),
        InstKind::F32Const(x) => (s.push(Entry::Value(Value::F32(x))), Ok(())),
        InstKind::F64Const(x) => (s.push(Entry::Value(Value::F64(x))), Ok(())),
        InstKind::I32Rel(op) => spec_binary(s, ValueType::I32, |a: Value, b: Value| v_i32_rel(op, a, b)),
        InstKind::I64Rel(op) => spec_binary(s, ValueType::I64, |a: Value, b: Value| v_i64_rel(op, a, b)),
        InstKind::I32Bin(op) => spec_binary(s, ValueType::I32, |a: Value, b: Value| v_i32_bin(op, a, b)),
        InstKind::I64Bin(op) => spec_binary(s, ValueType::I64, |a: Value, b: Value| v_i64_bin(op, a, b)),
        _ => spec_unary(s, convert_operand(kind), |a: Value| v_convert(kind, a)),
    }
}


// ---------------------------------------------------------------- control semantics

/// The body of the function at `addr`, when it is a defined function.
pub open spec fn spec_body(store: Store, addr: FuncAddr) -> Option<Seq<Instruction>> {
    match store.spec_func(addr) {
        Some(FunctionInstance::Defined(d)) => Some(d.spec_instructions()),
        _ => None,
    }
}

/// The nesting depth after an instruction.
pub open spec fn nest_delta(kind: InstKind, depth: int) -> int {
    match kind {
        InstKind::End => depth - 1,
        InstKind::Block(_) | InstKind::If(_) | InstKind::Loop(_) => depth + 1,
        _ => depth,
    }
}

/// From index `i` at nesting `depth`, the index just past the `End` that
/// brings the nesting to zero.
pub open spec fn spec_scan_end(insts: Seq<Instruction>, i: int, depth: int) -> Option<int>
    decreases insts.len() - i,
{
    if i < 0 || i >= insts.len() {
        None
    } else {
        let d = nest_delta(insts[i].kind, depth);
        if d == 0 {
            Some(i + 1)
        } else {
            spec_scan_end(insts, i + 1, d)
        }
    }
}

/// Where an `If` whose condition is false continues: just past its `Else`,
/// or at its `End`.
pub open spec fn spec_scan_else(insts: Seq<Instruction>, i: int, depth: int) -> Option<int>
    decreases insts.len() - i,
{
    if i < 0 || i >= insts.len() {
        None
    } else if insts[i].kind is Else && depth == 1 {
        Some(i + 1)
    } else {
        let d = nest_delta(insts[i].kind, depth);
        if d == 0 {
            Some(i)
        } else {
            spec_scan_else(insts, i + 1, d)
        }
    }
}

/// The stack after popping `n` labels from the top, with the values above each.
pub open spec fn spec_pop_labels(s: Seq<Entry>, n: nat) -> Option<Seq<Entry>>
    decreases n,
{
    if n == 0 {
        Some(s)
    } else {
        let t = s.subrange(0, s.len() - trailing_values(s));
        if t.len() > 0 && t.last() is Label {
            spec_pop_labels(t.drop_last(), (n - 1) as nat)
        } else {
            None
        }
    }
}

/// The stack of a branch out of `n` labels that carries `arity` values.
pub open spec fn spec_branch_stack(s: Seq<Entry>, arity: nat, n: nat) -> Option<Seq<Entry>> {
    if trailing_values(s) < arity {
        None
    } else {
        match spec_pop_labels(s.subrange(0, s.len() - arity), n) {
            Some(t) => Some(t + s.subrange(s.len() - arity, s.len() as int)),
            None => None,
        }
    }
}

/// The label a branch of `depth` targets, and the stack after the branch.
pub open spec fn spec_branch(s: Seq<Entry>, depth: u32) -> Option<(Label, Seq<Entry>)> {
    let labels = labels_of(frame_top(s));
    if last_frame_pos(s) < 0 || depth >= labels.len() {
        None
    } else {
        let label = labels[labels.len() - 1 - depth];
        match spec_branch_stack(s, label.spec_arity() as nat, (depth + 1) as nat) {
            Some(t) => Some((label, t)),
            None => None,
        }
    }
}

/// Returning from the innermost frame: the stack after, and where to continue.
pub open spec fn spec_return(s: Seq<Entry>, store: Store) -> Option<(Seq<Entry>, Option<ProgramCounter>)> {
    let p = last_frame_pos(s);
    if p < 0 {
        None
    } else {
        match s[p] {
            Entry::Activation(f) => match store.spec_func(f.func_addr) {
                Some(func) => {
                    let arity = func.spec_ty().returns.len();
                    if trailing_values(s) < arity {
                        None
                    } else {
                        Some((s.subrange(0, p) + s.subrange(s.len() - arity, s.len() as int).reverse(), f.ret_pc))
                    }
                },
                None => None,
            },
            _ => None,
        }
    }
}

/// Reaching the `End` of a function body.
pub open spec fn spec_end_func(s: Seq<Entry>, store: Store) -> Option<(Seq<Entry>, Option<ProgramCounter>)> {
    let p = last_frame_pos(s);
    if p < 0 {
        None
    } else {
        match s[p] {
            Entry::Activation(f) => match store.spec_func(f.func_addr) {
                Some(func) => {
                    let arity = func.spec_ty().returns.len();
                    let t = s.subrange(0, s.len() - arity);
                    if trailing_values(s) < arity || t.len() < 2 || !(t.last() is Label)
                        || !(t[t.len() - 2] is Activation) {
                        None
                    } else {
                        Some((t.subrange(0, t.len() - 2) + s.subrange(s.len() - arity, s.len() as int).reverse(), f.ret_pc))
                    }
                },
                None => None,
            },
            _ => None,
        }
    }
}

/// Reaching the `End` of a block: its values stay, its label goes.
pub open spec fn spec_end_block(s: Seq<Entry>) -> Option<Seq<Entry>> {
    let k = trailing_values(s);
    let t = s.subrange(0, s.len() - k);
    if t.len() > 0 && t.last() is Label {
        Some(t.drop_last() + s.subrange(s.len() - k, s.len() as int).reverse())
    } else {
        None
    }
}

proof fn lemma_trailing_values(s: Seq<Entry>, k: nat)
    requires
        k <= trailing_values(s),
    ensures
        k <= s.len(),
        forall|i: int| s.len() - k <= i < s.len() ==> s[i] is Value,
        trailing_values(s.subrange(0, s.len() - k)) == trailing_values(s) - k,
    decreases k,
{
    stack::lemma_trailing_bounds_pub(s);
    if k > 0 {
        let t = s.drop_last();
        lemma_trailing_values(t, (k - 1) as nat);
        assert(s.subrange(0, s.len() - k) =~= t.subrange(0, t.len() - (k - 1)));
        assert forall|i: int| s.len() - k <= i < s.len() implies s[i] is Value by {
            if i < s.len() - 1 {
                assert(s[i] == t[i]);
            }
        }
    } else {
        assert(s.subrange(0, s.len() as int) =~= s);
    }
}

/// Values as stack entries, in order.
pub open spec fn values_entries(v: Seq<Value>) -> Seq<Entry> {
    v.map_values(|x: Value| Entry::Value(x))
}

/// Scans forward from `start` at nesting `depth` for the closing `End`.
fn scan_end(insts: &[Instruction], start: u32, depth: u64) -> (r: Option<u32>)
    requires
        insts@.len() < u32::MAX,
        1 <= depth <= u32::MAX as u64 + 1,
    ensures
        match spec_scan_end(insts@, start as int, depth as int) {
            Some(p) => r == Some(p as u32) && p <= insts@.len(),
            None => r is None,
        },
{
    let mut i: u32 = start;
    let mut d: u64 = depth;
    if (i as usize) >= insts.len() {
        return None;
    }
    while (i as usize) < insts.len()
        invariant
            insts@.len() < u32::MAX,
            start <= i,
            1 <= d <= depth + (i - start),
            depth <= u32::MAX as u64 + 1,
            spec_scan_end(insts@, start as int, depth as int) == spec_scan_end(insts@, i as int, d as int),
        decreases insts@.len() - i,
    {
        let nd: u64 = match insts[i as usize].kind {
            InstKind::End => d - 1,
            InstKind::Block(_) | InstKind::If(_) | InstKind::Loop(_) => d + 1,
            _ => d,
        };
        if nd == 0 {
            return Some(i + 1);
        }
        i = i + 1;
        d = nd;
    }
    None
}

/// Scans forward from `start` for where a false `If` continues.
fn scan_else(insts: &[Instruction], start: u32) -> (r: Option<u32>)
    requires
        insts@.len() < u32::MAX,
    ensures
        match spec_scan_else(insts@, start as int, 1) {
            Some(p) => r == Some(p as u32) && p <= insts@.len(),
            None => r is None,
        },
{
    let mut i: u32 = start;
    let mut d: u64 = 1;
    while (i as usize) < insts.len()
        invariant
            insts@.len() < u32::MAX,
            start <= i,
            1 <= d <= 1 + (i - start),
            spec_scan_else(insts@, start as int, 1) == spec_scan_else(insts@, i as int, d as int),
        decreases insts@.len() - i,
    {
        let is_else = match insts[i as usize].kind {
            InstKind::Else => true,
            _ => false,
        };
        if is_else && d == 1 {
            return Some(i + 1);
        }
        let nd: u64 = match insts[i as usize].kind {
            InstKind::End => d - 1,
            InstKind::Block(_) | InstKind::If(_) | InstKind::Loop(_) => d + 1,
            _ => d,
        };
        if nd == 0 {
            return Some(i);
        }
        i = i + 1;
        d = nd;
    }
    None
}

/// The function body at an address is short enough to index with `u32`.
pub open spec fn func_wf_of(store: Store, addr: FuncAddr) -> bool {
    spec_body(store, addr) matches Some(b) ==> b.len() < u32::MAX
}

proof fn lemma_frame_below_values(s: Seq<Entry>, k: nat)
    requires
        k <= trailing_values(s),
    ensures
        last_frame_pos(s.subrange(0, s.len() - k)) == last_frame_pos(s),
    decreases k,
{
    stack::lemma_trailing_bounds_pub(s);
    if k > 0 {
        let t = s.drop_last();
        lemma_frame_below_values(t, (k - 1) as nat);
        assert(s.subrange(0, s.len() - k) =~= t.subrange(0, t.len() - (k - 1)));
    } else {
        assert(s.subrange(0, s.len() as int) =~= s);
    }
}

// ---------------------------------------------------------------- variables, memory, calls

/// Setting local `i` of the innermost frame to `v`.
pub open spec fn spec_set_local(s: Seq<Entry>, i: usize, v: Value) -> Option<Seq<Entry>> {
    let p = last_frame_pos(s);
    if p < 0 {
        None
    } else {
        match s[p] {
            Entry::Activation(f) => if i < f.locals.len() {
                Some(s.update(p, Entry::Activation(FrameView { locals: f.locals.update(i as int, v), ..f })))
            } else {
                None
            },
            _ => None,
        }
    }
}

/// Local `i` of the innermost frame.
pub open spec fn spec_get_local(s: Seq<Entry>, i: usize) -> Option<Value> {
    let p = last_frame_pos(s);
    if p < 0 {
        None
    } else {
        match s[p] {
            Entry::Activation(f) => if i < f.locals.len() { Some(f.locals[i as int]) } else { None },
            _ => None,
        }
    }
}

/// The module of the innermost frame.
pub open spec fn spec_frame_module(s: Seq<Entry>) -> Option<ModuleIndex> {
    let p = last_frame_pos(s);
    if p < 0 {
        None
    } else {
        match s[p] {
            Entry::Activation(f) => Some(f.module_index),
            _ => None,
        }
    }
}

/// The value a load of `kind` makes of the little-endian number it read.
pub open spec fn spec_load_value(kind: LoadKind, bits: u64) -> Value {
    match kind {
        LoadKind::I32 => Value::I32(bits as u32 as i32),
        LoadKind::I64 => Value::I64(bits as i64),
        LoadKind::F32 => Value::F32(bits as u32),
        LoadKind::F64 => Value::F64(bits),
        LoadKind::I32From8S => Value::I32(bits as u8 as i8 as i32),
        LoadKind::I32From8U => Value::I32(bits as u8 as i32),
        LoadKind::I32From16S => Value::I32(bits as u16 as i16 as i32),
        LoadKind::I32From16U => Value::I32(bits as u16 as i32),
        LoadKind::I64From8S => Value::I64(bits as u8 as i8 as i64),
        LoadKind::I64From8U => Value::I64(bits as u8 as i64),
        LoadKind::I64From16S => Value::I64(bits as u16 as i16 as i64),
        LoadKind::I64From16U => Value::I64(bits as u16 as i64),
        LoadKind::I64From32S => Value::I64(bits as u32 as i32 as i64),
        LoadKind::I64From32U => Value::I64(bits as u32 as i64),
    }
}

/// The bits of a value, as a number.
pub open spec fn spec_value_bits(v: Value) -> u64 {
    match v {
        Value::I32(x) => x as u32 as u64,
        Value::I64(x) => x as u64,
        Value::F32(x) => x as u64,
        Value::F64(x) => x,
    }
}

/// The effective address of an access: the base converted to a `usize`
/// (sign-extended from `i32`), plus the static offset.
pub open spec fn spec_effective(base: i32, offset: u32) -> int {
    (base as usize) as int + offset as int
}

/// Where a call to `addr` lands: a defined function, or a host function
/// given by its module and field names and its signature. Imports are
/// followed through registered defined modules at most `fuel` times.
pub enum Resolved {
    Defined(FuncAddr),
    Host(Seq<char>, Seq<char>, FunctionType),
}

pub open spec fn spec_resolve(st: Store, addr: FuncAddr, fuel: nat) -> Option<Resolved>
    decreases fuel,
{
    match st.spec_func(addr) {
        None => None,
        Some(FunctionInstance::Defined(_)) => Some(Resolved::Defined(addr)),
        Some(FunctionInstance::Host(h)) => match st.spec_module_by_name(h.spec_module_name()) {
            None => None,
            Some(mi) => match st.spec_module(mi) {
                Some(ModuleInstance::Host(hm)) => match hm.spec_get(h.spec_field_name()) {
                    Some(crate::vm::module::HostExport::Func(t)) => Some(Resolved::Host(h.spec_module_name(), h.spec_field_name(), t)),
                    _ => None,
                },
                Some(ModuleInstance::Defined(dm)) => if fuel == 0 {
                    None
                } else {
                    match dm.spec_exported(h.spec_field_name()) {
                        Some(ExternalValue::Func(a2)) => spec_resolve(st, a2, (fuel - 1) as nat),
                        _ => None,
                    }
                },
                None => None,
            },
        },
    }
}

/// The state of the interpreter, as plain values.
pub struct ExecView {
    pub pc: ProgramCounter,
    pub stack: Seq<Entry>,
    pub pending: Option<Seq<ValueType>>,
}

/// Invoking the function at `addr` from a state whose pc is already past the
/// call: the state after and the signal, or `None` when the call traps.
pub open spec fn spec_invoke(pre: ExecView, st: Store, addr: FuncAddr, post: ExecView, r: Result<Signal, Trap>) -> bool {
    match st.spec_func(addr) {
        None => r is Err,
        Some(func) => {
            let n = func.spec_ty().params.len();
            let s = pre.stack;
            if trailing_values(s) < n {
                r is Err
            } else {
                let args_entries = s.subrange(s.len() - n, s.len() as int);
                let rest = s.subrange(0, s.len() - n);
                let arity = func.spec_ty().returns.len();
                match spec_resolve(st, addr, st.spec_modules().len() as nat) {
                    None => r is Err,
                    Some(Resolved::Defined(a2)) => match st.spec_func(a2) {
                        Some(FunctionInstance::Defined(d)) => {
                            if n + d.spec_locals().len() > usize::MAX {
                                r is Err
                            } else {
                                r matches Ok(Signal::Next)
                                && post.pending == pre.pending
                                && post.pc == ProgramCounter { func_addr: a2, inst_index: InstIndex(0) }
                                && exists|args: Seq<Value>| #![trigger values_entries(args)]
                                    values_entries(args) == args_entries
                                    && post.stack == rest.push(Entry::Activation(FrameView {
                                        module_index: d.spec_module_index(),
                                        func_addr: a2,
                                        locals: args + d.spec_locals().map_values(|t: ValueType| value::spec_default_value(t)),
                                        ret_pc: Some(pre.pc),
                                    })).push(Entry::Label(Label::Return(arity as usize)))
                            }
                        },
                        _ => r is Err,
                    },
                    Some(Resolved::Host(mn, fname, _)) => {
                        &&& post.stack == rest
                        &&& post.pc == pre.pc
                        &&& post.pending == Some(func.spec_ty().returns@)
                        &&& r matches Ok(Signal::Host(HostRequest::Call { module_name, field_name, args }))
                        &&& module_name@ == mn && field_name@ == fname
                        &&& values_entries(args@) == args_entries
                    },
                }
            }
        },
    }
}

/// Two stores that differ at most in their globals.
pub open spec fn same_but_globals(a: Store, b: Store) -> bool {
    &&& b.spec_modules() == a.spec_modules()
    &&& b.spec_funcs() == a.spec_funcs()
    &&& b.spec_memories() == a.spec_memories()
    &&& b.spec_tables() == a.spec_tables()
    &&& b.spec_names() == a.spec_names()
}

/// Two stores that differ at most in the memory at `addr`.
pub open spec fn same_but_memory(a: Store, b: Store, addr: MemoryAddr) -> bool {
    &&& forall|x: MemoryAddr| x != addr ==> #[trigger] b.spec_memory(x) == a.spec_memory(x)
    &&& b.spec_modules() == a.spec_modules()
    &&& b.spec_funcs() == a.spec_funcs()
    &&& b.spec_globals() == a.spec_globals()
    &&& b.spec_tables() == a.spec_tables()
    &&& b.spec_names() == a.spec_names()
}

/// Calling through a table, from a state whose pc is already past the call.
pub open spec fn spec_call_indirect(pre: ExecView, st: Store, type_index: u32, post: ExecView, r: Result<Signal, Trap>) -> bool {
    match spec_frame_module(pre.stack) {
        None => r is Err,
        Some(mi) => match st.spec_module(mi) {
            Some(ModuleInstance::Defined(dm)) => if (type_index as int) < dm.spec_types().len() {
                let ty = dm.spec_types()[type_index as int];
                match spec_pop_as(pre.stack, ValueType::I32) {
                    (s1, Ok(Value::I32(idx))) => match st.spec_table(TableAddr(mi, 0)) {
                        None => r is Err,
                        Some(t) => {
                            let i = idx as usize;
                            if i >= t.spec_buffer().len() {
                                r is Err
                            } else {
                                match t.spec_buffer()[i as int] {
                                    None => r is Err,
                                    Some(fa) => match st.spec_func(fa) {
                                        None => r is Err,
                                        Some(f) => if f.spec_ty().params@ == ty.params@ && f.spec_ty().returns@ == ty.returns@ {
                                            spec_invoke(ExecView { stack: s1, ..pre }, st, fa, post, r)
                                        } else {
                                            r is Err
                                        },
                                    },
                                }
                            }
                        },
                    },
                    _ => r is Err,
                }
            } else {
                r is Err
            },
            _ => r is Err,
        },
    }
}

/// A floating-point instruction: its operands are popped and handed out.
pub open spec fn spec_float(pre: ExecView, opcode: u8, post: ExecView, r: Result<Signal, Trap>) -> bool {
    match spec_float_signature(opcode) {
        None => r is Err,
        Some((tys, res)) => if tys.len() == 2 {
            match spec_pop_as(pre.stack, tys[1]) {
                (s1, Ok(b)) => match spec_pop_as(s1, tys[0]) {
                    (s2, Ok(a)) => r matches Ok(Signal::Host(HostRequest::Float { opcode: o, args }))
                        && o == opcode && args@ == seq![a, b]
                        && post.stack == s2 && post.pending == Some(seq![res]),
                    _ => r is Err,
                },
                _ => r is Err,
            }
        } else {
            match spec_pop_as(pre.stack, tys[0]) {
                (s1, Ok(a)) => r matches Ok(Signal::Host(HostRequest::Float { opcode: o, args }))
                    && o == opcode && args@ == seq![a]
                    && post.stack == s1 && post.pending == Some(seq![res]),
                _ => r is Err,
            }
        },
    }
}

fn copy_types(v: &Vec<ValueType>) -> (r: Vec<ValueType>)
    ensures
        r@ == v@,
{
    let mut r: Vec<ValueType> = Vec::new();
    let mut i: usize = 0;
    while i < v.len()
        invariant
            i <= v@.len(),
            r@ == v@.subrange(0, i as int),
        decreases v@.len() - i,
    {
        r.push(v[i]);
        i = i + 1;
        assert(r@ =~= v@.subrange(0, i as int));
    }
    assert(v@.subrange(0, i as int) =~= v@);
    r
}

pub(crate) fn copy_func_type(t: &FunctionType) -> (r: FunctionType)
    ensures
        r.params@ == t.params@,
        r.returns@ == t.returns@,
{
    FunctionType { params: copy_types(&t.params), returns: copy_types(&t.returns) }
}

/// Follows imports from `addr` to a defined function or to a function of a
/// host module.
pub fn resolve_func_addr(addr: FuncAddr, store: &Store) -> (r: Result<crate::vm::utils::Either<FuncAddr, (String, String)>, Trap>)
    requires
        store.wf(),
    ensures
        match spec_resolve(*store, addr, store.spec_modules().len() as nat) {
            None => r is Err,
            Some(Resolved::Defined(a)) => r matches Ok(crate::vm::utils::Either::Left(x)) && x == a,
            Some(Resolved::Host(mn, f, _)) => r matches Ok(crate::vm::utils::Either::Right((m, g))) && m@ == mn && g@ == f,
        },
{
    let mut cur = addr;
    let mut fuel: u64 = store.module_count() as u64;
    loop
        invariant
            store.wf(),
            spec_resolve(*store, addr, store.spec_modules().len() as nat) == spec_resolve(*store, cur, fuel as nat),
        decreases fuel,
    {
        let h = match store.func(cur) {
            None => return Err(Trap::UndefinedFunc(cur)),
            Some(FunctionInstance::Defined(_)) => return Ok(crate::vm::utils::Either::Left(cur)),
            Some(FunctionInstance::Host(h)) => h,
        };
        let mi = match store.module_index_by_name(h.module_name().as_str()) {
            Some(mi) => mi,
            None => return Err(Trap::UndefinedFunc(cur)),
        };
        match store.module(mi) {
            Some(ModuleInstance::Host(hm)) => {
                proof {
                    assert(crate::vm::store::module_wf(store.spec_modules()[mi.0 as int]));
                }
                match hm.func_by_name(h.field_name().as_str()) {
                    Ok(Some(_)) => {
                        return Ok(crate::vm::utils::Either::Right((h.module_name().clone(), h.field_name().clone())));
                    },
                    _ => return Err(Trap::UndefinedFunc(cur)),
                }
            },
            Some(ModuleInstance::Defined(dm)) => {
                if fuel == 0 {
                    return Err(Trap::UndefinedFunc(cur));
                }
                match dm.exported_func(h.field_name().as_str()) {
                    Ok(Some(a2)) => {
                        cur = a2;
                        fuel = fuel - 1;
                    },
                    _ => return Err(Trap::UndefinedFunc(cur)),
                }
            },
            None => return Err(Trap::UndefinedFunc(cur)),
        }
    }
}

// ---------------------------------------------------------------- one step

/// A branch of `depth` taken at `pc`: the stack and pc after, and the signal.
pub open spec fn spec_branch_to(
    s: Seq<Entry>,
    depth: u32,
    st: Store,
    pc: ProgramCounter,
    s2: Seq<Entry>,
    pc2: ProgramCounter,
    r: Result<Signal, Trap>,
) -> bool {
    match spec_branch(s, depth) {
        None => r is Err,
        Some((label, t)) => match label {
            Label::Loop(start) => r matches Ok(Signal::Next) && s2 == t
                && pc2 == ProgramCounter { inst_index: start, ..pc },
            Label::Return(_) => spec_return_to(t, st, pc, s2, pc2, r),
            _ => match spec_body(st, pc.func_addr) {
                Some(body) => match spec_scan_end(body, pc.inst_index.0 as int, depth + 1) {
                    Some(p) => r matches Ok(Signal::Next) && s2 == t
                        && pc2 == ProgramCounter { inst_index: InstIndex(p as u32), ..pc },
                    None => r is Err,
                },
                None => r is Err,
            },
        },
    }
}

/// A return taken at `pc`: the stack and pc after, and the signal.
pub open spec fn spec_return_to(
    s: Seq<Entry>,
    st: Store,
    pc: ProgramCounter,
    s2: Seq<Entry>,
    pc2: ProgramCounter,
    r: Result<Signal, Trap>,
) -> bool {
    match spec_return(s, st) {
        Some((u, ret)) => r matches Ok(Signal::Next) && s2 == u
            && pc2 == (match ret { Some(p) => p, None => pc }),
        None => r is Err,
    }
}

/// `GetLocal`.
pub open spec fn spec_get_local_step(s: Seq<Entry>, index: u32, s2: Seq<Entry>, r: Result<(), Trap>) -> bool {
    match spec_get_local(s, index as usize) {
        Some(v) => r is Ok && s2 == s.push(Entry::Value(v)),
        None => r is Err,
    }
}

/// `SetLocal`.
pub open spec fn spec_set_local_step(s: Seq<Entry>, index: u32, s2: Seq<Entry>, r: Result<(), Trap>) -> bool {
    match spec_pop_value(s) {
        (s1, Ok(v)) => match spec_set_local(s1, index as usize, v) {
            Some(t) => r is Ok && s2 == t,
            None => r is Err,
        },
        (_, Err(_)) => r is Err,
    }
}

/// `TeeLocal`.
pub open spec fn spec_tee_local_step(s: Seq<Entry>, index: u32, s2: Seq<Entry>, r: Result<(), Trap>) -> bool {
    match spec_pop_value(s) {
        (_, Ok(v)) => match spec_set_local(s, index as usize, v) {
            Some(t) => r is Ok && s2 == t,
            None => r is Err,
        },
        (_, Err(_)) => r is Err,
    }
}

/// `GetGlobal` in module `m`.
pub open spec fn spec_get_global_step(s: Seq<Entry>, st: Store, m: ModuleIndex, index: u32, s2: Seq<Entry>, r: Result<(), Trap>) -> bool {
    match st.spec_global(GlobalAddr(m, index as usize)) {
        Some(g) => r is Ok && s2 == s.push(Entry::Value(g.spec_value())),
        None => r is Err,
    }
}

/// `SetGlobal` in module `m`.
pub open spec fn spec_set_global_step(
    s: Seq<Entry>,
    st: Store,
    m: ModuleIndex,
    index: u32,
    s2: Seq<Entry>,
    st2: Store,
    r: Result<(), Trap>,
) -> bool {
    match spec_pop_value(s) {
        (s1, Ok(v)) => match st.spec_global(GlobalAddr(m, index as usize)) {
            Some(g) => if g.spec_ty().mutable {
                r is Ok && s2 == s1
                    && st2.spec_globals() == st.spec_globals().update(
                        m.0 as int, st.spec_globals()[m.0 as int].update(index as int, g.with_value(v)))
                    && same_but_globals(st, st2)
            } else {
                r is Err && st2 == st
            },
            None => r is Err && st2 == st,
        },
        (_, Err(_)) => r is Err && st2 == st,
    }
}

/// A load of `kind` at static offset `offset`.
pub open spec fn spec_load_step(s: Seq<Entry>, st: Store, kind: LoadKind, offset: u32, s2: Seq<Entry>, r: Result<(), Trap>) -> bool {
    match spec_pop_as(s, ValueType::I32) {
        (s1, Ok(Value::I32(base))) => match spec_frame_module(s1) {
            Some(mi) => match st.spec_memory(MemoryAddr(mi, 0)) {
                Some(mem) => {
                    let ea = spec_effective(base, offset);
                    if ea + kind.spec_width() > mem.spec_data().len() {
                        r is Err
                    } else {
                        r is Ok && s2 == s1.push(Entry::Value(spec_load_value(kind,
                            le_value(mem.spec_data().subrange(ea, ea + kind.spec_width())) as u64)))
                    }
                },
                None => r is Err,
            },
            None => r is Err,
        },
        _ => r is Err,
    }
}

/// A store of `kind` at static offset `offset`.
pub open spec fn spec_store_step(
    s: Seq<Entry>,
    st: Store,
    kind: StoreKind,
    offset: u32,
    s2: Seq<Entry>,
    st2: Store,
    r: Result<(), Trap>,
) -> bool {
    match spec_pop_as(s, kind.spec_operand()) {
        (s1, Ok(val)) => match spec_pop_as(s1, ValueType::I32) {
            (t, Ok(Value::I32(base))) => match spec_frame_module(t) {
                Some(mi) => match st.spec_memory(MemoryAddr(mi, 0)) {
                    Some(mem) => {
                        let ea = spec_effective(base, offset);
                        let bytes = le_bytes(spec_value_bits(val) as nat, kind.spec_width() as nat);
                        if ea + kind.spec_width() > mem.spec_data().len() {
                            r is Err
                        } else {
                            &&& r is Ok
                            &&& s2 == t
                            &&& same_but_memory(st, st2, MemoryAddr(mi, 0))
                            &&& st2.spec_memory(MemoryAddr(mi, 0)) matches Some(m2)
                                && memory::store_effect(mem, m2, ea as usize, bytes, Ok(()))
                        }
                    },
                    None => r is Err,
                },
                None => r is Err,
            },
            _ => r is Err,
        },
        _ => r is Err,
    }
}

/// `CurrentMemory`.
pub open spec fn spec_current_memory_step(s: Seq<Entry>, st: Store, s2: Seq<Entry>, r: Result<(), Trap>) -> bool {
    match spec_frame_module(s) {
        Some(mi) => match st.spec_memory(MemoryAddr(mi, 0)) {
            Some(mem) => r is Ok && s2 == s.push(Entry::Value(
                Value::I32((mem.spec_data().len() / (memory::WASM_PAGE_SIZE as nat)) as i32))),
            None => r is Err,
        },
        None => r is Err,
    }
}

/// `GrowMemory`.
pub open spec fn spec_grow_memory_step(s: Seq<Entry>, st: Store, s2: Seq<Entry>, st2: Store, r: Result<(), Trap>) -> bool {
    match spec_pop_as(s, ValueType::I32) {
        (s1, Ok(Value::I32(n))) => match spec_frame_module(s1) {
            Some(mi) => match st.spec_memory(MemoryAddr(mi, 0)) {
                Some(mem) => {
                    &&& r is Ok
                    &&& same_but_memory(st, st2, MemoryAddr(mi, 0))
                    &&& st2.spec_memory(MemoryAddr(mi, 0)) matches Some(m2)
                    && exists|g: Result<(), memory::Error>| #![trigger memory::grow_effect(mem, m2, n as usize, g)]
                        memory::grow_effect(mem, m2, n as usize, g)
                        && s2 == s1.push(Entry::Value(Value::I32(
                            if g is Ok { (mem.spec_data().len() / (memory::WASM_PAGE_SIZE as nat)) as i32 } else { -1i32 })))
                },
                None => r is Err,
            },
            None => r is Err,
        },
        _ => r is Err,
    }
}

/// Reaching an `End` at `pc`: the stack and pc after, and the signal.
pub open spec fn spec_end_step(
    s: Seq<Entry>,
    st: Store,
    pc: ProgramCounter,
    s2: Seq<Entry>,
    pc2: ProgramCounter,
    r: Result<Signal, Trap>,
) -> bool {
    if last_frame_pos(s) < 0 {
        r is Err
    } else if labels_of(frame_top(s)).len() == 1 {
        match spec_end_func(s, st) {
            Some((u, ret)) => s2 == u && match ret {
                Some(p) => pc2 == p && r matches Ok(Signal::Next),
                None => pc2 == pc && r matches Ok(Signal::End),
            },
            None => r is Err,
        }
    } else {
        match spec_end_block(s) {
            Some(u) => r matches Ok(Signal::Next) && s2 == u && pc2 == pc,
            None => r is Err,
        }
    }
}

/// The index after `pc`.
pub open spec fn next_pc(pc: ProgramCounter) -> ProgramCounter {
    ProgramCounter { inst_index: InstIndex((pc.inst_index.0 + 1) as u32), ..pc }
}

/// The index before `pc`.
pub open spec fn prev_pc(pc: ProgramCounter) -> ProgramCounter {
    ProgramCounter { inst_index: InstIndex((pc.inst_index.0 - 1) as u32), ..pc }
}

/// The outcome of a step, without the signal.
pub open spec fn unit_of(r: Result<Signal, Trap>) -> Result<(), Trap> {
    match r {
        Ok(_) => Ok(()),
        Err(e) => Err(e),
    }
}

/// A successful step that goes on with the instruction at `pc`.
pub open spec fn goes_on(pre: ExecView, pc: ProgramCounter, post: ExecView, r: Result<Signal, Trap>) -> bool {
    r is Ok ==> (r matches Ok(Signal::Next) && post.pc == pc && post.pending == pre.pending)
}

/// An instruction of control flow (`Unreachable` to `CallIndirect`).
pub open spec fn is_control(kind: InstKind) -> bool {
    match kind {
        InstKind::Unreachable | InstKind::Block(_) | InstKind::Loop(_) | InstKind::If(_) | InstKind::Else
        | InstKind::End | InstKind::Br(_) | InstKind::BrIf(_) | InstKind::BrTable(_, _) | InstKind::Return
        | InstKind::Call(_) | InstKind::CallIndirect(_) => true,
        _ => false,
    }
}

/// An instruction on locals, globals or memory.
pub open spec fn is_access(kind: InstKind) -> bool {
    match kind {
        InstKind::GetLocal(_) | InstKind::SetLocal(_) | InstKind::TeeLocal(_) | InstKind::GetGlobal(_)
        | InstKind::SetGlobal(_) | InstKind::Load(_, _) | InstKind::Store(_, _) | InstKind::CurrentMemory
        | InstKind::GrowMemory => true,
        _ => false,
    }
}

/// A control instruction executed from `pre`, whose pc is that instruction's.
pub open spec fn spec_control(pre: ExecView, st: Store, kind: InstKind, post: ExecView, r: Result<Signal, Trap>) -> bool {
    let pc = next_pc(pre.pc);
    let s = pre.stack;
    let on = ExecView { pc, ..pre };
    match kind {
        InstKind::Unreachable => r == Err::<Signal, Trap>(Trap::Unreachable),
        InstKind::Block(bt) => r matches Ok(Signal::Next)
            && post == ExecView { stack: s.push(Entry::Label(Label::Block(bt.spec_arity()))), ..on },
        InstKind::Loop(_) => r matches Ok(Signal::Next)
            && post == ExecView { stack: s.push(Entry::Label(Label::Loop(pre.pc.inst_index))), ..on },
        InstKind::If(bt) => match spec_pop_as(s, ValueType::I32) {
            (s1, Ok(Value::I32(c))) => {
                let s2 = s1.push(Entry::Label(Label::If(bt.spec_arity())));
                if c != 0 {
                    r matches Ok(Signal::Next) && post == ExecView { stack: s2, ..on }
                } else {
                    match spec_body(st, pc.func_addr) {
                        Some(body) => match spec_scan_else(body, pc.inst_index.0 as int, 1) {
                            Some(p) => r matches Ok(Signal::Next) && post == ExecView {
                                stack: s2,
                                pc: ProgramCounter { inst_index: InstIndex(p as u32), ..pc },
                                pending: pre.pending,
                            },
                            None => r is Err,
                        },
                        None => r is Err,
                    }
                }
            },
            (_, Err(e)) => r == Err::<Signal, Trap>(e),
            _ => r is Err,
        },
        InstKind::Else => post.pending == pre.pending && spec_branch_to(s, 0, st, pc, post.stack, post.pc, r),
        InstKind::End => post.pending == pre.pending && spec_end_step(s, st, pc, post.stack, post.pc, r),
        InstKind::Br(d) => post.pending == pre.pending && spec_branch_to(s, d, st, pc, post.stack, post.pc, r),
        InstKind::BrIf(d) => post.pending == pre.pending && match spec_pop_value(s) {
            (s1, Ok(v)) => if v != Value::I32(0) {
                spec_branch_to(s1, d, st, pc, post.stack, post.pc, r)
            } else {
                r matches Ok(Signal::Next) && post.stack == s1 && post.pc == pc
            },
            (_, Err(e)) => r == Err::<Signal, Trap>(e),
        },
        InstKind::BrTable(table, default) => post.pending == pre.pending && match spec_pop_as(s, ValueType::I32) {
            (s1, Ok(Value::I32(x))) => {
                let i = x as usize;
                let d = if i < table@.len() { table@[i as int] } else { default };
                spec_branch_to(s1, d, st, pc, post.stack, post.pc, r)
            },
            (_, Err(e)) => r == Err::<Signal, Trap>(e),
            _ => r is Err,
        },
        InstKind::Return => post.pending == pre.pending && spec_return_to(s, st, pc, post.stack, post.pc, r),
        InstKind::Call(i) => match spec_frame_module(s) {
            Some(mi) => spec_invoke(on, st, FuncAddr(mi, i as usize), post, r),
            None => r is Err,
        },
        InstKind::CallIndirect(t) => spec_call_indirect(on, st, t, post, r),
        _ => false,
    }
}

/// An instruction on locals, globals or memory, in module `m`.
pub open spec fn spec_access(
    pre: ExecView,
    st: Store,
    kind: InstKind,
    m: ModuleIndex,
    post: ExecView,
    st2: Store,
    r: Result<Signal, Trap>,
) -> bool {
    let s = pre.stack;
    let s2 = post.stack;
    let u = unit_of(r);
    &&& goes_on(pre, next_pc(pre.pc), post, r)
    &&& match kind {
        InstKind::GetLocal(i) => st2 == st && spec_get_local_step(s, i, s2, u),
        InstKind::SetLocal(i) => st2 == st && spec_set_local_step(s, i, s2, u),
        InstKind::TeeLocal(i) => st2 == st && spec_tee_local_step(s, i, s2, u),
        InstKind::GetGlobal(i) => st2 == st && spec_get_global_step(s, st, m, i, s2, u),
        InstKind::SetGlobal(i) => spec_set_global_step(s, st, m, i, s2, st2, u),
        InstKind::Load(k, off) => st2 == st && spec_load_step(s, st, k, off, s2, u),
        InstKind::Store(k, off) => spec_store_step(s, st, k, off, s2, st2, u),
        InstKind::CurrentMemory => st2 == st && spec_current_memory_step(s, st, s2, u),
        InstKind::GrowMemory => spec_grow_memory_step(s, st, s2, st2, u),
        _ => false,
    }
}

/// An instruction executed from `pre`, whose pc is that instruction's, in
/// module `m`: the state and store after, and the signal, before the check
/// for a finished run.
pub open spec fn spec_inst(
    pre: ExecView,
    st: Store,
    kind: InstKind,
    m: ModuleIndex,
    post: ExecView,
    st2: Store,
    r: Result<Signal, Trap>,
) -> bool {
    if is_control(kind) {
        st2 == st && spec_control(pre, st, kind, post, r)
    } else if is_access(kind) {
        spec_access(pre, st, kind, m, post, st2, r)
    } else {
        match kind {
            InstKind::FloatNumeric(op) => st2 == st && post.pc == next_pc(pre.pc)
                && spec_float(ExecView { pc: next_pc(pre.pc), ..pre }, op, post, r),
            _ => {
                let (s2, r0) = spec_numeric(kind, pre.stack);
                &&& st2 == st
                &&& unit_of(r) == r0
                &&& post.stack == s2
                &&& post.pc == next_pc(pre.pc)
                &&& post.pending == pre.pending
                &&& goes_on(pre, next_pc(pre.pc), post, r)
            },
        }
    }
}

/// One step: an instruction, then the check that ends the run once no call
/// frame is left.
pub open spec fn spec_step(
    pre: ExecView,
    st: Store,
    kind: InstKind,
    m: ModuleIndex,
    post: ExecView,
    st2: Store,
    r: Result<Signal, Trap>,
) -> bool {
    exists|r0: Result<Signal, Trap>| #![trigger spec_inst(pre, st, kind, m, post, st2, r0)]
        spec_inst(pre, st, kind, m, post, st2, r0)
        && r == (if last_frame_pos(post.stack) < 0 { Ok::<Signal, Trap>(Signal::End) } else { r0 })
}

fn is_control_kind(kind: &InstKind) -> (r: bool)
    ensures
        r == is_control(*kind),
{
    match kind {
        InstKind::Unreachable | InstKind::Block(_) | InstKind::Loop(_) | InstKind::If(_) | InstKind::Else
        | InstKind::End | InstKind::Br(_) | InstKind::BrIf(_) | InstKind::BrTable(_, _) | InstKind::Return
        | InstKind::Call(_) | InstKind::CallIndirect(_) => true,
        _ => false,
    }
}

fn is_access_kind(kind: &InstKind) -> (r: bool)
    ensures
        r == is_access(*kind),
{
    match kind {
        InstKind::GetLocal(_) | InstKind::SetLocal(_) | InstKind::TeeLocal(_) | InstKind::GetGlobal(_)
        | InstKind::SetGlobal(_) | InstKind::Load(_, _) | InstKind::Store(_, _) | InstKind::CurrentMemory
        | InstKind::GrowMemory => true,
        _ => false,
    }
}

/// The instruction at `pc` and the module of its function, when `pc` is in
/// the body of a defined function.
pub open spec fn spec_fetch(st: Store, pc: ProgramCounter) -> Option<(Instruction, ModuleIndex)> {
    match st.spec_func(pc.func_addr) {
        Some(FunctionInstance::Defined(d)) => if (pc.inst_index.0 as int) < d.spec_instructions().len() {
            Some((d.spec_instructions()[pc.inst_index.0 as int], d.spec_module_index()))
        } else {
            None
        },
        _ => None,
    }
}

/// Two instruction kinds that hold the same values.
pub open spec fn same_kind(a: InstKind, b: InstKind) -> bool {
    match (a, b) {
        (InstKind::BrTable(t1, d1), InstKind::BrTable(t2, d2)) => t1@ == t2@ && d1 == d2,
        _ => a == b,
    }
}

fn copy_kind(k: &InstKind) -> (r: InstKind)
    ensures
        same_kind(r, *k),
{
    match k {
        InstKind::BrTable(t, d) => {
            let mut t2: Vec<u32> = Vec::new();
            let mut i: usize = 0;
            while i < t.len()
                invariant
                    i <= t@.len(),
                    t2@ == t@.subrange(0, i as int),
                decreases t@.len() - i,
            {
                t2.push(t[i]);
                i = i + 1;
                assert(t2@ =~= t@.subrange(0, i as int));
            }
            assert(t@.subrange(0, i as int) =~= t@);
            InstKind::BrTable(t2, *d)
        },
        InstKind::Unreachable => InstKind::Unreachable,
        InstKind::Nop => InstKind::Nop,
        InstKind::Block(b) => InstKind::Block(*b),
        InstKind::Loop(b) => InstKind::Loop(*b),
        InstKind::If(b) => InstKind::If(*b),
        InstKind::Else => InstKind::Else,
        InstKind::End => InstKind::End,
        InstKind::Br(d) => InstKind::Br(*d),
        InstKind::BrIf(d) => InstKind::BrIf(*d),
        InstKind::Return => InstKind::Return,
        InstKind::Call(i) => InstKind::Call(*i),
        InstKind::CallIndirect(i) => InstKind::CallIndirect(*i),
        InstKind::Drop => InstKind::Drop,
        InstKind::Select => InstKind::Select,
        InstKind::GetLocal(i) => InstKind::GetLocal(*i),
        InstKind::SetLocal(i) => InstKind::SetLocal(*i),
        InstKind::TeeLocal(i) => InstKind::TeeLocal(*i),
        InstKind::GetGlobal(i) => InstKind::GetGlobal(*i),
        InstKind::SetGlobal(i) => InstKind::SetGlobal(*i),
        InstKind::Load(k, o) => InstKind::Load(*k, *o),
        InstKind::Store(k, o) => InstKind::Store(*k, *o),
        InstKind::CurrentMemory => InstKind::CurrentMemory,
        InstKind::GrowMemory => InstKind::GrowMemory,
        InstKind::I32Const(x) => InstKind::I32Const(*x),
        InstKind::I64Const(x) => InstKind::I64Const(*x),
        InstKind::F32Const(x) => InstKind::F32Const(*x),
        InstKind::F64Const(x) => InstKind::F64Const(*x),
        InstKind::I32Eqz => InstKind::I32Eqz,
        InstKind::I64Eqz => InstKind::I64Eqz,
        InstKind::I32Rel(op) => InstKind::I32Rel(*op),
        InstKind::I64Rel(op) => InstKind::I64Rel(*op),
        InstKind::I32Un(op) => InstKind::I32Un(*op),
        InstKind::I64Un(op) => InstKind::I64Un(*op),
        InstKind::I32Bin(op) => InstKind::I32Bin(*op),
        InstKind::I64Bin(op) => InstKind::I64Bin(*op),
        InstKind::I32WrapI64 => InstKind::I32WrapI64,
        InstKind::I64ExtendSI32 => InstKind::I64ExtendSI32,
        InstKind::I64ExtendUI32 => InstKind::I64ExtendUI32,
        InstKind::I32ReinterpretF32 => InstKind::I32ReinterpretF32,
        InstKind::I64ReinterpretF64 => InstKind::I64ReinterpretF64,
        InstKind::F32ReinterpretI32 => InstKind::F32ReinterpretI32,
        InstKind::F64ReinterpretI64 => InstKind::F64ReinterpretI64,
        InstKind::FloatNumeric(op) => InstKind::FloatNumeric(*op),
    }
}

/// The stack holds, from the top down, values of the types `tys`.
pub open spec fn result_ok(s: Seq<Entry>, tys: Seq<ValueType>) -> bool {
    &&& tys.len() <= s.len()
    &&& forall|k: int| 0 <= k < tys.len() ==> ((#[trigger] s[s.len() - 1 - k]) matches Entry::Value(v) && v.spec_type() == tys[k])
}

/// Why a run stopped with an error.
#[derive(Clone, Debug)]
pub enum WasmError {
    ExecutionError(Trap),
    /// No function to start with, by the name looked for.
    EntryFunctionNotFound(String),
    ReturnValueError(ReturnValError),
    HostExecutionError,
}

/// How an invocation starts.
pub enum Invocation {
    /// The function is a host function: the embedder calls it, and its
    /// results are those of the invocation.
    Host(HostRequest),
    /// A defined function runs in this interpreter; its results must have
    /// these types.
    Running(Executor, Vec<ValueType>),
}

/// Where a run of steps stopped.
#[derive(Clone, Debug)]
pub enum RunOutcome {
    /// The outermost function returned these values, the first the topmost.
    Finished(Vec<Value>),
    /// The embedder must do this work and hand back its results.
    Host(HostRequest),
    /// The budget of steps is spent; the run can go on.
    Paused,
}

/// One step of the interpreter from `pre`: the instruction at its pc.
pub open spec fn spec_exec_step(pre: ExecView, st: Store, post: ExecView, st2: Store, r: Result<Signal, Trap>) -> bool {
    match spec_fetch(st, pre.pc) {
        None => r is Err && post == pre && st2 == st,
        Some((inst, m)) => exists|k: InstKind| #![trigger spec_step(pre, st, k, m, post, st2, r)]
            same_kind(k, inst.kind) && spec_step(pre, st, k, m, post, st2, r),
    }
}

/// The values of the top `n` entries, the topmost first.
pub open spec fn top_values(s: Seq<Entry>, n: nat) -> Seq<Value> {
    Seq::new(n, |k: int| match s[s.len() - 1 - k] {
        Entry::Value(v) => v,
        _ => Value::I32(0),
    })
}

/// A run of at most `fuel` steps from `pre`, whose outermost function
/// returns values of types `tys`.
pub open spec fn spec_run(
    pre: ExecView,
    st: Store,
    fuel: nat,
    tys: Seq<ValueType>,
    post: ExecView,
    st2: Store,
    out: Result<RunOutcome, WasmError>,
) -> bool
    decreases fuel,
{
    if fuel == 0 {
        post == pre && st2 == st && out matches Ok(RunOutcome::Paused)
    } else {
        exists|mid: ExecView, smid: Store, sig: Result<Signal, Trap>|
            #![trigger spec_exec_step(pre, st, mid, smid, sig)]
            spec_exec_step(pre, st, mid, smid, sig) && match sig {
                Ok(Signal::Next) => spec_run(mid, smid, (fuel - 1) as nat, tys, post, st2, out),
                Ok(Signal::End) => st2 == smid && post.pc == mid.pc && post.pending == mid.pending
                    && if result_ok(mid.stack, tys) {
                        out matches Ok(RunOutcome::Finished(v)) && v@ == top_values(mid.stack, tys.len())
                            && post.stack == mid.stack.subrange(0, mid.stack.len() - tys.len())
                    } else {
                        out matches Err(WasmError::ReturnValueError(_))
                    },
                Ok(Signal::Host(req)) => post == mid && st2 == smid && out == Ok::<RunOutcome, WasmError>(RunOutcome::Host(req)),
                Err(e) => post == mid && st2 == smid && out == Err::<RunOutcome, WasmError>(WasmError::ExecutionError(e)),
            }
    }
}

/// The state that starts a call of the defined function `d` at `addr`
/// from outside, with `args`.
pub open spec fn spec_entry(addr: FuncAddr, d: crate::vm::func::DefinedFunctionInstance, args: Seq<Value>) -> ExecView {
    ExecView {
        pc: ProgramCounter { func_addr: addr, inst_index: InstIndex(0) },
        stack: seq![
            Entry::Activation(FrameView {
                module_index: d.spec_module_index(),
                func_addr: addr,
                locals: args + d.spec_locals().map_values(|t: ValueType| value::spec_default_value(t)),
                ret_pc: None,
            }),
            Entry::Label(Label::Return(d.spec_ty().returns.len() as usize)),
        ],
        pending: None,
    }
}

/// The interpreter's state.
pub struct Executor {
    pub pc: ProgramCounter,
    pub stack: Stack,
    pub pending: Option<Vec<ValueType>>,
}

impl Executor {
    pub open spec fn spec_pending(&self) -> Option<Seq<ValueType>> {
        match self.pending {
            Some(v) => Some(v@),
            None => None,
        }
    }

    /// An interpreter about to run the function of `initial_frame` from `pc`.
    pub fn new(initial_frame: CallFrame, initial_arity: usize, pc: ProgramCounter) -> (e: Self)
        ensures
            e.stack@ == seq![Entry::Activation(initial_frame.view()), Entry::Label(Label::Return(initial_arity))],
            e.pc == pc,
            e.spec_pending() is None,
    {
        let mut stack = Stack::new();
        stack.set_frame(initial_frame);
        stack.push_label(Label::Return(initial_arity));
        assert(stack@ =~= seq![Entry::Activation(initial_frame.view()), Entry::Label(Label::Return(initial_arity))]);
        Executor { stack, pc, pending: None }
    }

    /// Pops a value of type `ty`.
    fn pop_as(&mut self, ty: ValueType) -> (r: Result<Value, Trap>)
        ensures
            (final(self).stack@, r) == spec_pop_as(old(self).stack@, ty),
            final(self).pc == old(self).pc,
            final(self).pending == old(self).pending,
    {
        match self.stack.pop_value() {
            Ok(v) => {
                if v.value_type() == ty {
                    Ok(v)
                } else {
                    Err(Trap::UnexpectedStackValueType(ty, v.value_type()))
                }
            },
            Err(e) => Err(Trap::Stack(e)),
        }
    }

    /// Pops a value of any type.
    fn pop_any(&mut self) -> (r: Result<Value, Trap>)
        ensures
            (final(self).stack@, r) == spec_pop_value(old(self).stack@),
            final(self).pc == old(self).pc,
            final(self).pending == old(self).pending,
    {
        match self.stack.pop_value() {
            Ok(v) => Ok(v),
            Err(e) => Err(Trap::Stack(e)),
        }
    }

    /// Pops the results of a finished function, the topmost checked against
    /// the first type.
    pub fn pop_result(&mut self, return_ty: Vec<ValueType>) -> (r: Result<Vec<Value>, ReturnValError>)
        ensures
            final(self).pc == old(self).pc,
            final(self).pending == old(self).pending,
            match r {
                Ok(vals) => vals@.len() == return_ty@.len()
                    && old(self).stack@.len() >= vals@.len()
                    && final(self).stack@ == old(self).stack@.subrange(0, old(self).stack@.len() - vals@.len())
                    && forall|k: int| 0 <= k < vals@.len() ==> (#[trigger] vals@[k]).spec_type() == return_ty@[k]
                        && old(self).stack@[old(self).stack@.len() - 1 - k] == Entry::Value(vals@[k]),
                Err(_) => !result_ok(old(self).stack@, return_ty@),
            },
            r is Ok <==> result_ok(old(self).stack@, return_ty@),
    {
        let mut results: Vec<Value> = Vec::new();
        let mut i: usize = 0;
        while i < return_ty.len()
            invariant
                i <= return_ty@.len(),
                results@.len() == i,
                old(self).stack@.len() >= i,
                self.pc == old(self).pc,
                self.pending == old(self).pending,
                self.stack@ == old(self).stack@.subrange(0, old(self).stack@.len() - i),
                forall|k: int| 0 <= k < i ==> (#[trigger] results@[k]).spec_type() == return_ty@[k]
                    && old(self).stack@[old(self).stack@.len() - 1 - k] == Entry::Value(results@[k]),
            decreases return_ty@.len() - i,
        {
            let val = match self.stack.pop_value() {
                Ok(v) => v,
                Err(e) => {
                    proof {
                        let o = old(self).stack@;
                        if o.len() > i {
                            assert(self.stack@.last() == o[o.len() - 1 - i]);
                        }
                    }
                    return Err(ReturnValError::Stack(e));
                },
            };
            results.push(val);
            if val.value_type() != return_ty[i] {
                proof {
                    let o = old(self).stack@;
                    assert(o[o.len() - 1 - i] == Entry::Value(val));
                }
                return Err(ReturnValError::TypeMismatchReturnValue(val, return_ty[i]));
            }
            i = i + 1;
        }
        proof {
            let o = old(self).stack@;
            assert forall|k: int| 0 <= k < return_ty@.len() implies ((#[trigger] o[o.len() - 1 - k]) matches Entry::Value(v)
                && v.spec_type() == return_ty@[k]) by {
                assert(o[o.len() - 1 - k] == Entry::Value(results@[k]));
            }
        }
        Ok(results)
    }

    /// Pops `n` values, topmost first.
    fn pop_n_values(&mut self, n: usize) -> (r: Result<Vec<Value>, Trap>)
        ensures
            final(self).pc == old(self).pc,
            final(self).pending == old(self).pending,
            match r {
                Ok(v) => trailing_values(old(self).stack@) >= n && v@.len() == n
                    && final(self).stack@ == old(self).stack@.subrange(0, old(self).stack@.len() - n)
                    && values_entries(v@) == old(self).stack@.subrange(old(self).stack@.len() - n, old(self).stack@.len() as int).reverse(),
                Err(_) => trailing_values(old(self).stack@) < n,
            },
    {
        let mut vals: Vec<Value> = Vec::new();
        let mut i: usize = 0;
        proof { stack::lemma_trailing_bounds_pub(old(self).stack@); }
        while i < n
            invariant
                i <= n,
                vals@.len() == i,
                self.pc == old(self).pc,
                self.pending == old(self).pending,
                i <= trailing_values(old(self).stack@),
                trailing_values(old(self).stack@) <= old(self).stack@.len(),
                self.stack@ == old(self).stack@.subrange(0, old(self).stack@.len() - i),
                trailing_values(self.stack@) == trailing_values(old(self).stack@) - i,
                values_entries(vals@) == old(self).stack@.subrange(old(self).stack@.len() - i, old(self).stack@.len() as int).reverse(),
            decreases n - i,
        {
            proof { stack::lemma_trailing_bounds_pub(self.stack@); }
            let ghost prev = self.stack@;
            match self.stack.pop_value() {
                Ok(v) => {
                    proof {
                        assert(prev.drop_last() =~= self.stack@);
                        assert(trailing_values(prev) == 1 + trailing_values(prev.drop_last()));
                        let o = old(self).stack@;
                        assert(prev == o.subrange(0, o.len() - i));
                        assert(i + 1 <= trailing_values(o));
                        assert(o.subrange(0, o.len() - i).drop_last() =~= o.subrange(0, o.len() - (i + 1)));
                        assert(prev.last() == Entry::Value(v));
                        assert(o[o.len() - (i + 1)] == Entry::Value(v));
                    }
                    let ghost old_vals = vals@;
                    vals.push(v);
                    proof {
                        let o = old(self).stack@;
                        let w = o.subrange(o.len() - (i + 1), o.len() as int).reverse();
                        let w0 = o.subrange(o.len() - i, o.len() as int).reverse();
                        assert(vals@.drop_last() == old_vals);
                        assert forall|k: int| 0 <= k < vals@.len() implies values_entries(vals@)[k] == w[k] by {
                            if k < i {
                                assert(values_entries(vals@)[k] == Entry::Value(vals@[k]));
                                assert(vals@[k] == old_vals[k]);
                                assert(values_entries(old_vals)[k] == Entry::Value(old_vals[k]));
                                assert(w0[k] == o[o.len() - 1 - k]);
                                assert(w[k] == o[o.len() - 1 - k]);
                            } else {
                                assert(w[k] == o[o.len() - 1 - k]);
                            }
                        }
                        assert(values_entries(vals@) =~= w);
                    }
                },
                Err(_) => {
                    return Err(Trap::Stack(stack::Error::PopEmptyStack));
                },
            }
            i = i + 1;
        }
        Ok(vals)
    }

    /// Pushes values in order.
    fn push_all(&mut self, vals: &Vec<Value>)
        ensures
            final(self).stack@ == old(self).stack@ + values_entries(vals@),
            final(self).pc == old(self).pc,
            final(self).pending == old(self).pending,
    {
        let mut i: usize = 0;
        while i < vals.len()
            invariant
                i <= vals@.len(),
                self.stack@ == old(self).stack@ + values_entries(vals@.subrange(0, i as int)),
                self.pc == old(self).pc,
                self.pending == old(self).pending,
            decreases vals@.len() - i,
        {
            self.stack.push_value(vals[i]);
            i = i + 1;
            assert(self.stack@ =~= old(self).stack@ + values_entries(vals@.subrange(0, i as int)));
        }
        assert(vals@.subrange(0, i as int) =~= vals@);
    }

    /// Pops `n` labels from the top, with the values above each.
    fn pop_labels(&mut self, n: u64) -> (r: Result<(), Trap>)
        ensures
            final(self).pc == old(self).pc,
            final(self).pending == old(self).pending,
            match spec_pop_labels(old(self).stack@, n as nat) {
                Some(t) => r is Ok && final(self).stack@ == t,
                None => r is Err,
            },
    {
        let mut k: u64 = 0;
        while k < n
            invariant
                k <= n,
                self.pc == old(self).pc,
                self.pending == old(self).pending,
                spec_pop_labels(old(self).stack@, n as nat) == spec_pop_labels(self.stack@, (n - k) as nat),
            decreases n - k,
        {
            let _ = self.stack.pop_values_to_label();
            match self.stack.pop_label() {
                Ok(_) => {},
                Err(e) => {
                    return Err(Trap::Stack(e));
                },
            }
            k = k + 1;
        }
        Ok(())
    }

    /// Branches out of `depth + 1` labels.
    fn branch(&mut self, depth: u32, store: &Store) -> (r: Result<Signal, Trap>)
        requires
            store.wf(),
        ensures
            final(self).pending == old(self).pending,
            spec_branch_to(old(self).stack@, depth, *store, old(self).pc, final(self).stack@, final(self).pc, r),
    {
        let labels = match self.stack.current_frame_labels() {
            Ok(l) => l,
            Err(e) => return Err(Trap::Stack(e)),
        };
        let n = labels.len();
        if (depth as usize) >= n {
            return Err(Trap::BranchOutOfLabels(depth));
        }
        let label = labels[n - 1 - depth as usize];
        let arity = label.arity();
        let results = match self.pop_n_values(arity) {
            Ok(v) => v,
            Err(e) => return Err(e),
        };
        proof { lemma_trailing_values(old(self).stack@, arity as nat); }
        match self.pop_labels(depth as u64 + 1) {
            Ok(_) => {},
            Err(e) => return Err(e),
        }
        let mut rev: Vec<Value> = Vec::new();
        let mut results = results;
        let ghost popped = results@;
        while results.len() > 0
            invariant
                rev@.len() + results@.len() == popped.len(),
                results@ == popped.subrange(0, results@.len() as int),
                forall|k: int| 0 <= k < rev@.len() ==> #[trigger] rev@[k] == popped[popped.len() - 1 - k],
            decreases results@.len(),
        {
            let v = results.pop().unwrap();
            rev.push(v);
        }
        proof {
            let o = old(self).stack@;
            assert(values_entries(rev@) =~= o.subrange(o.len() - arity, o.len() as int)) by {
                assert(values_entries(popped) == o.subrange(o.len() - arity, o.len() as int).reverse());
                assert forall|k: int| 0 <= k < rev@.len() implies values_entries(rev@)[k] == o.subrange(o.len() - arity, o.len() as int)[k] by {
                    assert(values_entries(popped)[popped.len() - 1 - k] == o.subrange(o.len() - arity, o.len() as int).reverse()[popped.len() - 1 - k]);
                }
            }
        }
        self.push_all(&rev);
        match label {
            Label::Loop(start) => {
                self.pc.loop_jump(start);
                Ok(Signal::Next)
            },
            Label::Return(_) => self.do_return(store),
            _ => {
                let insts = match store.func(self.pc.func_addr()) {
                    Some(FunctionInstance::Defined(d)) => d.instructions(),
                    _ => return Err(Trap::UndefinedFunc(self.pc.func_addr())),
                };
                proof {
                    assert(func_wf_of(*store, old(self).pc.func_addr));
                }
                match scan_end(insts, self.pc.inst_index().0, depth as u64 + 1) {
                    Some(p) => {
                        self.pc.loop_jump(InstIndex(p));
                        Ok(Signal::Next)
                    },
                    None => Err(Trap::ControlOutOfCode),
                }
            },
        }
    }

    /// Returns from the innermost frame.
    fn do_return(&mut self, store: &Store) -> (r: Result<Signal, Trap>)
        ensures
            final(self).pending == old(self).pending,
            spec_return_to(old(self).stack@, *store, old(self).pc, final(self).stack@, final(self).pc, r),
    {
        proof { stack::lemma_last_frame_pos_bounds(self.stack@); }
        let (func_addr, ret_pc) = match self.stack.current_frame() {
            Ok(f) => (f.func_addr, f.ret_pc),
            Err(e) => return Err(Trap::Stack(e)),
        };
        let arity = match store.func(func_addr) {
            Some(f) => f.ty().returns.len(),
            None => return Err(Trap::UndefinedFunc(func_addr)),
        };
        let ghost p = last_frame_pos(old(self).stack@);
        let results = match self.pop_n_values(arity) {
            Ok(v) => v,
            Err(e) => return Err(e),
        };
        proof {
            lemma_trailing_values(old(self).stack@, arity as nat);
            stack::lemma_trailing_bounds_pub(old(self).stack@);
            lemma_frame_below_values(old(self).stack@, arity as nat);
        }
        self.stack.pop_to_frame();
        match self.stack.pop_frame() {
            Ok(_) => {},
            Err(e) => return Err(Trap::Stack(e)),
        }
        proof {
            let o = old(self).stack@;
            assert(self.stack@ =~= o.subrange(0, p));
        }
        self.push_all(&results);
        proof {
            let o = old(self).stack@;
            assert(values_entries(results@) == o.subrange(o.len() - arity, o.len() as int).reverse());
        }
        match ret_pc {
            Some(pc) => {
                self.pc = pc;
            },
            None => {},
        }
        Ok(Signal::Next)
    }

    /// Pushes local `index` of the innermost frame.
    fn exec_get_local(&mut self, index: u32) -> (r: Result<(), Trap>)
        ensures
            final(self).pc == old(self).pc,
            final(self).pending == old(self).pending,
            spec_get_local_step(old(self).stack@, index, final(self).stack@, r),
            r is Err ==> final(self).stack@ == old(self).stack@,
    {
        proof { stack::lemma_last_frame_pos_bounds(self.stack@); }
        let v = match self.stack.current_frame() {
            Ok(f) => f.local(index as usize),
            Err(e) => return Err(Trap::Stack(e)),
        };
        match v {
            Some(v) => {
                self.stack.push_value(v);
                Ok(())
            },
            None => Err(Trap::Stack(stack::Error::LocalOutOfBounds(index as usize))),
        }
    }

    /// Pops a value into local `index`.
    fn exec_set_local(&mut self, index: u32) -> (r: Result<(), Trap>)
        ensures
            final(self).pc == old(self).pc,
            final(self).pending == old(self).pending,
            spec_set_local_step(old(self).stack@, index, final(self).stack@, r),
    {
        let v = match self.pop_any() {
            Ok(v) => v,
            Err(e) => return Err(e),
        };
        proof { stack::lemma_last_frame_pos_bounds(self.stack@); }
        match self.stack.set_local(index as usize, v) {
            Ok(_) => Ok(()),
            Err(e) => Err(Trap::Stack(e)),
        }
    }

    /// Sets local `index` to the value on top, which stays.
    fn exec_tee_local(&mut self, index: u32) -> (r: Result<(), Trap>)
        ensures
            final(self).pc == old(self).pc,
            final(self).pending == old(self).pending,
            spec_tee_local_step(old(self).stack@, index, final(self).stack@, r),
    {
        let v = match self.pop_any() {
            Ok(v) => v,
            Err(e) => return Err(e),
        };
        self.stack.push_value(v);
        proof {
            assert(self.stack@ =~= old(self).stack@);
        }
        self.stack.push_value(v);
        let _ = self.stack.pop_value();
        proof { assert(self.stack@ =~= old(self).stack@); }
        match self.stack.set_local(index as usize, v) {
            Ok(_) => Ok(()),
            Err(e) => Err(Trap::Stack(e)),
        }
    }

    /// Pushes global `index` of module `m`.
    fn exec_get_global(&mut self, index: u32, m: ModuleIndex, store: &Store) -> (r: Result<(), Trap>)
        ensures
            final(self).pc == old(self).pc,
            final(self).pending == old(self).pending,
            spec_get_global_step(old(self).stack@, *store, m, index, final(self).stack@, r),
            r is Err ==> final(self).stack@ == old(self).stack@,
    {
        let addr = GlobalAddr(m, index as usize);
        match store.global(addr) {
            Some(g) => {
                self.stack.push_value(g.value());
                Ok(())
            },
            None => Err(Trap::UndefinedGlobal(addr)),
        }
    }

    /// Pops a value into mutable global `index` of module `m`.
    fn exec_set_global(&mut self, index: u32, m: ModuleIndex, store: &mut Store) -> (r: Result<(), Trap>)
        ensures
            final(self).pc == old(self).pc,
            final(self).pending == old(self).pending,
            final(store).wf() == old(store).wf(),
            spec_set_global_step(old(self).stack@, *old(store), m, index, final(self).stack@, *final(store), r),
    {
        let v = match self.pop_any() {
            Ok(v) => v,
            Err(e) => return Err(e),
        };
        let addr = GlobalAddr(m, index as usize);
        let mutable = match store.global(addr) {
            Some(g) => g.is_mutable(),
            None => return Err(Trap::UndefinedGlobal(addr)),
        };
        if !mutable {
            return Err(Trap::ImmutableGlobal(addr));
        }
        store.set_global(addr, v);
        Ok(())
    }

    /// The memory of the innermost frame's module.
    fn frame_memory(&self) -> (r: Result<MemoryAddr, Trap>)
        ensures
            match spec_frame_module(self.stack@) {
                Some(mi) => r == Ok::<MemoryAddr, Trap>(MemoryAddr(mi, 0)),
                None => r is Err,
            },
    {
        proof { stack::lemma_last_frame_pos_bounds(self.stack@); }
        match self.stack.current_frame() {
            Ok(f) => Ok(MemoryAddr(f.module_index, 0)),
            Err(e) => Err(Trap::Stack(e)),
        }
    }

    /// Loads a value from memory.
    fn exec_load(&mut self, kind: LoadKind, offset: u32, store: &Store) -> (r: Result<(), Trap>)
        ensures
            final(self).pc == old(self).pc,
            final(self).pending == old(self).pending,
            spec_load_step(old(self).stack@, *store, kind, offset, final(self).stack@, r),
    {
        let base = match self.pop_as(ValueType::I32) {
            Ok(Value::I32(b)) => b,
            Ok(_) => return Err(Trap::Unreachable),
            Err(e) => return Err(e),
        };
        let maddr = match self.frame_memory() {
            Ok(a) => a,
            Err(e) => return Err(e),
        };
        let mem = match store.memory(maddr) {
            Some(m) => m,
            None => return Err(Trap::UndefinedMemory(maddr)),
        };
        let ea = match (base as usize).checked_add(offset as usize) {
            Some(a) => a,
            None => return Err(Trap::Memory(memory::Error::AccessOutOfBounds(None, mem.data_len()))),
        };
        let bits = match mem.load(ea, kind.width()) {
            Ok(b) => b,
            Err(e) => return Err(Trap::Memory(e)),
        };
        proof {
            memory::lemma_le_value_bound(mem.spec_data().subrange(ea as int, ea + kind.spec_width()));
        }
        let v = match kind {
            LoadKind::I32 => Value::I32(bits as u32 as i32),
            LoadKind::I64 => Value::I64(bits as i64),
            LoadKind::F32 => Value::F32(bits as u32),
            LoadKind::F64 => Value::F64(bits),
            LoadKind::I32From8S => Value::I32(bits as u8 as i8 as i32),
            LoadKind::I32From8U => Value::I32(bits as u8 as i32),
            LoadKind::I32From16S => Value::I32(bits as u16 as i16 as i32),
            LoadKind::I32From16U => Value::I32(bits as u16 as i32),
            LoadKind::I64From8S => Value::I64(bits as u8 as i8 as i64),
            LoadKind::I64From8U => Value::I64(bits as u8 as i64),
            LoadKind::I64From16S => Value::I64(bits as u16 as i16 as i64),
            LoadKind::I64From16U => Value::I64(bits as u16 as i64),
            LoadKind::I64From32S => Value::I64(bits as u32 as i32 as i64),
            LoadKind::I64From32U => Value::I64(bits as u32 as i64),
        };
        self.stack.push_value(v);
        Ok(())
    }

    /// Stores a value into memory.
    fn exec_store(&mut self, kind: StoreKind, offset: u32, store: &mut Store) -> (r: Result<(), Trap>)
        requires
            old(store).wf(),
        ensures
            final(self).pc == old(self).pc,
            final(self).pending == old(self).pending,
            final(store).wf(),
            spec_store_step(old(self).stack@, *old(store), kind, offset, final(self).stack@, *final(store), r),
    {
        let val = match self.pop_as(kind.operand()) {
            Ok(v) => v,
            Err(e) => return Err(e),
        };
        let base = match self.pop_as(ValueType::I32) {
            Ok(Value::I32(b)) => b,
            Ok(_) => return Err(Trap::Unreachable),
            Err(e) => return Err(e),
        };
        let maddr = match self.frame_memory() {
            Ok(a) => a,
            Err(e) => return Err(e),
        };
        let len = match store.memory(maddr) {
            Some(m) => m.data_len(),
            None => return Err(Trap::UndefinedMemory(maddr)),
        };
        let ea = match (base as usize).checked_add(offset as usize) {
            Some(a) => a,
            None => return Err(Trap::Memory(memory::Error::AccessOutOfBounds(None, len))),
        };
        let bits: u64 = match val {
            Value::I32(x) => x as u32 as u64,
            Value::I64(x) => x as u64,
            Value::F32(x) => x as u64,
            Value::F64(x) => x,
        };
        let bytes = le_encode(bits, kind.width());
        proof { memory::lemma_le_roundtrip(bits as nat, kind.spec_width() as nat); }
        match store.memory_store(maddr, ea, bytes.as_slice()) {
            Ok(_) => Ok(()),
            Err(e) => Err(Trap::Memory(e)),
        }
    }

    /// Pushes the size of memory in pages.
    fn exec_current_memory(&mut self, store: &Store) -> (r: Result<(), Trap>)
        ensures
            final(self).pc == old(self).pc,
            final(self).pending == old(self).pending,
            spec_current_memory_step(old(self).stack@, *store, final(self).stack@, r),
    {
        let maddr = match self.frame_memory() {
            Ok(a) => a,
            Err(e) => return Err(e),
        };
        match store.memory(maddr) {
            Some(m) => {
                self.stack.push_value(Value::I32(m.page_count() as i32));
                Ok(())
            },
            None => Err(Trap::UndefinedMemory(maddr)),
        }
    }

    /// Grows memory; pushes the old size in pages, or -1 when it cannot grow.
    fn exec_grow_memory(&mut self, store: &mut Store) -> (r: Result<(), Trap>)
        requires
            old(store).wf(),
        ensures
            final(self).pc == old(self).pc,
            final(self).pending == old(self).pending,
            final(store).wf(),
            spec_grow_memory_step(old(self).stack@, *old(store), final(self).stack@, *final(store), r),
    {
        let n = match self.pop_as(ValueType::I32) {
            Ok(Value::I32(n)) => n,
            Ok(_) => return Err(Trap::Unreachable),
            Err(e) => return Err(e),
        };
        let maddr = match self.frame_memory() {
            Ok(a) => a,
            Err(e) => return Err(e),
        };
        let size = match store.memory(maddr) {
            Some(m) => m.page_count(),
            None => return Err(Trap::UndefinedMemory(maddr)),
        };
        let g = store.memory_grow(maddr, n as usize);
        match g {
            Ok(_) => self.stack.push_value(Value::I32(size as i32)),
            Err(_) => self.stack.push_value(Value::I32(-1)),
        }
        Ok(())
    }

    pub open spec fn view(&self) -> ExecView {
        ExecView { pc: self.pc, stack: self.stack@, pending: self.spec_pending() }
    }

    /// Calls the function at `addr`: enters a frame for a defined function,
    /// or asks the embedder to run a host function.
    fn invoke(&mut self, addr: FuncAddr, store: &Store) -> (r: Result<Signal, Trap>)
        requires
            store.wf(),
        ensures
            spec_invoke(old(self).view(), *store, addr, final(self).view(), r),
    {
        let (n, result_types) = match store.func(addr) {
            Some(f) => (f.ty().params.len(), copy_types(&f.ty().returns)),
            None => return Err(Trap::UndefinedFunc(addr)),
        };
        let popped = match self.pop_n_values(n) {
            Ok(v) => v,
            Err(e) => return Err(e),
        };
        let ghost s = old(self).stack@;
        assert(values_entries(popped@) == s.subrange(s.len() - n, s.len() as int).reverse());
        let mut args: Vec<Value> = Vec::new();
        let mut rest = popped;
        let ghost all = rest@;
        while rest.len() > 0
            invariant
                args@.len() + rest@.len() == all.len(),
                rest@ == all.subrange(0, rest@.len() as int),
                forall|k: int| 0 <= k < args@.len() ==> #[trigger] args@[k] == all[all.len() - 1 - k],
            decreases rest@.len(),
        {
            let v = rest.pop().unwrap();
            args.push(v);
        }
        proof {
            assert(values_entries(args@) =~= s.subrange(s.len() - n, s.len() as int)) by {
                assert(values_entries(all) == s.subrange(s.len() - n, s.len() as int).reverse());
                assert forall|k: int| 0 <= k < args@.len() implies values_entries(args@)[k] == s.subrange(s.len() - n, s.len() as int)[k] by {
                    assert(values_entries(all)[all.len() - 1 - k] == s.subrange(s.len() - n, s.len() as int).reverse()[all.len() - 1 - k]);
                }
            }
        }
        let arity = result_types.len();
        match resolve_func_addr(addr, store) {
            Err(e) => Err(e),
            Ok(crate::vm::utils::Either::Left(a2)) => {
                let d = match store.func(a2) {
                    Some(FunctionInstance::Defined(d)) => d,
                    _ => return Err(Trap::UndefinedFunc(a2)),
                };
                if d.locals().len() > usize::MAX - args.len() {
                    return Err(Trap::UndefinedFunc(a2));
                }
                let ghost args_view = args@;
                let frame = CallFrame::new_from_func(a2, d, args, Some(self.pc));
                self.stack.set_frame(frame);
                self.stack.push_label(Label::Return(arity));
                self.pc = ProgramCounter::new(a2, InstIndex::zero());
                proof {
                    assert(values_entries(args_view) == s.subrange(s.len() - n, s.len() as int));
                }
                Ok(Signal::Next)
            },
            Ok(crate::vm::utils::Either::Right((module_name, field_name))) => {
                self.pending = Some(result_types);
                Ok(Signal::Host(HostRequest::Call { module_name, field_name, args }))
            },
        }
    }

    /// Calls function `index` of the innermost frame's module.
    fn exec_call(&mut self, index: u32, store: &Store) -> (r: Result<Signal, Trap>)
        requires
            store.wf(),
        ensures
            match spec_frame_module(old(self).stack@) {
                Some(mi) => spec_invoke(old(self).view(), *store, FuncAddr(mi, index as usize), final(self).view(), r),
                None => r is Err,
            },
    {
        proof { stack::lemma_last_frame_pos_bounds(self.stack@); }
        let mi = match self.stack.current_frame() {
            Ok(f) => f.module_index,
            Err(e) => return Err(Trap::Stack(e)),
        };
        self.invoke(FuncAddr(mi, index as usize), store)
    }

    /// Calls through the first table of the innermost frame's module, checking
    /// the signature against type `type_index`.
    fn exec_call_indirect(&mut self, type_index: u32, store: &Store) -> (r: Result<Signal, Trap>)
        requires
            store.wf(),
        ensures
            spec_call_indirect(old(self).view(), *store, type_index, final(self).view(), r),
    {
        proof { stack::lemma_last_frame_pos_bounds(self.stack@); }
        let mi = match self.stack.current_frame() {
            Ok(f) => f.module_index,
            Err(e) => return Err(Trap::Stack(e)),
        };
        let ty = match store.module(mi) {
            Some(ModuleInstance::Defined(dm)) => match dm.get_type(type_index as usize) {
                Some(t) => t,
                None => return Err(Trap::UndefinedType(type_index)),
            },
            _ => return Err(Trap::UndefinedType(type_index)),
        };
        let idx = match self.pop_as(ValueType::I32) {
            Ok(Value::I32(i)) => i,
            Ok(_) => return Err(Trap::Unreachable),
            Err(e) => return Err(e),
        };
        let taddr = TableAddr(mi, 0);
        let fa = match store.table(taddr) {
            Some(t) => match t.get_at(idx as usize) {
                Ok(a) => a,
                Err(e) => return Err(Trap::Table(e)),
            },
            None => return Err(Trap::UndefinedTable(taddr)),
        };
        let same = match store.func(fa) {
            Some(f) => f.ty().same(ty),
            None => return Err(Trap::UndefinedFunc(fa)),
        };
        if same {
            self.invoke(fa, store)
        } else {
            let actual = match store.func(fa) {
                Some(f) => copy_func_type(f.ty()),
                None => return Err(Trap::UndefinedFunc(fa)),
            };
            Err(Trap::IndirectCallTypeMismatch(copy_func_type(ty), actual))
        }
    }

    /// Hands a floating-point instruction and its operands to the embedder.
    fn exec_float(&mut self, opcode: u8) -> (r: Result<Signal, Trap>)
        ensures
            final(self).pc == old(self).pc,
            spec_float(old(self).view(), opcode, final(self).view(), r),
    {
        let (tys, res) = match float_signature(opcode) {
            Some(sig) => sig,
            None => return Err(Trap::UnknownFloatOpcode(opcode)),
        };
        let mut args: Vec<Value> = Vec::new();
        if tys.len() == 2 {
            let b = match self.pop_as(tys[1]) {
                Ok(v) => v,
                Err(e) => return Err(e),
            };
            let a = match self.pop_as(tys[0]) {
                Ok(v) => v,
                Err(e) => return Err(e),
            };
            args.push(a);
            args.push(b);
            assert(args@ =~= seq![a, b]);
        } else if tys.len() == 1 {
            let a = match self.pop_as(tys[0]) {
                Ok(v) => v,
                Err(e) => return Err(e),
            };
            args.push(a);
            assert(args@ =~= seq![a]);
        } else {
            return Err(Trap::UnknownFloatOpcode(opcode));
        }
        let mut results: Vec<ValueType> = Vec::new();
        results.push(res);
        assert(results@ =~= seq![res]);
        self.pending = Some(results);
        Ok(Signal::Host(HostRequest::Float { opcode, args }))
    }

    /// Hands back the results of the work last asked of the embedder.
    pub fn resume(&mut self, results: Vec<Value>) -> (r: Result<(), Trap>)
        ensures
            final(self).pc == old(self).pc,
            match old(self).spec_pending() {
                None => r is Err && final(self).view() == old(self).view(),
                Some(tys) => if results@.map_values(|v: Value| v.spec_type()) == tys {
                    r is Ok && final(self).stack@ == old(self).stack@ + values_entries(results@)
                        && final(self).spec_pending() is None
                } else {
                    r is Err && final(self).view() == old(self).view()
                },
            },
    {
        let ok = match &self.pending {
            None => return Err(Trap::NoPendingRequest),
            Some(tys) => {
                if tys.len() != results.len() {
                    false
                } else {
                    let mut i: usize = 0;
                    let mut ok = true;
                    while i < results.len()
                        invariant
                            i <= results@.len(),
                            tys@.len() == results@.len(),
                            ok == forall|k: int| 0 <= k < i ==> results@[k].spec_type() == tys@[k],
                        decreases results@.len() - i,
                    {
                        if results[i].value_type() != tys[i] {
                            ok = false;
                        }
                        i = i + 1;
                    }
                    proof {
                        if ok {
                            assert(results@.map_values(|v: Value| v.spec_type()) =~= tys@);
                        } else {
                            let k = choose|k: int| 0 <= k < i && !(results@[k].spec_type() == tys@[k]);
                            assert(results@.map_values(|v: Value| v.spec_type())[k] != tys@[k]);
                        }
                    }
                    ok
                }
            },
        };
        if !ok {
            proof {
                match old(self).spec_pending() {
                    Some(tys) => {
                        if results@.len() != tys.len() {
                            assert(results@.map_values(|v: Value| v.spec_type()).len() != tys.len());
                        }
                    },
                    None => {},
                }
            }
            return Err(Trap::HostResultMismatch);
        }
        self.push_all(&results);
        self.pending = None;
        Ok(())
    }

    /// Executes an instruction that only works on the operand stack.
    fn exec_numeric(&mut self, kind: &InstKind) -> (r: Result<(), Trap>)
        requires
            is_numeric(*kind),
        ensures
            (final(self).stack@, r) == spec_numeric(*kind, old(self).stack@),
            final(self).pc == old(self).pc,
            final(self).pending == old(self).pending,
    {
        match kind {
            InstKind::Nop => Ok(()),
            InstKind::Drop => match self.pop_any() {
                Ok(_) => Ok(()),
                Err(e) => Err(e),
            },
            InstKind::Select => {
                let c = match self.pop_as(ValueType::I32) {
                    Ok(v) => v,
                    Err(e) => return Err(e),
                };
                let v2 = match self.pop_any() {
                    Ok(v) => v,
                    Err(e) => return Err(e),
                };
                let v1 = match self.pop_any() {
                    Ok(v) => v,
                    Err(e) => return Err(e),
                };
                if c != Value::I32(0) {
                    self.stack.push_value(v1);
                } else {
                    self.stack.push_value(v2);
                }
                Ok(())
            },
            InstKind::I32Const(x) => {
                self.stack.push_value(Value::I32(*x));
                Ok(())
            },
            InstKind::I64Const(x) => {
                self.stack.push_value(Value::I64(*x));
                Ok(())
            },
            InstKind::F32Const(x) => {
                self.stack.push_value(Value::F32(*x));
                Ok(())
            },
            InstKind::F64Const(x) => {
                self.stack.push_value(Value::F64(*x));
                Ok(())
            },
            InstKind::I32Rel(_) | InstKind::I64Rel(_) | InstKind::I32Bin(_) | InstKind::I64Bin(_) => {
                self.exec_binary(kind)
            },
            _ => self.exec_unary(kind),
        }
    }

    fn exec_binary(&mut self, kind: &InstKind) -> (r: Result<(), Trap>)
        requires
            kind matches InstKind::I32Rel(_) || kind matches InstKind::I64Rel(_)
                || kind matches InstKind::I32Bin(_) || kind matches InstKind::I64Bin(_),
        ensures
            (final(self).stack@, r) == spec_numeric(*kind, old(self).stack@),
            final(self).pc == old(self).pc,
            final(self).pending == old(self).pending,
    {
        let ty = match kind {
            InstKind::I32Rel(_) | InstKind::I32Bin(_) => ValueType::I32,
            _ => ValueType::I64,
        };
        let b = match self.pop_as(ty) {
            Ok(v) => v,
            Err(e) => return Err(e),
        };
        let a = match self.pop_as(ty) {
            Ok(v) => v,
            Err(e) => return Err(e),
        };
        let res: Result<Value, Trap> = match (kind, a, b) {
            (InstKind::I32Rel(op), Value::I32(x), Value::I32(y)) => Ok(Value::I32(if i32_relop(*op, x, y) { 1 } else { 0 })),
            (InstKind::I64Rel(op), Value::I64(x), Value::I64(y)) => Ok(Value::I32(if i64_relop(*op, x, y) { 1 } else { 0 })),
            (InstKind::I32Bin(op), Value::I32(x), Value::I32(y)) => match i32_binop(*op, x, y) {
                Ok(z) => Ok(Value::I32(z)),
                Err(e) => Err(Trap::Value(e)),
            },
            (InstKind::I64Bin(op), Value::I64(x), Value::I64(y)) => match i64_binop(*op, x, y) {
                Ok(z) => Ok(Value::I64(z)),
                Err(e) => Err(Trap::Value(e)),
            },
            _ => Err(Trap::Unreachable),
        };
        match res {
            Ok(v) => {
                self.stack.push_value(v);
                Ok(())
            },
            Err(e) => Err(e),
        }
    }

    fn exec_unary(&mut self, kind: &InstKind) -> (r: Result<(), Trap>)
        requires
            is_convert(*kind),
        ensures
            (final(self).stack@, r) == spec_numeric(*kind, old(self).stack@),
            final(self).pc == old(self).pc,
            final(self).pending == old(self).pending,
    {
        let ty = match kind {
            InstKind::I32Eqz | InstKind::I32Un(_) | InstKind::I64ExtendSI32 | InstKind::I64ExtendUI32
            | InstKind::F32ReinterpretI32 => ValueType::I32,
            InstKind::I32ReinterpretF32 => ValueType::F32,
            InstKind::I64ReinterpretF64 => ValueType::F64,
            _ => ValueType::I64,
        };
        let a = match self.pop_as(ty) {
            Ok(v) => v,
            Err(e) => return Err(e),
        };
        let res: Result<Value, Trap> = match (kind, a) {
            (InstKind::I32Eqz, Value::I32(x)) => Ok(Value::I32(if x == 0 { 1 } else { 0 })),
            (InstKind::I64Eqz, Value::I64(x)) => Ok(Value::I32(if x == 0 { 1 } else { 0 })),
            (InstKind::I32Un(op), Value::I32(x)) => Ok(Value::I32(i32_unop(*op, x))),
            (InstKind::I64Un(op), Value::I64(x)) => Ok(Value::I64(i64_unop(*op, x))),
            (InstKind::I32WrapI64, Value::I64(x)) => Ok(Value::I32(x as i32)),
            (InstKind::I64ExtendSI32, Value::I32(x)) => Ok(Value::I64(x as i64)),
            (InstKind::I64ExtendUI32, Value::I32(x)) => Ok(Value::I64((x as u32) as i64)),
            (InstKind::I32ReinterpretF32, Value::F32(x)) => Ok(Value::I32(x as i32)),
            (InstKind::I64ReinterpretF64, Value::F64(x)) => Ok(Value::I64(x as i64)),
            (InstKind::F32ReinterpretI32, Value::I32(x)) => Ok(Value::F32(x as u32)),
            (InstKind::F64ReinterpretI64, Value::I64(x)) => Ok(Value::F64(x as u64)),
            _ => Err(Trap::Unreachable),
        };
        match res {
            Ok(v) => {
                self.stack.push_value(v);
                Ok(())
            },
            Err(e) => Err(e),
        }
    }

    /// Leaves the function at its closing `End`.
    fn end_func(&mut self, store: &Store) -> (r: Result<Signal, Trap>)
        requires
            last_frame_pos(old(self).stack@) >= 0,
        ensures
            final(self).pending == old(self).pending,
            match spec_end_func(old(self).stack@, *store) {
                Some((u, ret)) => final(self).stack@ == u && match ret {
                    Some(p) => final(self).pc == p && r matches Ok(Signal::Next),
                    None => final(self).pc == old(self).pc && r matches Ok(Signal::End),
                },
                None => r is Err,
            },
    {
        proof { stack::lemma_last_frame_pos_bounds(self.stack@); }
        let (func_addr, ret_pc) = match self.stack.current_frame() {
            Ok(f) => (f.func_addr, f.ret_pc),
            Err(e) => return Err(Trap::Stack(e)),
        };
        let arity = match store.func(func_addr) {
            Some(f) => f.ty().returns.len(),
            None => return Err(Trap::UndefinedFunc(func_addr)),
        };
        let results = match self.pop_n_values(arity) {
            Ok(v) => v,
            Err(e) => return Err(e),
        };
        proof { lemma_trailing_values(old(self).stack@, arity as nat); }
        match self.stack.pop_label() {
            Ok(_) => {},
            Err(e) => return Err(Trap::Stack(e)),
        }
        match self.stack.pop_frame() {
            Ok(_) => {},
            Err(e) => return Err(Trap::Stack(e)),
        }
        proof {
            let o = old(self).stack@;
            let t = o.subrange(0, o.len() - arity);
            assert(self.stack@ =~= t.subrange(0, t.len() - 2));
        }
        self.push_all(&results);
        match ret_pc {
            Some(p) => {
                self.pc = p;
                Ok(Signal::Next)
            },
            None => Ok(Signal::End),
        }
    }

    /// Leaves a block at its `End`: its values stay, its label goes.
    fn end_block(&mut self) -> (r: Result<Signal, Trap>)
        ensures
            final(self).pending == old(self).pending,
            final(self).pc == old(self).pc,
            match spec_end_block(old(self).stack@) {
                Some(u) => r matches Ok(Signal::Next) && final(self).stack@ == u,
                None => r is Err,
            },
    {
        let vals = self.stack.pop_values_to_label();
        match self.stack.pop_label() {
            Ok(_) => {},
            Err(e) => return Err(Trap::Stack(e)),
        }
        self.push_all(&vals);
        proof {
            let o = old(self).stack@;
            let k = trailing_values(o);
            stack::lemma_trailing_bounds_pub(o);
            assert(values_entries(vals@) =~= o.subrange(o.len() - k, o.len() as int).reverse()) by {
                assert forall|i: int| 0 <= i < vals@.len() implies values_entries(vals@)[i]
                    == o.subrange(o.len() - k, o.len() as int).reverse()[i] by {
                    assert(o[o.len() - 1 - i] == Entry::Value(vals@[i]));
                }
            }
        }
        Ok(Signal::Next)
    }

    /// Executes a control instruction; the pc has already moved past it.
    fn execute_control(&mut self, kind: &InstKind, store: &Store) -> (r: Result<Signal, Trap>)
        requires
            is_control(*kind),
            store.wf(),
            old(self).pc.inst_index.0 > 0,
        ensures
            spec_control(ExecView { pc: prev_pc(old(self).pc), ..old(self).view() }, *store, *kind, final(self).view(), r),
    {
        let ghost pre = ExecView { pc: prev_pc(old(self).pc), ..old(self).view() };
        assert(next_pc(pre.pc) == old(self).pc);
        match kind {
            InstKind::Unreachable => Err(Trap::Unreachable),
            InstKind::Block(bt) => {
                self.stack.push_label(Label::Block(bt.arity()));
                Ok(Signal::Next)
            },
            InstKind::Loop(_) => {
                let start = InstIndex(self.pc.inst_index().0 - 1);
                self.stack.push_label(Label::Loop(start));
                Ok(Signal::Next)
            },
            InstKind::If(bt) => {
                let c = match self.pop_as(ValueType::I32) {
                    Ok(Value::I32(c)) => c,
                    Ok(_) => return Err(Trap::Unreachable),
                    Err(e) => return Err(e),
                };
                self.stack.push_label(Label::If(bt.arity()));
                if c == 0 {
                    let insts = match store.func(self.pc.func_addr()) {
                        Some(FunctionInstance::Defined(d)) => d.instructions(),
                        _ => return Err(Trap::UndefinedFunc(self.pc.func_addr())),
                    };
                    proof { assert(func_wf_of(*store, self.pc.func_addr)); }
                    match scan_else(insts, self.pc.inst_index().0) {
                        Some(p) => self.pc.loop_jump(InstIndex(p)),
                        None => return Err(Trap::ControlOutOfCode),
                    }
                }
                Ok(Signal::Next)
            },
            InstKind::Else => self.branch(0, store),
            InstKind::End => {
                proof { stack::lemma_last_frame_pos_bounds(self.stack@); }
                let top = match self.stack.is_func_top_level() {
                    Ok(b) => b,
                    Err(e) => return Err(Trap::Stack(e)),
                };
                if top {
                    self.end_func(store)
                } else {
                    self.end_block()
                }
            },
            InstKind::Br(d) => self.branch(*d, store),
            InstKind::BrIf(d) => {
                let v = match self.pop_any() {
                    Ok(v) => v,
                    Err(e) => return Err(e),
                };
                if v != Value::I32(0) {
                    self.branch(*d, store)
                } else {
                    Ok(Signal::Next)
                }
            },
            InstKind::BrTable(table, default) => {
                let x = match self.pop_as(ValueType::I32) {
                    Ok(Value::I32(x)) => x,
                    Ok(_) => return Err(Trap::Unreachable),
                    Err(e) => return Err(e),
                };
                let i = x as usize;
                let d = if i < table.len() { table[i] } else { *default };
                self.branch(d, store)
            },
            InstKind::Return => self.do_return(store),
            InstKind::Call(i) => self.exec_call(*i, store),
            InstKind::CallIndirect(t) => self.exec_call_indirect(*t, store),
            _ => Err(Trap::Unreachable),
        }
    }

    /// Executes an instruction on locals, globals or memory of module `m`;
    /// the pc has already moved past it.
    fn execute_access(&mut self, kind: &InstKind, m: ModuleIndex, store: &mut Store) -> (r: Result<Signal, Trap>)
        requires
            is_access(*kind),
            old(store).wf(),
            old(self).pc.inst_index.0 > 0,
        ensures
            final(store).wf(),
            spec_access(ExecView { pc: prev_pc(old(self).pc), ..old(self).view() }, *old(store), *kind, m,
                final(self).view(), *final(store), r),
    {
        let r0 = match kind {
            InstKind::GetLocal(i) => self.exec_get_local(*i),
            InstKind::SetLocal(i) => self.exec_set_local(*i),
            InstKind::TeeLocal(i) => self.exec_tee_local(*i),
            InstKind::GetGlobal(i) => self.exec_get_global(*i, m, store),
            InstKind::SetGlobal(i) => self.exec_set_global(*i, m, store),
            InstKind::Load(k, off) => self.exec_load(*k, *off, store),
            InstKind::Store(k, off) => self.exec_store(*k, *off, store),
            InstKind::CurrentMemory => self.exec_current_memory(store),
            InstKind::GrowMemory => self.exec_grow_memory(store),
            _ => Err(Trap::Unreachable),
        };
        match r0 {
            Ok(()) => Ok(Signal::Next),
            Err(e) => Err(e),
        }
    }

    /// Executes one instruction of a function of module `module_index`, whose
    /// pc is the instruction's; a run ends once no call frame is left.
    pub fn execute_inst(&mut self, inst: &Instruction, module_index: ModuleIndex, store: &mut Store) -> (r: Result<Signal, Trap>)
        requires
            old(store).wf(),
            old(self).pc.inst_index.0 < u32::MAX,
        ensures
            final(store).wf(),
            spec_step(old(self).view(), *old(store), inst.kind, module_index, final(self).view(), *final(store), r),
    {
        self.pc.inc_inst_index();
        let ghost pre = old(self).view();
        proof {
            assert(prev_pc(self.pc) == old(self).pc);
            assert(ExecView { pc: prev_pc(self.pc), ..self.view() } == pre);
        }
        let kind = &inst.kind;
        let result = if is_control_kind(kind) {
            self.execute_control(kind, store)
        } else if is_access_kind(kind) {
            self.execute_access(kind, module_index, store)
        } else {
            match kind {
                InstKind::FloatNumeric(op) => self.exec_float(*op),
                _ => {
                    proof { assert(is_numeric(*kind)); }
                    match self.exec_numeric(kind) {
                        Ok(()) => Ok(Signal::Next),
                        Err(e) => Err(e),
                    }
                },
            }
        };
        proof {
            assert(spec_inst(pre, *old(store), inst.kind, module_index, self.view(), *store, result));
            stack::lemma_last_frame_pos_bounds(self.stack@);
        }
        if self.stack.is_over_top_level() {
            Ok(Signal::End)
        } else {
            result
        }
    }

    /// Executes the instruction at the pc.
    pub fn execute_step(&mut self, store: &mut Store) -> (r: Result<Signal, Trap>)
        requires
            old(store).wf(),
        ensures
            final(store).wf(),
            spec_exec_step(old(self).view(), *old(store), final(self).view(), *final(store), r),
    {
        let addr = self.pc.func_addr();
        let (kind, m) = match store.func(addr) {
            Some(FunctionInstance::Defined(d)) => {
                let insts = d.instructions();
                let i = self.pc.inst_index().0 as usize;
                if i >= insts.len() {
                    return Err(Trap::ControlOutOfCode);
                }
                proof { assert(func_wf_of(*store, addr)); }
                (copy_kind(&insts[i].kind), d.module_index())
            },
            Some(FunctionInstance::Host(_)) => return Err(Trap::UndefinedFunc(addr)),
            None => return Err(Trap::UndefinedFunc(addr)),
        };
        let inst = Instruction { kind, offset: 0 };
        let r = self.execute_inst(&inst, m, store);
        proof {
            let fetched = spec_fetch(*old(store), old(self).pc)->0;
            assert(same_kind(inst.kind, fetched.0.kind));
            assert(fetched.1 == m);
        }
        r
    }
}


/// How a call of the function at `func_addr` with `arguments` starts.
pub open spec fn spec_invocation(store: Store, func_addr: FuncAddr, arguments: Seq<Value>, r: Result<Invocation, WasmError>) -> bool {
    match spec_resolve(store, func_addr, store.spec_modules().len() as nat) {
        None => r matches Err(WasmError::ExecutionError(_)),
        Some(Resolved::Host(mn, f, _)) => r matches Ok(Invocation::Host(HostRequest::Call { module_name, field_name, args }))
            && module_name@ == mn && field_name@ == f && args@ == arguments,
        Some(Resolved::Defined(a)) => match store.spec_func(a) {
            Some(FunctionInstance::Defined(d)) => if arguments.len() + d.spec_locals().len() > usize::MAX {
                r matches Err(WasmError::ExecutionError(_))
            } else {
                r matches Ok(Invocation::Running(e, tys)) && tys@ == d.spec_ty().returns@
                    && e.view() == spec_entry(a, d, arguments)
            },
            _ => r matches Err(WasmError::ExecutionError(_)),
        },
    }
}

/// Starts a call of the function at `func_addr` with `arguments`.
pub fn invoke_func(func_addr: FuncAddr, arguments: Vec<Value>, store: &Store) -> (r: Result<Invocation, WasmError>)
    requires
        store.wf(),
    ensures
        spec_invocation(*store, func_addr, arguments@, r),
{
    match resolve_func_addr(func_addr, store) {
        Err(e) => Err(WasmError::ExecutionError(e)),
        Ok(crate::vm::utils::Either::Right((module_name, field_name))) => {
            Ok(Invocation::Host(HostRequest::Call { module_name, field_name, args: arguments }))
        },
        Ok(crate::vm::utils::Either::Left(a)) => {
            let d = match store.func(a) {
                Some(FunctionInstance::Defined(d)) => d,
                _ => return Err(WasmError::ExecutionError(Trap::UndefinedFunc(a))),
            };
            if d.locals().len() > usize::MAX - arguments.len() {
                return Err(WasmError::ExecutionError(Trap::UndefinedFunc(a)));
            }
            let ret_types = copy_types(&d.ty().returns);
            let frame = CallFrame::new_from_func(a, d, arguments, None);
            let pc = ProgramCounter::new(a, InstIndex::zero());
            let e = Executor::new(frame, ret_types.len(), pc);
            proof {
                assert(e.view().stack =~= spec_entry(a, *d, arguments@).stack);
            }
            Ok(Invocation::Running(e, ret_types))
        },
    }
}

/// Runs at most `fuel` steps: until the outermost function returns, the
/// embedder is needed, or a step traps.
pub fn run_steps(exec: &mut Executor, ret_types: &Vec<ValueType>, store: &mut Store, fuel: u64) -> (r: Result<RunOutcome, WasmError>)
    requires
        old(store).wf(),
    ensures
        final(store).wf(),
        spec_run(old(exec).view(), *old(store), fuel as nat, ret_types@, final(exec).view(), *final(store), r),
{
    let mut k: u64 = fuel;
    while k > 0
        invariant
            store.wf(),
            k <= fuel,
            forall|post: ExecView, st2: Store, out: Result<RunOutcome, WasmError>|
                #[trigger] spec_run(exec.view(), *store, k as nat, ret_types@, post, st2, out)
                ==> spec_run(old(exec).view(), *old(store), fuel as nat, ret_types@, post, st2, out),
        decreases k,
    {
        let ghost v0 = exec.view();
        let ghost s0 = *store;
        let sig = exec.execute_step(store);
        match sig {
            Ok(Signal::Next) => {
                let k1 = k - 1;
                proof {
                    assert forall|post: ExecView, st2: Store, out: Result<RunOutcome, WasmError>|
                        #[trigger] spec_run(exec.view(), *store, k1 as nat, ret_types@, post, st2, out)
                        implies spec_run(old(exec).view(), *old(store), fuel as nat, ret_types@, post, st2, out) by {
                        assert(spec_exec_step(v0, s0, exec.view(), *store, sig));
                        assert(spec_run(v0, s0, k as nat, ret_types@, post, st2, out));
                    }
                }
                k = k1;
            },
            Ok(Signal::End) => {
                let ghost mid = exec.view();
                let r = match exec.pop_result(copy_types(ret_types)) {
                    Ok(v) => {
                        proof { assert(v@ =~= top_values(mid.stack, ret_types@.len())); }
                        Ok(RunOutcome::Finished(v))
                    },
                    Err(e) => Err(WasmError::ReturnValueError(e)),
                };
                proof {
                    assert(spec_exec_step(v0, s0, mid, *store, sig));
                    assert(spec_run(v0, s0, k as nat, ret_types@, exec.view(), *store, r));
                }
                return r;
            },
            Ok(Signal::Host(req)) => {
                let r = Ok(RunOutcome::Host(req));
                proof {
                    assert(spec_exec_step(v0, s0, exec.view(), *store, sig));
                    assert(spec_run(v0, s0, k as nat, ret_types@, exec.view(), *store, r));
                }
                return r;
            },
            Err(e) => {
                let r = Err(WasmError::ExecutionError(e));
                proof {
                    assert(spec_exec_step(v0, s0, exec.view(), *store, sig));
                    assert(spec_run(v0, s0, k as nat, ret_types@, exec.view(), *store, r));
                }
                return r;
            },
        }
    }
    proof {
        assert(spec_run(exec.view(), *store, 0, ret_types@, exec.view(), *store, Ok::<RunOutcome, WasmError>(RunOutcome::Paused)));
    }
    Ok(RunOutcome::Paused)
}


/// The value of a constant initializer: a constant, or the value of a
/// global of module `module_index`.
pub open spec fn spec_const_expr(kind: InstKind, store: Store, module_index: ModuleIndex) -> Value {
    match kind {
        InstKind::I32Const(v) => Value::I32(v),
        InstKind::I64Const(v) => Value::I64(v),
        InstKind::F32Const(v) => Value::F32(v),
        InstKind::F64Const(v) => Value::F64(v),
        InstKind::GetGlobal(i) => store.spec_global(GlobalAddr(module_index, i as usize))->0.spec_value(),
        _ => Value::I32(0),
    }
}

/// Whether an instruction can start a constant initializer.
pub open spec fn is_const_expr(kind: InstKind, store: Store, module_index: ModuleIndex) -> bool {
    match kind {
        InstKind::I32Const(_) | InstKind::I64Const(_) | InstKind::F32Const(_) | InstKind::F64Const(_) => true,
        InstKind::GetGlobal(i) => store.spec_global(GlobalAddr(module_index, i as usize)) is Some,
        _ => false,
    }
}

/// Evaluates the first instruction of a constant initializer.
pub fn eval_const_expr(init_expr: &Vec<Instruction>, store: &Store, module_index: ModuleIndex) -> (r: Value)
    requires
        init_expr@.len() > 0,
        is_const_expr(init_expr@[0].kind, *store, module_index),
    ensures
        r == spec_const_expr(init_expr@[0].kind, *store, module_index),
{
    match &init_expr[0].kind {
        InstKind::I32Const(v) => Value::I32(*v),
        InstKind::I64Const(v) => Value::I64(*v),
        InstKind::F32Const(v) => Value::F32(*v),
        InstKind::F64Const(v) => Value::F64(*v),
        InstKind::GetGlobal(i) => match store.global(GlobalAddr(module_index, *i as usize)) {
            Some(g) => g.value(),
            None => Value::I32(0),
        },
        _ => Value::I32(0),
    }
}

impl Executor {
    /// The body of the function of the innermost frame.
    pub fn current_func_insts<'a>(&self, store: &'a Store) -> (r: Result<&'a [Instruction], Trap>)
        ensures
            match spec_frame_func(self.stack@) {
                Some(a) => match spec_body(*store, a) {
                    Some(b) => r matches Ok(insts) && insts@ == b,
                    None => r is Err,
                },
                None => r is Err,
            },
    {
        proof { stack::lemma_last_frame_pos_bounds(self.stack@); }
        let addr = match self.stack.current_frame() {
            Ok(f) => f.func_addr,
            Err(e) => return Err(Trap::Stack(e)),
        };
        match store.func(addr) {
            Some(FunctionInstance::Defined(d)) => Ok(d.instructions()),
            _ => Err(Trap::UndefinedFunc(addr)),
        }
    }
}

/// The function of the innermost frame.
pub open spec fn spec_frame_func(s: Seq<Entry>) -> Option<FuncAddr> {
    let p = last_frame_pos(s);
    if p < 0 {
        None
    } else {
        match s[p] {
            Entry::Activation(f) => Some(f.func_addr),
            _ => None,
        }
    }
}


/// Popping a value that was just pushed gives it back and the stack as it
/// was before.
pub proof fn lemma_pop_after_push(s: Seq<Entry>, v: Value)
    ensures
        spec_pop_value(s.push(Entry::Value(v))) == (s, Ok::<Value, Trap>(v)),
        spec_pop_as(s.push(Entry::Value(v)), v.spec_type()) == (s, Ok::<Value, Trap>(v)),
{
    assert(s.push(Entry::Value(v)).drop_last() =~= s);
}

/// A 32-bit store followed by a 32-bit load at the same address reads the
/// stored value back.
pub proof fn lemma_i32_load_after_store(before: memory::MemoryInstance, after: memory::MemoryInstance, ea: usize, x: i32)
    requires
        memory::store_effect(before, after, ea, le_bytes(spec_value_bits(Value::I32(x)) as nat, 4), Ok(())),
    ensures
        ea + 4 <= after.spec_data().len(),
        spec_load_value(LoadKind::I32, le_value(after.spec_data().subrange(ea as int, ea + 4)) as u64) == Value::I32(x),
{
    memory::lemma_load_after_store(before, after, ea, spec_value_bits(Value::I32(x)) as nat, 4);
    reveal_with_fuel(memory::pow256, 5);
    let b = x as u32 as u64;
    assert(b < 0x1_0000_0000);
    assert(b as nat % 0x1_0000_0000 == b as nat);
    assert(((b as u32) as i32) == x) by (bit_vector)
        requires b == x as u32 as u64;
}

/// A 64-bit store followed by a 64-bit load at the same address reads the
/// stored value back.
pub proof fn lemma_i64_load_after_store(before: memory::MemoryInstance, after: memory::MemoryInstance, ea: usize, x: i64)
    requires
        memory::store_effect(before, after, ea, le_bytes(spec_value_bits(Value::I64(x)) as nat, 8), Ok(())),
    ensures
        ea + 8 <= after.spec_data().len(),
        spec_load_value(LoadKind::I64, le_value(after.spec_data().subrange(ea as int, ea + 8)) as u64) == Value::I64(x),
{
    memory::lemma_load_after_store(before, after, ea, spec_value_bits(Value::I64(x)) as nat, 8);
    reveal_with_fuel(memory::pow256, 9);
    let b = x as u64;
    assert(b as nat % 0x1_0000_0000_0000_0000 == b as nat);
    assert(((b as i64)) == x) by (bit_vector)
        requires b == x as u64;
}

/// A host module exposes exactly its entries: an imported function whose
/// module name finds a host module resolves to that module's function of the
/// imported field, and to nothing when the module has no function there.
pub proof fn lemma_host_import_resolves(st: Store, addr: FuncAddr, fuel: nat, index: ModuleIndex, module: crate::vm::module::HostModuleInstance)
    requires
        st.spec_func(addr) matches Some(FunctionInstance::Host(h)) && st.spec_module_by_name(h.spec_module_name()) == Some(index),
        st.spec_module(index) == Some(ModuleInstance::Host(module)),
    ensures
        ({
            let h = st.spec_func(addr)->0->Host_0;
            spec_resolve(st, addr, fuel) == match module.spec_get(h.spec_field_name()) {
                Some(crate::vm::module::HostExport::Func(t)) => Some(Resolved::Host(h.spec_module_name(), h.spec_field_name(), t)),
                _ => None,
            }
        }),
{
}

/// What a load makes of the unsigned little-endian number `x` that its
/// bytes hold: a float's bits and the unsigned loads give `x` itself; the
/// signed loads give the two's-complement value of the bytes read, so a top
/// byte of `0x80` or more makes the result negative (its sign is copied in).
pub proof fn lemma_load_extends(kind: LoadKind, x: u64)
    requires
        (x as nat) < memory::pow256(kind.spec_width() as nat),
    ensures
        match (kind, spec_load_value(kind, x)) {
            (LoadKind::I32, Value::I32(v)) => v as int == if x < 0x8000_0000 { x as int } else { x - 0x1_0000_0000 },
            (LoadKind::I64, Value::I64(v)) => v as int == if x < 0x8000_0000_0000_0000 { x as int } else { x - 0x1_0000_0000_0000_0000 },
            (LoadKind::F32, Value::F32(b)) => b as int == x,
            (LoadKind::F64, Value::F64(b)) => b == x,
            (LoadKind::I32From8S, Value::I32(v)) => v as int == if x < 0x80 { x as int } else { x - 0x100 },
            (LoadKind::I32From8U, Value::I32(v)) => v as int == x,
            (LoadKind::I32From16S, Value::I32(v)) => v as int == if x < 0x8000 { x as int } else { x - 0x1_0000 },
            (LoadKind::I32From16U, Value::I32(v)) => v as int == x,
            (LoadKind::I64From8S, Value::I64(v)) => v as int == if x < 0x80 { x as int } else { x - 0x100 },
            (LoadKind::I64From8U, Value::I64(v)) => v as int == x,
            (LoadKind::I64From16S, Value::I64(v)) => v as int == if x < 0x8000 { x as int } else { x - 0x1_0000 },
            (LoadKind::I64From16U, Value::I64(v)) => v as int == x,
            (LoadKind::I64From32S, Value::I64(v)) => v as int == if x < 0x8000_0000 { x as int } else { x - 0x1_0000_0000 },
            (LoadKind::I64From32U, Value::I64(v)) => v as int == x,
            _ => false,
        },
{
    reveal_with_fuel(memory::pow256, 9);
    match kind {
        LoadKind::I32 | LoadKind::F32 => {
            let y = x as u32;
            assert(y == x);
            if x >= 0x8000_0000 {
                assert((y as i32) as int == y - 0x1_0000_0000) by (bit_vector) requires y >= 0x8000_0000u32;
            }
        },
        LoadKind::I64 | LoadKind::F64 => {
            if x >= 0x8000_0000_0000_0000 {
                assert((x as i64) as int == x - 0x1_0000_0000_0000_0000) by (bit_vector) requires x >= 0x8000_0000_0000_0000u64;
            }
        },
        LoadKind::I32From8S | LoadKind::I64From8S | LoadKind::I32From8U | LoadKind::I64From8U => {
            let y = x as u8;
            assert(y == x);
            if x >= 0x80 {
                assert((y as i8) as int == y - 0x100) by (bit_vector) requires y >= 0x80u8;
            }
        },
        LoadKind::I32From16S | LoadKind::I64From16S | LoadKind::I32From16U | LoadKind::I64From16U => {
            let y = x as u16;
            assert(y == x);
            if x >= 0x8000 {
                assert((y as i16) as int == y - 0x1_0000) by (bit_vector) requires y >= 0x8000u16;
            }
        },
        LoadKind::I64From32S | LoadKind::I64From32U => {
            let y = x as u32;
            assert(y == x);
            if x >= 0x8000_0000 {
                assert((y as i32) as int == y - 0x1_0000_0000) by (bit_vector) requires y >= 0x8000_0000u32;
            }
        },
    }
}

/// The number a value stands for in memory: an integer as itself, a float
/// as its bits.
pub open spec fn stored_number(v: Value) -> int {
    match v {
        Value::I32(x) => x as int,
        Value::I64(x) => x as int,
        Value::F32(b) => b as int,
        Value::F64(b) => b as int,
    }
}

/// A store writes the low `width` bytes of its value, little-endian: read
/// back as a number they are the value modulo `256^width`, a negative
/// integer taken as its two's complement (so a narrow store keeps the low
/// bytes and drops the rest).
pub proof fn lemma_store_writes_low_bytes(before: memory::MemoryInstance, after: memory::MemoryInstance, ea: usize, v: Value, width: nat)
    requires
        memory::store_effect(before, after, ea, le_bytes(spec_value_bits(v) as nat, width), Ok(())),
        width == 1 || width == 2 || width == 4 || width == 8,
        v is I32 ==> width <= 4,
        v is F32 ==> width == 4,
        v is F64 ==> width == 8,
    ensures
        ea + width <= after.spec_data().len(),
        le_value(after.spec_data().subrange(ea as int, ea + width)) == stored_number(v) % (memory::pow256(width) as int),
{
    memory::lemma_load_after_store(before, after, ea, spec_value_bits(v) as nat, width);
    reveal_with_fuel(memory::pow256, 9);
    let p = memory::pow256(width) as int;
    match v {
        Value::I32(x) => {
            let b = x as u32;
            if x < 0 {
                assert((b as int) == x as int + 0x1_0000_0000) by (bit_vector) requires b == x as u32, x < 0;
            }
            let k: int = if width == 1 { 0x100_0000 } else if width == 2 { 0x1_0000 } else { 1 };
            assert(p * k == 0x1_0000_0000int) by {
                if width == 1 { assert(p == 256); } else if width == 2 { assert(p == 0x1_0000); } else { assert(p == 0x1_0000_0000); }
            }
            vstd::arithmetic::div_mod::lemma_mod_mod(x as int, p, k);
            vstd::arithmetic::div_mod::lemma_mod_add_multiples_vanish(x as int, 0x1_0000_0000int);
            assert((b as int) == (x as int) % 0x1_0000_0000int) by {
                vstd::arithmetic::div_mod::lemma_small_mod(b as nat, 0x1_0000_0000nat);
            }
        },
        Value::I64(x) => {
            let b = x as u64;
            if x < 0 {
                assert((b as int) == x as int + 0x1_0000_0000_0000_0000) by (bit_vector) requires b == x as u64, x < 0;
            }
            let k: int = if width == 1 { 0x100_0000_0000_0000 } else if width == 2 { 0x1_0000_0000_0000 } else if width == 4 { 0x1_0000_0000 } else { 1 };
            assert(p * k == 0x1_0000_0000_0000_0000int) by {
                if width == 1 { assert(p == 256); } else if width == 2 { assert(p == 0x1_0000); } else if width == 4 { assert(p == 0x1_0000_0000); } else { assert(p == 0x1_0000_0000_0000_0000); }
            }
            vstd::arithmetic::div_mod::lemma_mod_mod(x as int, p, k);
            vstd::arithmetic::div_mod::lemma_mod_add_multiples_vanish(x as int, 0x1_0000_0000_0000_0000int);
            assert((b as int) == (x as int) % 0x1_0000_0000_0000_0000int) by {
                vstd::arithmetic::div_mod::lemma_small_mod(b as nat, 0x1_0000_0000_0000_0000nat);
            }
        },
        Value::F32(b) => {},
        Value::F64(b) => {},
    }
}

/// The conversions between integer widths: wrapping keeps the low 32 bits,
/// signed extension keeps the number, unsigned extension gives the number
/// read as unsigned; a test for zero gives 1 exactly on zero.
pub proof fn lemma_integer_conversions(x: i32, y: i64)
    ensures
        v_convert(InstKind::I32WrapI64, Value::I64(y)) matches Ok(Value::I32(r))
            && value::unsigned32(r) == value::unsigned64(y) % 0x1_0000_0000,
        v_convert(InstKind::I64ExtendSI32, Value::I32(x)) matches Ok(Value::I64(r)) && r as int == x as int,
        v_convert(InstKind::I64ExtendUI32, Value::I32(x)) matches Ok(Value::I64(r)) && r as int == value::unsigned32(x),
        v_convert(InstKind::I32Eqz, Value::I32(x)) matches Ok(Value::I32(r)) && (r == 1) == (x == 0) && (r == 0) == (x != 0),
        v_convert(InstKind::I64Eqz, Value::I64(y)) matches Ok(Value::I32(r)) && (r == 1) == (y == 0) && (r == 0) == (y != 0),
{
    value::lemma_unsigned32(x);
    value::lemma_unsigned64(y);
    let w = y as i32;
    value::lemma_unsigned32(w);
    let u = y as u64;
    assert((w as u32) as int == (u as int) % 0x1_0000_0000) by (bit_vector) requires w == y as i32, u == y as u64;
    let v = (x as u32) as i64;
    assert(v as int == (x as u32) as int) by (bit_vector) requires v == (x as u32) as i64;
}

} // verus!
