//! The instructions that the interpreter executes.

use vstd::prelude::*;
use crate::vm::value::{IntBinOp, IntRelOp, IntUnOp, ValueType};

verus! {

/// The result of a block.
#[derive(Clone, Copy, Debug, PartialEq, Eq, Structural)]
pub enum BlockType {
    NoResult,
    Value(ValueType),
}

impl BlockType {
    pub open spec fn spec_arity(self) -> usize {
        match self {
            BlockType::NoResult => 0,
            BlockType::Value(_) => 1,
        }
    }

    /// How many values a block of this type leaves.
    pub fn arity(&self) -> (r: usize)
        ensures
            r == self.spec_arity(),
    {
        match self {
            BlockType::NoResult => 0,
            BlockType::Value(_) => 1,
        }
    }
}

/// The width and extension of a load.
#[derive(Clone, Copy, Debug, PartialEq, Eq, Structural)]
pub enum LoadKind {
    I32,
    I64,
    F32,
    F64,
    I32From8S,
    I32From8U,
    I32From16S,
    I32From16U,
    I64From8S,
    I64From8U,
    I64From16S,
    I64From16U,
    I64From32S,
    I64From32U,
}

/// The width of a store.
#[derive(Clone, Copy, Debug, PartialEq, Eq, Structural)]
pub enum StoreKind {
    I32,
    I64,
    F32,
    F64,
    I32To8,
    I32To16,
    I64To8,
    I64To16,
    I64To32,
}

impl LoadKind {
    pub open spec fn spec_width(self) -> usize {
        match self {
            LoadKind::I32 | LoadKind::F32 | LoadKind::I64From32S | LoadKind::I64From32U => 4,
            LoadKind::I64 | LoadKind::F64 => 8,
            LoadKind::I32From8S | LoadKind::I32From8U | LoadKind::I64From8S
            | LoadKind::I64From8U => 1,
            LoadKind::I32From16S | LoadKind::I32From16U | LoadKind::I64From16S
            | LoadKind::I64From16U => 2,
        }
    }

    /// The number of bytes read.
    pub fn width(&self) -> (r: usize)
        ensures
            r == self.spec_width(),
    {
        match self {
            LoadKind::I32 | LoadKind::F32 | LoadKind::I64From32S | LoadKind::I64From32U => 4,
            LoadKind::I64 | LoadKind::F64 => 8,
            LoadKind::I32From8S | LoadKind::I32From8U | LoadKind::I64From8S
            | LoadKind::I64From8U => 1,
            LoadKind::I32From16S | LoadKind::I32From16U | LoadKind::I64From16S
            | LoadKind::I64From16U => 2,
        }
    }
}

impl StoreKind {
    pub open spec fn spec_width(self) -> usize {
        match self {
            StoreKind::I32 | StoreKind::F32 | StoreKind::I64To32 => 4,
            StoreKind::I64 | StoreKind::F64 => 8,
            StoreKind::I32To8 | StoreKind::I64To8 => 1,
            StoreKind::I32To16 | StoreKind::I64To16 => 2,
        }
    }

    pub open spec fn spec_operand(self) -> ValueType {
        match self {
            StoreKind::I32 | StoreKind::I32To8 | StoreKind::I32To16 => ValueType::I32,
            StoreKind::I64 | StoreKind::I64To8 | StoreKind::I64To16 | StoreKind::I64To32 => ValueType::I64,
            StoreKind::F32 => ValueType::F32,
            StoreKind::F64 => ValueType::F64,
        }
    }

    /// The type of the value stored.
    pub fn operand(&self) -> (r: ValueType)
        ensures
            r == self.spec_operand(),
    {
        match self {
            StoreKind::I32 | StoreKind::I32To8 | StoreKind::I32To16 => ValueType::I32,
            StoreKind::I64 | StoreKind::I64To8 | StoreKind::I64To16 | StoreKind::I64To32 => ValueType::I64,
            StoreKind::F32 => ValueType::F32,
            StoreKind::F64 => ValueType::F64,
        }
    }

    /// The number of bytes written.
    pub fn width(&self) -> (r: usize)
        ensures
            r == self.spec_width(),
    {
        match self {
            StoreKind::I32 | StoreKind::F32 | StoreKind::I64To32 => 4,
            StoreKind::I64 | StoreKind::F64 => 8,
            StoreKind::I32To8 | StoreKind::I64To8 => 1,
            StoreKind::I32To16 | StoreKind::I64To16 => 2,
        }
    }
}

/// What an instruction does.
#[derive(Clone, Debug)]
pub enum InstKind {
    Unreachable,
    Nop,
    Block(BlockType),
    Loop(BlockType),
    If(BlockType),
    Else,
    End,
    Br(u32),
    BrIf(u32),
    BrTable(Vec<u32>, u32),
    Return,
    Call(u32),
    CallIndirect(u32),
    Drop,
    Select,
    GetLocal(u32),
    SetLocal(u32),
    TeeLocal(u32),
    GetGlobal(u32),
    SetGlobal(u32),
    Load(LoadKind, u32),
    Store(StoreKind, u32),
    CurrentMemory,
    GrowMemory,
    I32Const(i32),
    I64Const(i64),
    F32Const(u32),
    F64Const(u64),
    I32Eqz,
    I64Eqz,
    I32Rel(IntRelOp),
    I64Rel(IntRelOp),
    I32Un(IntUnOp),
    I64Un(IntUnOp),
    I32Bin(IntBinOp),
    I64Bin(IntBinOp),
    I32WrapI64,
    I64ExtendSI32,
    I64ExtendUI32,
    I32ReinterpretF32,
    I64ReinterpretF64,
    F32ReinterpretI32,
    F64ReinterpretI64,
    /// A floating-point comparison, arithmetic or conversion, by its opcode.
    FloatNumeric(u8),
}

/// An instruction and its offset in the module's code section.
#[derive(Clone, Debug)]
pub struct Instruction {
    pub kind: InstKind,
    pub offset: usize,
}

/// The operand types and the result type of a floating-point numeric opcode.
pub open spec fn spec_float_signature(opcode: u8) -> Option<(Seq<ValueType>, ValueType)> {
    let f32x2 = seq![ValueType::F32, ValueType::F32];
    let f64x2 = seq![ValueType::F64, ValueType::F64];
    if 0x5b <= opcode <= 0x60 {
        Some((f32x2, ValueType::I32))
    } else if 0x61 <= opcode <= 0x66 {
        Some((f64x2, ValueType::I32))
    } else if 0x8b <= opcode <= 0x91 {
        Some((seq![ValueType::F32], ValueType::F32))
    } else if 0x92 <= opcode <= 0x98 {
        Some((f32x2, ValueType::F32))
    } else if 0x99 <= opcode <= 0x9f {
        Some((seq![ValueType::F64], ValueType::F64))
    } else if 0xa0 <= opcode <= 0xa6 {
        Some((f64x2, ValueType::F64))
    } else if opcode == 0xa8 || opcode == 0xa9 {
        Some((seq![ValueType::F32], ValueType::I32))
    } else if opcode == 0xaa || opcode == 0xab {
        Some((seq![ValueType::F64], ValueType::I32))
    } else if opcode == 0xae || opcode == 0xaf {
        Some((seq![ValueType::F32], ValueType::I64))
    } else if opcode == 0xb0 || opcode == 0xb1 {
        Some((seq![ValueType::F64], ValueType::I64))
    } else if opcode == 0xb2 || opcode == 0xb3 {
        Some((seq![ValueType::I32], ValueType::F32))
    } else if opcode == 0xb4 || opcode == 0xb5 {
        Some((seq![ValueType::I64], ValueType::F32))
    } else if opcode == 0xb6 {
        Some((seq![ValueType::F64], ValueType::F32))
    } else if opcode == 0xb7 || opcode == 0xb8 {
        Some((seq![ValueType::I32], ValueType::F64))
    } else if opcode == 0xb9 || opcode == 0xba {
        Some((seq![ValueType::I64], ValueType::F64))
    } else if opcode == 0xbb {
        Some((seq![ValueType::F32], ValueType::F64))
    } else {
        None
    }
}

fn one(t: ValueType) -> (v: Vec<ValueType>)
    ensures
        v@ == seq![t],
{
    let mut v = Vec::new();
    v.push(t);
    assert(v@ =~= seq![t]);
    v
}

fn two(t: ValueType) -> (v: Vec<ValueType>)
    ensures
        v@ == seq![t, t],
{
    let mut v = Vec::new();
    v.push(t);
    v.push(t);
    assert(v@ =~= seq![t, t]);
    v
}

/// The operand types and the result type of a floating-point numeric opcode,
/// or `None` for a byte that is no such opcode.
pub fn float_signature(opcode: u8) -> (r: Option<(Vec<ValueType>, ValueType)>)
    ensures
        match (r, spec_float_signature(opcode)) {
            (Some((ops, res)), Some((sops, sres))) => ops@ == sops && res == sres,
            (None, None) => true,
            _ => false,
        },
{
    if 0x5b <= opcode && opcode <= 0x60 {
        Some((two(ValueType::F32), ValueType::I32))
    } else if 0x61 <= opcode && opcode <= 0x66 {
        Some((two(ValueType::F64), ValueType::I32))
    } else if 0x8b <= opcode && opcode <= 0x91 {
        Some((one(ValueType::F32), ValueType::F32))
    } else if 0x92 <= opcode && opcode <= 0x98 {
        Some((two(ValueType::F32), ValueType::F32))
    } else if 0x99 <= opcode && opcode <= 0x9f {
        Some((one(ValueType::F64), ValueType::F64))
    } else if 0xa0 <= opcode && opcode <= 0xa6 {
        Some((two(ValueType::F64), ValueType::F64))
    } else if opcode == 0xa8 || opcode == 0xa9 {
        Some((one(ValueType::F32), ValueType::I32))
    } else if opcode == 0xaa || opcode == 0xab {
        Some((one(ValueType::F64), ValueType::I32))
    } else if opcode == 0xae || opcode == 0xaf {
        Some((one(ValueType::F32), ValueType::I64))
    } else if opcode == 0xb0 || opcode == 0xb1 {
        Some((one(ValueType::F64), ValueType::I64))
    } else if opcode == 0xb2 || opcode == 0xb3 {
        Some((one(ValueType::I32), ValueType::F32))
    } else if opcode == 0xb4 || opcode == 0xb5 {
        Some((one(ValueType::I64), ValueType::F32))
    } else if opcode == 0xb6 {
        Some((one(ValueType::F64), ValueType::F32))
    } else if opcode == 0xb7 || opcode == 0xb8 {
        Some((one(ValueType::I32), ValueType::F64))
    } else if opcode == 0xb9 || opcode == 0xba {
        Some((one(ValueType::I64), ValueType::F64))
    } else if opcode == 0xbb {
        Some((one(ValueType::F32), ValueType::F64))
    } else {
        None
    }
}

} // verus!
