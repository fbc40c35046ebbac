//! Debugging information entries as plain values: each entry's offset in
//! its unit, its tag, its attributes in order and its children; and the
//! evaluation of location expressions.

use vstd::prelude::*;
use gimli::{EndianSlice, Encoding, EvaluationResult, Expression, Format, LittleEndian, Location};

verus! {

pub const DW_TAG_CLASS_TYPE: u16 = 0x02;
pub const DW_TAG_FORMAL_PARAMETER: u16 = 0x05;
pub const DW_TAG_LEXICAL_BLOCK: u16 = 0x0b;
pub const DW_TAG_MEMBER: u16 = 0x0d;
pub const DW_TAG_POINTER_TYPE: u16 = 0x0f;
pub const DW_TAG_REFERENCE_TYPE: u16 = 0x10;
pub const DW_TAG_STRUCTURE_TYPE: u16 = 0x13;
pub const DW_TAG_TYPEDEF: u16 = 0x16;
pub const DW_TAG_BASE_TYPE: u16 = 0x24;
pub const DW_TAG_CONST_TYPE: u16 = 0x26;
pub const DW_TAG_PACKED_TYPE: u16 = 0x2d;
pub const DW_TAG_SUBPROGRAM: u16 = 0x2e;
pub const DW_TAG_VARIABLE: u16 = 0x34;
pub const DW_TAG_VOLATILE_TYPE: u16 = 0x35;
pub const DW_TAG_RESTRICT_TYPE: u16 = 0x37;
pub const DW_TAG_SHARED_TYPE: u16 = 0x40;
pub const DW_TAG_RVALUE_REFERENCE_TYPE: u16 = 0x42;
pub const DW_TAG_ATOMIC_TYPE: u16 = 0x47;
pub const DW_TAG_IMMUTABLE_TYPE: u16 = 0x4b;

pub const DW_AT_LOCATION: u16 = 0x02;
pub const DW_AT_NAME: u16 = 0x03;
pub const DW_AT_BYTE_SIZE: u16 = 0x0b;
pub const DW_AT_LOW_PC: u16 = 0x11;
pub const DW_AT_HIGH_PC: u16 = 0x12;
pub const DW_AT_CONST_VALUE: u16 = 0x1c;
pub const DW_AT_DATA_MEMBER_LOCATION: u16 = 0x38;
pub const DW_AT_DECLARATION: u16 = 0x3c;
pub const DW_AT_ENCODING: u16 = 0x3e;
pub const DW_AT_FRAME_BASE: u16 = 0x40;
pub const DW_AT_TYPE: u16 = 0x49;

pub const DW_ATE_SIGNED: u8 = 0x05;
pub const DW_ATE_UNSIGNED: u8 = 0x08;

/// The value of an attribute, in the form it was read in.
#[derive(Clone, Debug)]
pub enum AttrValue {
    Addr(u64),
    Block(Vec<u8>),
    Data1(u8),
    Data2(u16),
    Data4(u32),
    Data8(u64),
    Sdata(i64),
    Udata(u64),
    Exprloc(Vec<u8>),
    Flag(bool),
    /// A string held in the entry: its bytes, and its text when they are UTF-8.
    String(Vec<u8>, Option<String>),
    /// A string held in a string section: its text, when it can be read.
    StrRef(Option<String>),
    /// An entry of the same unit, by offset.
    UnitRef(usize),
    /// A base type encoding (`DW_ATE_*`).
    Encoding(u8),
    LocationListsRef(usize),
    /// Any other form.
    Other,
}

/// An attribute's value as plain values.
pub enum AttrView {
    Addr(u64),
    Block(Seq<u8>),
    Data1(u8),
    Data2(u16),
    Data4(u32),
    Data8(u64),
    Sdata(i64),
    Udata(u64),
    Exprloc(Seq<u8>),
    Flag(bool),
    String(Seq<u8>, Option<Seq<char>>),
    StrRef(Option<Seq<char>>),
    UnitRef(usize),
    Encoding(u8),
    LocationListsRef(usize),
    Other,
}

pub open spec fn text_view(t: Option<String>) -> Option<Seq<char>> {
    match t {
        Some(s) => Some(s@),
        None => None,
    }
}

impl View for AttrValue {
    type V = AttrView;

    open spec fn view(&self) -> AttrView {
        match self {
            AttrValue::Addr(x) => AttrView::Addr(*x),
            AttrValue::Block(b) => AttrView::Block(b@),
            AttrValue::Data1(x) => AttrView::Data1(*x),
            AttrValue::Data2(x) => AttrView::Data2(*x),
            AttrValue::Data4(x) => AttrView::Data4(*x),
            AttrValue::Data8(x) => AttrView::Data8(*x),
            AttrValue::Sdata(x) => AttrView::Sdata(*x),
            AttrValue::Udata(x) => AttrView::Udata(*x),
            AttrValue::Exprloc(b) => AttrView::Exprloc(b@),
            AttrValue::Flag(x) => AttrView::Flag(*x),
            AttrValue::String(b, t) => AttrView::String(b@, text_view(*t)),
            AttrValue::StrRef(t) => AttrView::StrRef(text_view(*t)),
            AttrValue::UnitRef(x) => AttrView::UnitRef(*x),
            AttrValue::Encoding(x) => AttrView::Encoding(*x),
            AttrValue::LocationListsRef(x) => AttrView::LocationListsRef(*x),
            AttrValue::Other => AttrView::Other,
        }
    }
}

fn copy_bytes(b: &Vec<u8>) -> (r: Vec<u8>)
    ensures
        r@ == b@,
{
    let r = b.clone();
    assert(r@ =~= b@);
    r
}

fn copy_text(t: &Option<String>) -> (r: Option<String>)
    ensures
        text_view(r) == text_view(*t),
{
    match t {
        Some(s) => Some(s.clone()),
        None => None,
    }
}

/// A copy of an attribute's value.
pub fn copy_attr(v: &AttrValue) -> (r: AttrValue)
    ensures
        r@ == v@,
{
    match v {
        AttrValue::Addr(x) => AttrValue::Addr(*x),
        AttrValue::Block(b) => AttrValue::Block(copy_bytes(b)),
        AttrValue::Data1(x) => AttrValue::Data1(*x),
        AttrValue::Data2(x) => AttrValue::Data2(*x),
        AttrValue::Data4(x) => AttrValue::Data4(*x),
        AttrValue::Data8(x) => AttrValue::Data8(*x),
        AttrValue::Sdata(x) => AttrValue::Sdata(*x),
        AttrValue::Udata(x) => AttrValue::Udata(*x),
        AttrValue::Exprloc(b) => AttrValue::Exprloc(copy_bytes(b)),
        AttrValue::Flag(x) => AttrValue::Flag(*x),
        AttrValue::String(b, t) => AttrValue::String(copy_bytes(b), copy_text(t)),
        AttrValue::StrRef(t) => AttrValue::StrRef(copy_text(t)),
        AttrValue::UnitRef(x) => AttrValue::UnitRef(*x),
        AttrValue::Encoding(x) => AttrValue::Encoding(*x),
        AttrValue::LocationListsRef(x) => AttrValue::LocationListsRef(*x),
        AttrValue::Other => AttrValue::Other,
    }
}

/// An entry: its offset in the unit, its tag, its attributes in order, and
/// its children.
#[derive(Debug)]
pub struct Die {
    pub offset: usize,
    pub tag: u16,
    pub attrs: Vec<(u16, AttrValue)>,
    pub children: Vec<Die>,
}

/// The value of the first attribute named `name`.
pub open spec fn spec_attr(attrs: Seq<(u16, AttrValue)>, name: u16) -> Option<AttrValue>
    decreases attrs.len(),
{
    if attrs.len() == 0 {
        None
    } else if attrs[0].0 == name {
        Some(attrs[0].1)
    } else {
        spec_attr(attrs.drop_first(), name)
    }
}

impl Die {
    pub open spec fn attr(&self, name: u16) -> Option<AttrValue> {
        spec_attr(self.attrs@, name)
    }
}

/// The value of the entry's attribute `name`.
pub fn attr_value(die: &Die, name: u16) -> (r: Option<&AttrValue>)
    ensures
        match die.attr(name) {
            Some(v) => r == Some(&v),
            None => r is None,
        },
{
    let mut i: usize = 0;
    proof { assert(die.attrs@.subrange(0, die.attrs@.len() as int) =~= die.attrs@); }
    while i < die.attrs.len()
        invariant
            i <= die.attrs@.len(),
            die.attr(name) == spec_attr(die.attrs@.subrange(i as int, die.attrs@.len() as int), name),
        decreases die.attrs@.len() - i,
    {
        proof {
            let t = die.attrs@.subrange(i as int, die.attrs@.len() as int);
            assert(t[0] == die.attrs@[i as int]);
            assert(t.drop_first() =~= die.attrs@.subrange(i + 1, die.attrs@.len() as int));
        }
        if die.attrs[i].0 == name {
            return Some(&die.attrs[i].1);
        }
        i = i + 1;
    }
    None
}

/// An attribute as an unsigned number, when its form holds one.
pub open spec fn spec_udata(v: AttrValue) -> Option<u64> {
    match v {
        AttrValue::Data1(d) => Some(d as u64),
        AttrValue::Data2(d) => Some(d as u64),
        AttrValue::Data4(d) => Some(d as u64),
        AttrValue::Data8(d) => Some(d),
        AttrValue::Udata(d) => Some(d),
        AttrValue::Sdata(d) => if d < 0 { None } else { Some(d as u64) },
        _ => None,
    }
}

pub fn udata_value(v: &AttrValue) -> (r: Option<u64>)
    ensures
        r == spec_udata(*v),
{
    match v {
        AttrValue::Data1(d) => Some(*d as u64),
        AttrValue::Data2(d) => Some(*d as u64),
        AttrValue::Data4(d) => Some(*d as u64),
        AttrValue::Data8(d) => Some(*d),
        AttrValue::Udata(d) => Some(*d),
        AttrValue::Sdata(d) => if *d < 0 { None } else { Some(*d as u64) },
        _ => None,
    }
}

/// The text of a string attribute.
pub open spec fn spec_attr_string(v: AttrValue) -> Option<Seq<char>> {
    match v {
        AttrValue::String(_, Some(t)) => Some(t@),
        AttrValue::StrRef(Some(t)) => Some(t@),
        _ => None,
    }
}

/// The text of a string attribute; `None` for another form or a string
/// that cannot be read.
pub fn clone_string_attribute(v: &AttrValue) -> (r: Option<String>)
    ensures
        match spec_attr_string(*v) {
            Some(t) => r matches Some(s) && s@ == t,
            None => r is None,
        },
{
    match v {
        AttrValue::String(_, Some(t)) => Some(t.clone()),
        AttrValue::StrRef(Some(t)) => Some(t.clone()),
        _ => None,
    }
}

/// The first entry at `offset` in the tree of `node`, itself first, then
/// its children's trees in order.
pub open spec fn find_in(node: Die, offset: usize) -> Option<Die>
    decreases node, 1nat,
{
    if node.offset == offset {
        Some(node)
    } else {
        find_in_list(node.children@, offset)
    }
}

pub open spec fn find_in_list(nodes: Seq<Die>, offset: usize) -> Option<Die>
    decreases nodes, 0nat,
{
    if nodes.len() == 0 {
        None
    } else {
        match find_in(nodes[0], offset) {
            Some(d) => Some(d),
            None => find_in_list(nodes.subrange(1, nodes.len() as int), offset),
        }
    }
}

/// Finds the entry at `offset` in the tree of `node`.
pub fn find_die(node: &Die, offset: usize) -> (r: Option<&Die>)
    ensures
        match find_in(*node, offset) {
            Some(d) => r == Some(&d),
            None => r is None,
        },
    decreases node, 1nat,
{
    if node.offset == offset {
        return Some(node);
    }
    find_in_children(&node.children, offset)
}

fn find_in_children(nodes: &Vec<Die>, offset: usize) -> (r: Option<&Die>)
    ensures
        match find_in_list(nodes@, offset) {
            Some(d) => r == Some(&d),
            None => r is None,
        },
    decreases nodes@, 0nat,
{
    let mut i: usize = 0;
    proof { assert(nodes@.subrange(0, nodes@.len() as int) =~= nodes@); }
    while i < nodes.len()
        invariant
            i <= nodes@.len(),
            find_in_list(nodes@, offset) == find_in_list(nodes@.subrange(i as int, nodes@.len() as int), offset),
        decreases nodes@.len() - i,
    {
        proof {
            let t = nodes@.subrange(i as int, nodes@.len() as int);
            assert(t[0] == nodes@[i as int]);
            assert(t.subrange(1, t.len() as int) =~= nodes@.subrange(i + 1, nodes@.len() as int));
        }
        match find_die(&nodes[i], offset) {
            Some(d) => return Some(d),
            None => {},
        }
        i = i + 1;
    }
    None
}


// ---------------------------------------------------------------- location expressions

/// How a unit encodes its debug information.
#[derive(Clone, Copy, Debug, PartialEq, Eq, Structural)]
pub struct DwarfEncoding {
    pub address_size: u8,
    /// The 64-bit DWARF format rather than the 32-bit one.
    pub format64: bool,
    pub version: u16,
}

/// How the evaluation of a location expression ended: with its pieces, each
/// as its address when it lies in memory; asking for the frame base; asking
/// for something else (described); or failing (described).
#[derive(Clone, Debug)]
pub enum EvalResult {
    Complete(Vec<Option<u64>>),
    RequiresFrameBase,
    Requires(String),
    Failed(String),
}

pub enum EvalOutcome {
    Complete(Seq<Option<u64>>),
    RequiresFrameBase,
    Requires(Seq<char>),
    Failed(Seq<char>),
}

impl View for EvalResult {
    type V = EvalOutcome;

    open spec fn view(&self) -> EvalOutcome {
        match self {
            EvalResult::Complete(p) => EvalOutcome::Complete(p@),
            EvalResult::RequiresFrameBase => EvalOutcome::RequiresFrameBase,
            EvalResult::Requires(s) => EvalOutcome::Requires(s@),
            EvalResult::Failed(s) => EvalOutcome::Failed(s@),
        }
    }
}

/// How many operations an evaluation may run: as many as the evaluator's
/// operation count can number. An expression that jumps back on itself fails
/// once it has run this many, instead of running forever.
pub const EVAL_LIMIT: u32 = 4294967294;

/// How `gimli` ends evaluating `bytes` with `initial` as the initial value
/// on the stack, stopping after `limit` operations.
pub uninterp spec fn gimli_evaluate_from(bytes: Seq<u8>, enc: DwarfEncoding, initial: u64, limit: u32) -> EvalOutcome;

/// How `gimli` ends evaluating `bytes`, given `frame_base` whenever it asks
/// for the frame base, stopping after `limit` operations.
pub uninterp spec fn gimli_evaluate_at(bytes: Seq<u8>, enc: DwarfEncoding, frame_base: u64, limit: u32) -> EvalOutcome;

/// The expression `DW_OP_skip -3`, which jumps back to itself.
pub open spec fn self_jump() -> Seq<u8> {
    seq![0x2fu8, 0xfdu8, 0xffu8]
}

/// `gimli::Evaluation` of the expression `bytes`, after
/// `set_max_iterations(limit)` and `set_initial_value(initial)`, run once
/// with `evaluate`; its pieces' locations, or what it asks for or why it
/// failed, each as a `Debug` or `Display` text. The outcome is named
/// `gimli_evaluate_from`. Beside the name, this states that an expression
/// that jumps back on itself fails once it has run `limit` operations.
/// An address size above eight bytes would overflow the evaluator's address
/// mask, and a limit of `u32::MAX` its operation count: both are left out.
#[verifier::external_body]
pub(crate) fn evaluate_from(bytes: &[u8], enc: DwarfEncoding, initial: u64, limit: u32) -> (r: EvalResult)
    requires
        enc.address_size <= 8,
        limit < u32::MAX,
    ensures
        r@ == gimli_evaluate_from(bytes@, enc, initial, limit),
        bytes@ == self_jump() ==> r is Failed,
{
    let format = if enc.format64 { Format::Dwarf64 } else { Format::Dwarf32 };
    let mut e = Expression(EndianSlice::new(bytes, LittleEndian)).evaluation(Encoding { format, version: enc.version, address_size: enc.address_size });
    e.set_max_iterations(limit);
    e.set_initial_value(initial);
    match e.evaluate() {
        Ok(EvaluationResult::Complete) => EvalResult::Complete(e.result().iter().map(|p| match p.location {
            Location::Address { address } => Some(address),
            _ => None,
        }).collect()),
        Ok(EvaluationResult::RequiresFrameBase) => EvalResult::RequiresFrameBase,
        Ok(x) => EvalResult::Requires(format!("{:?}", x)),
        Err(x) => EvalResult::Failed(format!("{}", x)),
    }
}

/// `gimli::Evaluation` of the expression `bytes`, after
/// `set_max_iterations(limit)`, run with `evaluate`, and with
/// `resume_with_frame_base(frame_base)` each time it asks for the frame base;
/// converted as in `evaluate_from`. The operations count across the resumes,
/// so the calls end. The outcome is named `gimli_evaluate_at`; an expression
/// that jumps back on itself fails, and the inputs left out are those of
/// `evaluate_from`.
#[verifier::external_body]
pub(crate) fn evaluate_at(bytes: &[u8], enc: DwarfEncoding, frame_base: u64, limit: u32) -> (r: EvalResult)
    requires
        enc.address_size <= 8,
        limit < u32::MAX,
    ensures
        r@ == gimli_evaluate_at(bytes@, enc, frame_base, limit),
        bytes@ == self_jump() ==> r is Failed,
{
    let format = if enc.format64 { Format::Dwarf64 } else { Format::Dwarf32 };
    let mut e = Expression(EndianSlice::new(bytes, LittleEndian)).evaluation(Encoding { format, version: enc.version, address_size: enc.address_size });
    e.set_max_iterations(limit);
    let mut step = e.evaluate();
    while let Ok(EvaluationResult::RequiresFrameBase) = step {
        step = e.resume_with_frame_base(frame_base);
    }
    match step {
        Ok(EvaluationResult::Complete) => EvalResult::Complete(e.result().iter().map(|p| match p.location {
            Location::Address { address } => Some(address),
            _ => None,
        }).collect()),
        Ok(x) => EvalResult::Requires(format!("{:?}", x)),
        Err(x) => EvalResult::Failed(format!("{}", x)),
    }
}

/// What an evaluation is answered for an address size that no evaluation
/// supports.
pub open spec fn address_size_message() -> Seq<char> {
    "unsupported address size"@
}

/// How the evaluation of `bytes` with `initial` as the initial value ends
/// within `limit` operations: that of `gimli`, where the address size is at
/// most eight bytes.
pub open spec fn spec_eval_from_within(bytes: Seq<u8>, enc: DwarfEncoding, initial: u64, limit: u32) -> EvalOutcome {
    if enc.address_size <= 8 {
        gimli_evaluate_from(bytes, enc, initial, limit)
    } else {
        EvalOutcome::Failed(address_size_message())
    }
}

/// How the evaluation of `bytes`, given `frame_base` whenever it asks for
/// the frame base, ends within `limit` operations: as in
/// `spec_eval_from_within`.
pub open spec fn spec_eval_at_within(bytes: Seq<u8>, enc: DwarfEncoding, frame_base: u64, limit: u32) -> EvalOutcome {
    if enc.address_size <= 8 {
        gimli_evaluate_at(bytes, enc, frame_base, limit)
    } else {
        EvalOutcome::Failed(address_size_message())
    }
}

/// How the evaluation of `bytes` with `initial` as the initial value ends,
/// within `EVAL_LIMIT` operations.
pub open spec fn spec_eval_from(bytes: Seq<u8>, enc: DwarfEncoding, initial: u64) -> EvalOutcome {
    spec_eval_from_within(bytes, enc, initial, EVAL_LIMIT)
}

/// How the evaluation of `bytes`, given `frame_base` whenever it asks for
/// the frame base, ends, within `EVAL_LIMIT` operations.
pub open spec fn spec_eval_at(bytes: Seq<u8>, enc: DwarfEncoding, frame_base: u64) -> EvalOutcome {
    spec_eval_at_within(bytes, enc, frame_base, EVAL_LIMIT)
}

/// Evaluates the expression `bytes` with `initial` as the initial value,
/// running at most `limit` operations.
pub fn eval_from_within(bytes: &[u8], enc: DwarfEncoding, initial: u64, limit: u32) -> (r: EvalResult)
    requires
        limit < u32::MAX,
    ensures
        r@ == spec_eval_from_within(bytes@, enc, initial, limit),
        bytes@ == self_jump() ==> r is Failed,
{
    if enc.address_size <= 8 {
        evaluate_from(bytes, enc, initial, limit)
    } else {
        proof { reveal_strlit("unsupported address size"); }
        EvalResult::Failed("unsupported address size".to_owned())
    }
}

/// Evaluates the expression `bytes`, giving `frame_base` whenever it asks
/// for the frame base, running at most `limit` operations.
pub fn eval_at_within(bytes: &[u8], enc: DwarfEncoding, frame_base: u64, limit: u32) -> (r: EvalResult)
    requires
        limit < u32::MAX,
    ensures
        r@ == spec_eval_at_within(bytes@, enc, frame_base, limit),
        bytes@ == self_jump() ==> r is Failed,
{
    if enc.address_size <= 8 {
        evaluate_at(bytes, enc, frame_base, limit)
    } else {
        proof { reveal_strlit("unsupported address size"); }
        EvalResult::Failed("unsupported address size".to_owned())
    }
}

/// Evaluates the expression `bytes` with `initial` as the initial value.
pub fn eval_from(bytes: &[u8], enc: DwarfEncoding, initial: u64) -> (r: EvalResult)
    ensures
        r@ == spec_eval_from(bytes@, enc, initial),
{
    eval_from_within(bytes, enc, initial, EVAL_LIMIT)
}

/// Evaluates the expression `bytes`, giving `frame_base` whenever it asks
/// for the frame base.
pub fn eval_at(bytes: &[u8], enc: DwarfEncoding, frame_base: u64) -> (r: EvalResult)
    ensures
        r@ == spec_eval_at(bytes@, enc, frame_base),
{
    eval_at_within(bytes, enc, frame_base, EVAL_LIMIT)
}

} // verus!
