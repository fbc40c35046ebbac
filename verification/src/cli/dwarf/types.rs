//! The types that debug information describes, as plain values: a table
//! from entry offsets to type descriptions.

use vstd::prelude::*;
use std::collections::HashMap;
use crate::debugger::die::{
    attr_value, clone_string_attribute, spec_attr_string, spec_udata, text_view, udata_value, AttrValue, Die,
    DW_AT_BYTE_SIZE, DW_AT_DATA_MEMBER_LOCATION, DW_AT_DECLARATION, DW_AT_NAME, DW_AT_TYPE, DW_TAG_ATOMIC_TYPE,
    DW_TAG_BASE_TYPE, DW_TAG_CLASS_TYPE, DW_TAG_CONST_TYPE, DW_TAG_IMMUTABLE_TYPE, DW_TAG_MEMBER,
    DW_TAG_PACKED_TYPE, DW_TAG_POINTER_TYPE, DW_TAG_REFERENCE_TYPE, DW_TAG_RESTRICT_TYPE,
    DW_TAG_RVALUE_REFERENCE_TYPE, DW_TAG_SHARED_TYPE, DW_TAG_STRUCTURE_TYPE, DW_TAG_TYPEDEF, DW_TAG_VOLATILE_TYPE,
};
use crate::debugger::dwarf::DwarfError;
use crate::debugger::variables::Scan;

verus! {

/// A base type: its name and size in bytes.
#[derive(Clone, Debug)]
pub struct BaseTypeInfo {
    pub name: String,
    pub byte_size: u64,
}

/// What a modified type adds to the type it modifies.
#[derive(Clone, Copy, Debug, PartialEq, Eq, Structural)]
pub enum ModifierKind {
    Atomic,
    Const,
    Immutable,
    Packed,
    Pointer,
    Reference,
    Restrict,
    RvalueReference,
    Shared,
    Volatile,
}

/// A modified type: the offset of the type it modifies, and how.
#[derive(Clone, Copy, Debug)]
pub struct ModifiedTypeInfo<Offset> {
    pub content_ty_offset: Option<Offset>,
    pub kind: ModifierKind,
}

/// Where a member of a structure lies: a location expression, or a
/// constant offset.
#[derive(Clone, Debug)]
pub enum MemberLocation {
    LocationDescription(Vec<u8>),
    ConstOffset(u64),
}

/// A member of a structure.
#[derive(Clone, Debug)]
pub struct Member {
    pub name: Option<String>,
    pub ty: usize,
    pub location: MemberLocation,
}

/// A structure or class type.
#[derive(Clone, Debug)]
pub struct StructTypeInfo {
    pub name: Option<String>,
    pub members: Vec<Member>,
    pub byte_size: u64,
    pub declaration: bool,
}

/// A case of an enumeration.
#[derive(Clone, Debug)]
pub struct Enumerator {
    pub name: Option<String>,
    pub value: Option<i64>,
}

/// An enumeration type: its name, the type of its values and its cases.
#[derive(Clone, Debug)]
pub struct EnumerationTypeInfo {
    pub name: Option<String>,
    pub ty: Option<usize>,
    pub enumerators: Vec<Enumerator>,
}

/// A type definition: its name and the type it names.
#[derive(Clone, Debug)]
pub struct TypeDef {
    pub name: Option<String>,
    pub ty: Option<usize>,
}

/// A type.
#[derive(Clone, Debug)]
pub enum TypeInfo {
    BaseType(BaseTypeInfo),
    ModifiedType(ModifiedTypeInfo<usize>),
    StructType(StructTypeInfo),
    EnumerationType(EnumerationTypeInfo),
    TypeDef(TypeDef),
}

/// The type at `offset`, where the table has one.
pub open spec fn lookup(table: Map<usize, TypeInfo>, offset: usize) -> Option<TypeInfo> {
    if table.contains_key(offset) {
        Some(table[offset])
    } else {
        None
    }
}

/// Finds the type at `offset`.
pub fn find_type(table: &HashMap<usize, TypeInfo>, offset: usize) -> (r: Option<&TypeInfo>)
    ensures
        match lookup(table@, offset) {
            Some(t) => r == Some(&t),
            None => r is None,
        },
{
    table.get(&offset)
}


// ---------------------------------------------------------------- reading types

pub struct BaseView {
    pub name: Seq<char>,
    pub byte_size: u64,
}

pub enum MemberLocView {
    LocationDescription(Seq<u8>),
    ConstOffset(u64),
}

pub struct MemberView {
    pub name: Option<Seq<char>>,
    pub ty: usize,
    pub location: MemberLocView,
}

pub struct StructView {
    pub name: Option<Seq<char>>,
    pub members: Seq<MemberView>,
    pub byte_size: u64,
    pub declaration: bool,
}

pub struct EnumView {
    pub name: Option<Seq<char>>,
    pub ty: Option<usize>,
    pub enumerators: Seq<(Option<Seq<char>>, Option<i64>)>,
}

pub struct TypeDefView {
    pub name: Option<Seq<char>>,
    pub ty: Option<usize>,
}

/// A type as plain values.
pub enum TypeView {
    Base(BaseView),
    Modified(ModifiedTypeInfo<usize>),
    Struct(StructView),
    Enumeration(EnumView),
    TypeDef(TypeDefView),
}

impl View for Member {
    type V = MemberView;

    open spec fn view(&self) -> MemberView {
        MemberView {
            name: text_view(self.name),
            ty: self.ty,
            location: match self.location {
                MemberLocation::LocationDescription(b) => MemberLocView::LocationDescription(b@),
                MemberLocation::ConstOffset(o) => MemberLocView::ConstOffset(o),
            },
        }
    }
}

pub open spec fn member_views(ms: Seq<Member>) -> Seq<MemberView> {
    ms.map_values(|m: Member| m@)
}

impl View for TypeInfo {
    type V = TypeView;

    open spec fn view(&self) -> TypeView {
        match self {
            TypeInfo::BaseType(b) => TypeView::Base(BaseView { name: b.name@, byte_size: b.byte_size }),
            TypeInfo::ModifiedType(m) => TypeView::Modified(*m),
            TypeInfo::StructType(s) => TypeView::Struct(StructView {
                name: text_view(s.name),
                members: member_views(s.members@),
                byte_size: s.byte_size,
                declaration: s.declaration,
            }),
            TypeInfo::EnumerationType(e) => TypeView::Enumeration(EnumView {
                name: text_view(e.name),
                ty: e.ty,
                enumerators: e.enumerators@.map_values(|x: Enumerator| (text_view(x.name), x.value)),
            }),
            TypeInfo::TypeDef(d) => TypeView::TypeDef(TypeDefView { name: text_view(d.name), ty: d.ty }),
        }
    }
}

/// The table with each type as plain values.
pub open spec fn table_view(t: Map<usize, TypeInfo>) -> Map<usize, TypeView> {
    t.map_values(|x: TypeInfo| x@)
}

/// The name of an entry, when it has one.
pub open spec fn spec_opt_name(d: Die) -> Result<Option<Seq<char>>, DwarfError> {
    match d.attr(DW_AT_NAME) {
        None => Ok(None),
        Some(a) => match spec_attr_string(a) {
            Some(t) => Ok(Some(t)),
            None => Err(DwarfError::BadString),
        },
    }
}

pub(crate) fn opt_name(d: &Die) -> (r: Result<Option<String>, DwarfError>)
    ensures
        match spec_opt_name(*d) {
            Ok(n) => r matches Ok(x) && text_view(x) == n,
            Err(e) => r matches Err(x) && x == e,
        },
{
    match attr_value(d, DW_AT_NAME) {
        None => Ok(None),
        Some(a) => match clone_string_attribute(a) {
            Some(s) => Ok(Some(s)),
            None => Err(DwarfError::BadString),
        },
    }
}

/// The type an entry refers to, when it refers to an entry of its unit.
pub open spec fn spec_type_ref(d: Die) -> Option<usize> {
    match d.attr(DW_AT_TYPE) {
        Some(AttrValue::UnitRef(o)) => Some(o),
        _ => None,
    }
}

pub(crate) fn type_ref(d: &Die) -> (r: Option<usize>)
    ensures
        r == spec_type_ref(*d),
{
    match attr_value(d, DW_AT_TYPE) {
        Some(AttrValue::UnitRef(o)) => Some(*o),
        _ => None,
    }
}

/// The size an entry gives, as a number.
pub open spec fn spec_byte_size(d: Die) -> Option<u64> {
    match d.attr(DW_AT_BYTE_SIZE) {
        Some(a) => spec_udata(a),
        None => None,
    }
}

fn byte_size(d: &Die) -> (r: Option<u64>)
    ensures
        r == spec_byte_size(*d),
{
    match attr_value(d, DW_AT_BYTE_SIZE) {
        Some(a) => udata_value(a),
        None => None,
    }
}

/// A base type: its name and size, both needed.
pub open spec fn spec_base_type(d: Die) -> Result<BaseView, DwarfError> {
    match spec_opt_name(d) {
        Err(e) => Err(e),
        Ok(None) => Err(DwarfError::NoTypeName(d.offset)),
        Ok(Some(name)) => match spec_byte_size(d) {
            None => Err(DwarfError::NoByteSize),
            Some(s) => Ok(BaseView { name, byte_size: s }),
        },
    }
}

fn parse_base_type(d: &Die) -> (r: Result<BaseTypeInfo, DwarfError>)
    ensures
        match spec_base_type(*d) {
            Ok(b) => r matches Ok(x) && x.name@ == b.name && x.byte_size == b.byte_size,
            Err(e) => r matches Err(x) && x == e,
        },
{
    let name = match opt_name(d) {
        Err(e) => return Err(e),
        Ok(None) => return Err(DwarfError::NoTypeName(d.offset)),
        Ok(Some(n)) => n,
    };
    match byte_size(d) {
        None => Err(DwarfError::NoByteSize),
        Some(s) => Ok(BaseTypeInfo { name, byte_size: s }),
    }
}

/// How a modifier entry's tag modifies a type.
pub open spec fn spec_modifier(tag: u16) -> Option<ModifierKind> {
    if tag == DW_TAG_ATOMIC_TYPE {
        Some(ModifierKind::Atomic)
    } else if tag == DW_TAG_CONST_TYPE {
        Some(ModifierKind::Const)
    } else if tag == DW_TAG_IMMUTABLE_TYPE {
        Some(ModifierKind::Immutable)
    } else if tag == DW_TAG_PACKED_TYPE {
        Some(ModifierKind::Packed)
    } else if tag == DW_TAG_POINTER_TYPE {
        Some(ModifierKind::Pointer)
    } else if tag == DW_TAG_REFERENCE_TYPE {
        Some(ModifierKind::Reference)
    } else if tag == DW_TAG_RESTRICT_TYPE {
        Some(ModifierKind::Restrict)
    } else if tag == DW_TAG_RVALUE_REFERENCE_TYPE {
        Some(ModifierKind::RvalueReference)
    } else if tag == DW_TAG_SHARED_TYPE {
        Some(ModifierKind::Shared)
    } else if tag == DW_TAG_VOLATILE_TYPE {
        Some(ModifierKind::Volatile)
    } else {
        None
    }
}

fn modifier(tag: u16) -> (r: Option<ModifierKind>)
    ensures
        r == spec_modifier(tag),
{
    if tag == DW_TAG_ATOMIC_TYPE {
        Some(ModifierKind::Atomic)
    } else if tag == DW_TAG_CONST_TYPE {
        Some(ModifierKind::Const)
    } else if tag == DW_TAG_IMMUTABLE_TYPE {
        Some(ModifierKind::Immutable)
    } else if tag == DW_TAG_PACKED_TYPE {
        Some(ModifierKind::Packed)
    } else if tag == DW_TAG_POINTER_TYPE {
        Some(ModifierKind::Pointer)
    } else if tag == DW_TAG_REFERENCE_TYPE {
        Some(ModifierKind::Reference)
    } else if tag == DW_TAG_RESTRICT_TYPE {
        Some(ModifierKind::Restrict)
    } else if tag == DW_TAG_RVALUE_REFERENCE_TYPE {
        Some(ModifierKind::RvalueReference)
    } else if tag == DW_TAG_SHARED_TYPE {
        Some(ModifierKind::Shared)
    } else if tag == DW_TAG_VOLATILE_TYPE {
        Some(ModifierKind::Volatile)
    } else {
        None
    }
}

/// A structure or class, without its members: its name, its size (0 when
/// not given), and whether it is only declared.
pub open spec fn spec_struct(d: Die) -> Result<StructView, DwarfError> {
    match spec_opt_name(d) {
        Err(e) => Err(e),
        Ok(name) => Ok(StructView {
            name,
            members: Seq::empty(),
            byte_size: match spec_byte_size(d) { Some(s) => s, None => 0 },
            declaration: match d.attr(DW_AT_DECLARATION) { Some(AttrValue::Flag(f)) => f, _ => false },
        }),
    }
}

fn parse_partial_struct_type(d: &Die) -> (r: Result<StructTypeInfo, DwarfError>)
    ensures
        match spec_struct(*d) {
            Ok(s) => r matches Ok(x) && TypeInfo::StructType(x)@ == TypeView::Struct(s),
            Err(e) => r matches Err(x) && x == e,
        },
{
    let name = match opt_name(d) {
        Ok(n) => n,
        Err(e) => return Err(e),
    };
    let size = match byte_size(d) {
        Some(s) => s,
        None => 0,
    };
    let declaration = match attr_value(d, DW_AT_DECLARATION) {
        Some(AttrValue::Flag(f)) => *f,
        _ => false,
    };
    let ty = StructTypeInfo { name, members: Vec::new(), byte_size: size, declaration };
    proof { assert(member_views(ty.members@) =~= Seq::<MemberView>::empty()); }
    Ok(ty)
}

/// A member: its name, its type (needed), and where it lies: at offset 0
/// when not given, at a constant offset, or where an expression says.
pub open spec fn spec_member(d: Die) -> Scan<MemberView> {
    match spec_opt_name(d) {
        Err(e) => Scan::Fail(e),
        Ok(name) => match spec_type_ref(d) {
            None => Scan::Fail(DwarfError::NoMemberType),
            Some(ty) => match d.attr(DW_AT_DATA_MEMBER_LOCATION) {
                None => Scan::Done(MemberView { name, ty, location: MemberLocView::ConstOffset(0) }),
                Some(AttrValue::Udata(o)) => Scan::Done(MemberView { name, ty, location: MemberLocView::ConstOffset(o) }),
                Some(AttrValue::Exprloc(b)) => Scan::Done(MemberView { name, ty, location: MemberLocView::LocationDescription(b@) }),
                Some(_) => Scan::Crash,
            },
        },
    }
}

fn parse_member(d: &Die) -> (r: Result<Member, DwarfError>)
    requires
        !(spec_member(*d) is Crash),
    ensures
        match spec_member(*d) {
            Scan::Done(m) => r matches Ok(x) && x@ == m,
            Scan::Fail(e) => r matches Err(x) && x == e,
            Scan::Crash => true,
        },
{
    let name = match opt_name(d) {
        Ok(n) => n,
        Err(e) => return Err(e),
    };
    let ty = match type_ref(d) {
        Some(t) => t,
        None => return Err(DwarfError::NoMemberType),
    };
    let location = match attr_value(d, DW_AT_DATA_MEMBER_LOCATION) {
        None => MemberLocation::ConstOffset(0),
        Some(AttrValue::Udata(o)) => MemberLocation::ConstOffset(*o),
        Some(AttrValue::Exprloc(b)) => {
            let v = b.clone();
            assert(v@ =~= b@);
            MemberLocation::LocationDescription(v)
        },
        Some(_) => MemberLocation::ConstOffset(0),
    };
    Ok(Member { name, ty, location })
}

/// A type definition: its name and the type it names, both optional.
pub open spec fn spec_typedef(d: Die) -> Result<TypeDefView, DwarfError> {
    match spec_opt_name(d) {
        Err(e) => Err(e),
        Ok(name) => Ok(TypeDefView { name, ty: spec_type_ref(d) }),
    }
}

fn parse_typedef(d: &Die) -> (r: Result<TypeDef, DwarfError>)
    ensures
        match spec_typedef(*d) {
            Ok(t) => r matches Ok(x) && TypeInfo::TypeDef(x)@ == TypeView::TypeDef(t),
            Err(e) => r matches Err(x) && x == e,
        },
{
    let name = match opt_name(d) {
        Ok(n) => n,
        Err(e) => return Err(e),
    };
    Ok(TypeDef { name, ty: type_ref(d) })
}

/// The type an entry describes by its tag, without a structure's members;
/// none for an entry that is no type. A member is read with its structure.
pub open spec fn spec_node_type(d: Die) -> Scan<Option<TypeView>> {
    if d.tag == DW_TAG_BASE_TYPE {
        match spec_base_type(d) {
            Ok(b) => Scan::Done(Some(TypeView::Base(b))),
            Err(e) => Scan::Fail(e),
        }
    } else if d.tag == DW_TAG_CLASS_TYPE || d.tag == DW_TAG_STRUCTURE_TYPE {
        match spec_struct(d) {
            Ok(s) => Scan::Done(Some(TypeView::Struct(s))),
            Err(e) => Scan::Fail(e),
        }
    } else if d.tag == DW_TAG_TYPEDEF {
        match spec_typedef(d) {
            Ok(t) => Scan::Done(Some(TypeView::TypeDef(t))),
            Err(e) => Scan::Fail(e),
        }
    } else if spec_modifier(d.tag) is Some {
        Scan::Done(Some(TypeView::Modified(ModifiedTypeInfo { content_ty_offset: spec_type_ref(d), kind: spec_modifier(d.tag)->0 })))
    } else if d.tag == DW_TAG_MEMBER {
        Scan::Crash
    } else {
        Scan::Done(None)
    }
}

/// The table with the type at `offset` set to `ty`, in place of the one
/// there before.
pub open spec fn spec_insert(t: Map<usize, TypeView>, offset: usize, ty: TypeView) -> Map<usize, TypeView> {
    t.insert(offset, ty)
}

/// The table after reading the types of the tree of `node`: each type entry
/// set in the table, after the types nested in it, a structure with its
/// members.
pub open spec fn spec_types(node: Die, table: Map<usize, TypeView>) -> Scan<Map<usize, TypeView>>
    decreases node, 1nat,
{
    match spec_node_type(node) {
        Scan::Crash => Scan::Crash,
        Scan::Fail(e) => Scan::Fail(e),
        Scan::Done(ty) => match spec_type_children(node.children@, table) {
            Scan::Crash => Scan::Crash,
            Scan::Fail(e) => Scan::Fail(e),
            Scan::Done((t2, ms)) => Scan::Done(match ty {
                Some(TypeView::Struct(s)) => spec_insert(t2, node.offset, TypeView::Struct(StructView { members: s.members + ms, ..s })),
                Some(x) => spec_insert(t2, node.offset, x),
                None => t2,
            }),
        },
    }
}

/// The table after reading the types of the trees of `nodes` in order, and
/// the members among them.
pub open spec fn spec_type_children(nodes: Seq<Die>, table: Map<usize, TypeView>) -> Scan<(Map<usize, TypeView>, Seq<MemberView>)>
    decreases nodes, 0nat,
{
    if nodes.len() == 0 {
        Scan::Done((table, Seq::empty()))
    } else if nodes[0].tag == DW_TAG_MEMBER {
        match spec_member(nodes[0]) {
            Scan::Crash => Scan::Crash,
            Scan::Fail(e) => Scan::Fail(e),
            Scan::Done(m) => members_then(seq![m], spec_type_children(nodes.subrange(1, nodes.len() as int), table)),
        }
    } else {
        match spec_types(nodes[0], table) {
            Scan::Crash => Scan::Crash,
            Scan::Fail(e) => Scan::Fail(e),
            Scan::Done(t1) => spec_type_children(nodes.subrange(1, nodes.len() as int), t1),
        }
    }
}

/// Members read so far, before those the rest gives.
pub open spec fn members_then(a: Seq<MemberView>, s: Scan<(Map<usize, TypeView>, Seq<MemberView>)>)
    -> Scan<(Map<usize, TypeView>, Seq<MemberView>)>
{
    match s {
        Scan::Done((t, b)) => Scan::Done((t, a + b)),
        Scan::Fail(e) => Scan::Fail(e),
        Scan::Crash => Scan::Crash,
    }
}

proof fn lemma_members_then(a: Seq<MemberView>, b: Seq<MemberView>, s: Scan<(Map<usize, TypeView>, Seq<MemberView>)>)
    ensures
        members_then(a, members_then(b, s)) == members_then(a + b, s),
{
    if let Scan::Done((t, c)) = s {
        assert(a + (b + c) =~= (a + b) + c);
    }
}

/// Sets the type at `offset` in the table.
fn insert_type(out: &mut HashMap<usize, TypeInfo>, offset: usize, ty: TypeInfo)
    ensures
        table_view(final(out)@) == spec_insert(table_view(old(out)@), offset, ty@),
{
    out.insert(offset, ty);
    proof { assert(table_view(out@) =~= table_view(old(out)@).insert(offset, ty@)); }
}

pub(crate) fn read_node_type(node: &Die) -> (r: Result<Option<TypeInfo>, DwarfError>)
    requires
        !(spec_node_type(*node) is Crash),
    ensures
        match spec_node_type(*node) {
            Scan::Done(Some(t)) => r matches Ok(Some(x)) && x@ == t,
            Scan::Done(None) => r matches Ok(None),
            Scan::Fail(e) => r matches Err(x) && x == e,
            Scan::Crash => true,
        },
{
    if node.tag == DW_TAG_BASE_TYPE {
        match parse_base_type(node) {
            Ok(b) => Ok(Some(TypeInfo::BaseType(b))),
            Err(e) => Err(e),
        }
    } else if node.tag == DW_TAG_CLASS_TYPE || node.tag == DW_TAG_STRUCTURE_TYPE {
        match parse_partial_struct_type(node) {
            Ok(s) => Ok(Some(TypeInfo::StructType(s))),
            Err(e) => Err(e),
        }
    } else if node.tag == DW_TAG_TYPEDEF {
        match parse_typedef(node) {
            Ok(t) => Ok(Some(TypeInfo::TypeDef(t))),
            Err(e) => Err(e),
        }
    } else {
        match modifier(node.tag) {
            Some(kind) => Ok(Some(TypeInfo::ModifiedType(ModifiedTypeInfo { content_ty_offset: type_ref(node), kind }))),
            None => Ok(None),
        }
    }
}

fn parse_children(nodes: &Vec<Die>, out: &mut HashMap<usize, TypeInfo>) -> (r: Result<Vec<Member>, DwarfError>)
    requires
        !(spec_type_children(nodes@, table_view(old(out)@)) is Crash),
    ensures
        match spec_type_children(nodes@, table_view(old(out)@)) {
            Scan::Done((t, ms)) => r matches Ok(v) && member_views(v@) == ms && table_view(final(out)@) == t,
            Scan::Fail(e) => r matches Err(x) && x == e,
            Scan::Crash => true,
        },
    decreases nodes@, 0nat,
{
    let ghost t0 = table_view(out@);
    let mut members: Vec<Member> = Vec::new();
    let n = nodes.len();
    let mut i: usize = 0;
    proof {
        assert(nodes@.subrange(0, n as int) =~= nodes@);
        assert(member_views(members@) =~= Seq::<MemberView>::empty());
        lemma_members_then_empty(spec_type_children(nodes@, t0));
    }
    while i < n
        invariant
            n == nodes@.len(),
            i <= n,
            spec_type_children(nodes@, t0) == members_then(member_views(members@), spec_type_children(nodes@.subrange(i as int, n as int), table_view(out@))),
            !(spec_type_children(nodes@, t0) is Crash),
            t0 == table_view(old(out)@),
        decreases n - i,
    {
        let ghost suffix = nodes@.subrange(i as int, n as int);
        let ghost tv = table_view(out@);
        proof {
            assert(suffix[0] == nodes@[i as int]);
            assert(suffix.subrange(1, suffix.len() as int) =~= nodes@.subrange(i + 1, n as int));
        }
        let child = &nodes[i];
        if child.tag == DW_TAG_MEMBER {
            let m = match parse_member(child) {
                Ok(m) => m,
                Err(e) => {
                    proof {
                        assert(spec_type_children(suffix, tv) == Scan::<(Map<usize, TypeView>, Seq<MemberView>)>::Fail(e));
                    }
                    return Err(e);
                },
            };
            let ghost prev = member_views(members@);
            members.push(m);
            proof {
                assert(member_views(members@) =~= prev + seq![m@]);
                lemma_members_then(prev, seq![m@], spec_type_children(nodes@.subrange(i + 1, n as int), table_view(out@)));
            }
        } else {
            match parse_types_rec(child, out) {
                Ok(()) => {},
                Err(e) => {
                    proof {
                        assert(spec_type_children(suffix, tv) == Scan::<(Map<usize, TypeView>, Seq<MemberView>)>::Fail(e));
                    }
                    return Err(e);
                },
            }
        }
        i = i + 1;
    }
    proof {
        assert(nodes@.subrange(n as int, n as int) =~= Seq::<Die>::empty());
        assert(member_views(members@) + Seq::<MemberView>::empty() =~= member_views(members@));
    }
    Ok(members)
}

/// Sets the type of an entry at `offset` in the table, a structure with
/// `members` added to its own.
fn set_type(out: &mut HashMap<usize, TypeInfo>, offset: usize, ty: Option<TypeInfo>, members: &Vec<Member>)
    ensures
        table_view(final(out)@) == match ty {
            Some(TypeInfo::StructType(s)) => spec_insert(table_view(old(out)@), offset,
                TypeView::Struct(StructView { members: member_views(s.members@) + member_views(members@), ..TypeInfo::StructType(s)@->Struct_0 })),
            Some(t) => spec_insert(table_view(old(out)@), offset, t@),
            None => table_view(old(out)@),
        },
{
    match ty {
        Some(TypeInfo::StructType(s)) => {
            let mut s = s;
            let ghost s0 = s;
            let ghost before = member_views(s.members@);
            let mut k: usize = 0;
            while k < members.len()
                invariant
                    k <= members@.len(),
                    s.name == s0.name && s.byte_size == s0.byte_size && s.declaration == s0.declaration,
                    member_views(s.members@) == before + member_views(members@).subrange(0, k as int),
                decreases members@.len() - k,
            {
                let ghost prev = member_views(s.members@);
                s.members.push(members[k].clone_member());
                proof {
                    assert(member_views(s.members@) =~= prev.push(members@[k as int]@));
                    assert(member_views(members@).subrange(0, k + 1) =~= member_views(members@).subrange(0, k as int).push(members@[k as int]@));
                }
                k = k + 1;
            }
            proof { assert(member_views(members@).subrange(0, k as int) =~= member_views(members@)); }
            insert_type(out, offset, TypeInfo::StructType(s));
        },
        Some(t) => insert_type(out, offset, t),
        None => {},
    }
}

/// Reads the types of the tree of `node` into the table, each at the offset
/// of its entry.
pub fn parse_types_rec(node: &Die, out: &mut HashMap<usize, TypeInfo>) -> (r: Result<(), DwarfError>)
    requires
        !(spec_types(*node, table_view(old(out)@)) is Crash),
    ensures
        match spec_types(*node, table_view(old(out)@)) {
            Scan::Done(t) => r is Ok && table_view(final(out)@) == t,
            Scan::Fail(e) => r matches Err(x) && x == e,
            Scan::Crash => true,
        },
    decreases node, 1nat,
{
    let ty = match read_node_type(node) {
        Ok(t) => t,
        Err(e) => return Err(e),
    };
    let members = match parse_children(&node.children, out) {
        Ok(m) => m,
        Err(e) => return Err(e),
    };
    set_type(out, node.offset, ty, &members);
    Ok(())
}

proof fn lemma_members_then_empty(s: Scan<(Map<usize, TypeView>, Seq<MemberView>)>)
    ensures
        members_then(Seq::empty(), s) == s,
{
    if let Scan::Done((t, b)) = s {
        assert(Seq::<MemberView>::empty() + b =~= b);
    }
}

impl Member {
    /// A copy with the same contents.
    pub fn clone_member(&self) -> (r: Member)
        ensures
            r@ == self@,
    {
        let name = match &self.name {
            Some(n) => Some(n.clone()),
            None => None,
        };
        let location = match &self.location {
            MemberLocation::LocationDescription(b) => {
                let v = b.clone();
                assert(v@ =~= b@);
                MemberLocation::LocationDescription(v)
            },
            MemberLocation::ConstOffset(o) => MemberLocation::ConstOffset(*o),
        };
        Member { name, ty: self.ty, location }
    }
}

/// Reads the types of a unit whose root entry is `root` into the table.
pub fn get_types(root: &Die, out: &mut HashMap<usize, TypeInfo>) -> (r: Result<(), DwarfError>)
    requires
        !(spec_types(*root, table_view(old(out)@)) is Crash),
    ensures
        match spec_types(*root, table_view(old(out)@)) {
            Scan::Done(t) => r is Ok && table_view(final(out)@) == t,
            Scan::Fail(e) => r matches Err(x) && x == e,
            Scan::Crash => true,
        },
{
    parse_types_rec(root, out)
}

} // verus!
