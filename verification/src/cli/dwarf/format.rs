//! Type names and the values of variables, formatted as text.

use vstd::prelude::*;
use std::collections::HashMap;
use vstd::string::StringExecFns;
use crate::cli::dwarf::types::{find_type, lookup, MemberLocation, Member, ModifierKind, TypeInfo};
use crate::debugger::die::{eval_from, spec_eval_from, DwarfEncoding, EvalOutcome, EvalResult};
use crate::text::{dec, dec_signed, hex, push_radix, string_push};
use crate::vm::memory::{le_bytes, le_decode, le_value, lemma_le_value_bound, pow256};
use crate::vm::utils::str_eq;

verus! {

/// Why a value could not be formatted.
#[derive(Clone, Debug)]
pub enum FormatError {
    /// No type at this offset.
    TypeNotFound(usize),
    /// An enumeration whose values have this base type, which is not `int`.
    UnsupportedEnumType(String),
    /// An enumeration whose values have this type, which is no base type.
    EnumContentNotBase(String),
    NoEnumContentType,
    /// No case of the enumeration has the value.
    NoEnumerator,
    /// The evaluation of a member's location failed: why.
    Evaluation(String),
    /// Formatting cannot go on: the type or the memory is not what it needs.
    Malformed,
}

/// A formatting error, as plain values.
pub enum FmtError {
    TypeNotFound(usize),
    UnsupportedEnumType(Seq<char>),
    EnumContentNotBase(Seq<char>),
    NoEnumContentType,
    NoEnumerator,
    Evaluation(Seq<char>),
}

/// The outcome of formatting: text, an error, or an input on which
/// formatting cannot go on (a size or a memory range that does not fit, a
/// base type it does not know, a location that is no address, or types
/// that refer to themselves).
pub enum Fmt {
    Text(Seq<char>),
    Fail(FmtError),
    Crash,
}

/// The outcome of formatting the members of a structure.
pub enum MembersFmt {
    List(Seq<Seq<char>>),
    Fail(FmtError),
    Crash,
}

impl View for FormatError {
    type V = Option<FmtError>;

    open spec fn view(&self) -> Option<FmtError> {
        match self {
            FormatError::TypeNotFound(o) => Some(FmtError::TypeNotFound(*o)),
            FormatError::UnsupportedEnumType(n) => Some(FmtError::UnsupportedEnumType(n@)),
            FormatError::EnumContentNotBase(n) => Some(FmtError::EnumContentNotBase(n@)),
            FormatError::NoEnumContentType => Some(FmtError::NoEnumContentType),
            FormatError::NoEnumerator => Some(FmtError::NoEnumerator),
            FormatError::Evaluation(t) => Some(FmtError::Evaluation(t@)),
            FormatError::Malformed => None,
        }
    }
}

/// A result that matches an outcome that is no crash.
pub open spec fn matches_fmt(r: Result<String, FormatError>, f: Fmt) -> bool {
    match f {
        Fmt::Text(t) => r matches Ok(s) && s@ == t,
        Fmt::Fail(e) => r matches Err(x) && x@ == Some(e),
        Fmt::Crash => r matches Err(FormatError::Malformed),
    }
}

/// A name, or `default` when there is none.
pub open spec fn name_or(n: Option<String>, default: Seq<char>) -> Seq<char> {
    match n {
        Some(s) => s@,
        None => default,
    }
}

/// The name of a type as `kind` modifies it.
pub open spec fn modified_name(kind: ModifierKind, inner: Seq<char>) -> Seq<char> {
    match kind {
        ModifierKind::Atomic => "std::atomic<"@ + inner + ">"@,
        ModifierKind::Const => "const "@ + inner,
        ModifierKind::Immutable => "immutable "@ + inner,
        ModifierKind::Packed => "packed "@ + inner,
        ModifierKind::Pointer => inner + "*"@,
        ModifierKind::Reference => inner + "&"@,
        ModifierKind::Restrict => "restrict "@ + inner,
        ModifierKind::RvalueReference => inner + "&&"@,
        ModifierKind::Shared => "shared "@ + inner,
        ModifierKind::Volatile => "violate "@ + inner,
    }
}

/// The name of the type at `offset`, following at most `fuel` modifiers.
pub open spec fn spec_type_name(offset: Option<usize>, table: Map<usize, TypeInfo>, fuel: nat) -> Fmt
    decreases fuel,
{
    match offset {
        None => Fmt::Text("void"@),
        Some(o) => match lookup(table, o) {
            None => Fmt::Fail(FmtError::TypeNotFound(o)),
            Some(TypeInfo::BaseType(b)) => Fmt::Text(b.name@),
            Some(TypeInfo::StructType(s)) => Fmt::Text(name_or(s.name, "struct <<not parsed yet>>"@)),
            Some(TypeInfo::EnumerationType(e)) => Fmt::Text(name_or(e.name, "enum <<not parsed yet>>"@)),
            Some(TypeInfo::TypeDef(d)) => Fmt::Text(name_or(d.name, "typedef <<not parsed yet>>"@)),
            Some(TypeInfo::ModifiedType(m)) => if fuel == 0 {
                Fmt::Crash
            } else {
                match spec_type_name(m.content_ty_offset, table, (fuel - 1) as nat) {
                    Fmt::Text(inner) => Fmt::Text(modified_name(m.kind, inner)),
                    other => other,
                }
            },
        },
    }
}

fn append_name(s: &mut String, n: &Option<String>, default: &str)
    ensures
        final(s)@ == old(s)@ + name_or(*n, default@),
{
    match n {
        Some(x) => s.append(x.as_str()),
        None => s.append(default),
    }
}

/// Finds the name of the type at `offset`, following at most `fuel` modifiers.
fn type_name_fuel(offset: Option<usize>, table: &HashMap<usize, TypeInfo>, fuel: u64) -> (r: Result<String, FormatError>)
    ensures
        matches_fmt(r, spec_type_name(offset, table@, fuel as nat)),
    decreases fuel,
{
    let o = match offset {
        None => return Ok("void".to_owned()),
        Some(o) => o,
    };
    match find_type(table, o) {
        None => Err(FormatError::TypeNotFound(o)),
        Some(TypeInfo::BaseType(b)) => Ok(b.name.clone()),
        Some(TypeInfo::StructType(st)) => {
            let mut s = String::new();
            append_name(&mut s, &st.name, "struct <<not parsed yet>>");
            Ok(s)
        },
        Some(TypeInfo::EnumerationType(e)) => {
            let mut s = String::new();
            append_name(&mut s, &e.name, "enum <<not parsed yet>>");
            Ok(s)
        },
        Some(TypeInfo::TypeDef(d)) => {
            let mut s = String::new();
            append_name(&mut s, &d.name, "typedef <<not parsed yet>>");
            Ok(s)
        },
        Some(TypeInfo::ModifiedType(m)) => {
            if fuel == 0 {
                return Err(FormatError::Malformed);
            }
            let inner = match type_name_fuel(m.content_ty_offset, table, fuel - 1) {
                Ok(x) => x,
                Err(e) => return Err(e),
            };
            let mut s = String::new();
            match m.kind {
                ModifierKind::Atomic => {
                    s.append("std::atomic<");
                    s.append(inner.as_str());
                    s.append(">");
                },
                ModifierKind::Const => {
                    s.append("const ");
                    s.append(inner.as_str());
                },
                ModifierKind::Immutable => {
                    s.append("immutable ");
                    s.append(inner.as_str());
                },
                ModifierKind::Packed => {
                    s.append("packed ");
                    s.append(inner.as_str());
                },
                ModifierKind::Pointer => {
                    s.append(inner.as_str());
                    s.append("*");
                },
                ModifierKind::Reference => {
                    s.append(inner.as_str());
                    s.append("&");
                },
                ModifierKind::Restrict => {
                    s.append("restrict ");
                    s.append(inner.as_str());
                },
                ModifierKind::RvalueReference => {
                    s.append(inner.as_str());
                    s.append("&&");
                },
                ModifierKind::Shared => {
                    s.append("shared ");
                    s.append(inner.as_str());
                },
                ModifierKind::Volatile => {
                    s.append("violate ");
                    s.append(inner.as_str());
                },
            }
            proof {
                let sv = s@;
                assert(sv =~= modified_name(m.kind, inner@));
            }
            Ok(s)
        },
    }
}

/// The name of the type at `offset`: `void` for none, the name of a base,
/// structure, enumeration or defined type, and modifiers around the type
/// they modify.
pub fn type_name_of(ty_offset: Option<usize>, type_hash: &HashMap<usize, TypeInfo>) -> (r: Result<String, FormatError>)
    requires
        type_hash@.len() < u64::MAX,
        !(spec_type_name(ty_offset, type_hash@, (type_hash@.len() + 1) as nat) is Crash),
    ensures
        matches_fmt(r, spec_type_name(ty_offset, type_hash@, (type_hash@.len() + 1) as nat)),
{
    type_name_fuel(ty_offset, type_hash, type_hash.len() as u64 + 1)
}


/// The little-endian number in the first `n` bytes.
pub open spec fn le_first(mem: Seq<u8>, n: nat) -> nat {
    le_value(mem.subrange(0, n as int))
}

/// The strings joined with `sep` between them.
pub open spec fn join(l: Seq<Seq<char>>, sep: Seq<char>) -> Seq<char>
    decreases l.len(),
{
    if l.len() == 0 {
        Seq::empty()
    } else if l.len() == 1 {
        l[0]
    } else {
        join(l.drop_last(), sep) + sep + l.last()
    }
}

/// A base type's value: `int` as a signed 32-bit number, the unsigned types
/// of 32, 64 and 128 bits as numbers, `char` as its byte.
pub open spec fn spec_format_base(name: Seq<char>, byte_size: u64, mem: Seq<u8>) -> Fmt {
    if name == "int"@ {
        if byte_size != 4 || mem.len() < 4 {
            Fmt::Crash
        } else {
            Fmt::Text(name + "("@ + dec_signed((le_first(mem, 4) as u32 as i32) as int) + ")"@)
        }
    } else if name == "long unsigned int"@ {
        if byte_size != 4 || mem.len() < 4 { Fmt::Crash } else { Fmt::Text(name + "("@ + dec(le_first(mem, 4)) + ")"@) }
    } else if name == "long long unsigned int"@ {
        if byte_size != 8 || mem.len() < 8 { Fmt::Crash } else { Fmt::Text(name + "("@ + dec(le_first(mem, 8)) + ")"@) }
    } else if name == "unsigned __int128"@ {
        if byte_size != 16 || mem.len() < 16 { Fmt::Crash } else { Fmt::Text(name + "("@ + dec(le_first(mem, 16)) + ")"@) }
    } else if name == "char"@ {
        if mem.len() < 1 {
            Fmt::Crash
        } else if mem[0] < 0x80 {
            Fmt::Text(seq![mem[0] as char])
        } else {
            Fmt::Text("<<invalid utf8 char>>"@)
        }
    } else {
        Fmt::Crash
    }
}

/// The bytes of a little-endian number are the bytes it was read from.
proof fn lemma_le_bytes_of_value(s: Seq<u8>)
    ensures
        le_bytes(le_value(s), s.len()) == s,
    decreases s.len(),
{
    if s.len() > 0 {
        let rest = s.drop_first();
        lemma_le_bytes_of_value(rest);
        let w = le_value(rest);
        let v = le_value(s);
        assert(v == s[0] as nat + 256 * w);
        assert(v % 256 == s[0] as nat && v / 256 == w) by (nonlinear_arith)
            requires v == s[0] as nat + 256 * w, s[0] < 256;
        assert(le_bytes(v, s.len()) == seq![(v % 256) as u8] + le_bytes(v / 256, (s.len() - 1) as nat));
        assert(s =~= seq![s[0]] + rest);
    }
}

/// An unsigned base type of `n` bytes shows as its name with, in brackets,
/// the decimal number whose `n` little-endian bytes are the first `n` bytes
/// of memory: every one of the `n` bytes counts.
pub proof fn lemma_unsigned_base_shows_all_bytes(name: Seq<char>, n: u64, mem: Seq<u8>)
    requires
        (name == "long unsigned int"@ && n == 4) || (name == "long long unsigned int"@ && n == 8)
            || (name == "unsigned __int128"@ && n == 16),
        mem.len() >= n,
    ensures
        exists|v: nat| #![trigger dec(v)] spec_format_base(name, n, mem) == Fmt::Text(name + "("@ + dec(v) + ")"@)
            && v < pow256(n as nat) && le_bytes(v, n as nat) == mem.subrange(0, n as int),
{
    let s = mem.subrange(0, n as int);
    lemma_le_bytes_of_value(s);
    lemma_le_value_bound(s);
    let v = le_value(s);
    reveal_strlit("int");
    reveal_strlit("long unsigned int");
    reveal_strlit("long long unsigned int");
    reveal_strlit("unsigned __int128");
    assert(name.len() != 3);
    if name == "long long unsigned int"@ {
        assert(name.len() != "long unsigned int"@.len());
    }
    if name == "unsigned __int128"@ {
        assert(name[0] != "long unsigned int"@[0]);
        assert(name.len() != "long long unsigned int"@.len());
    }
    assert(spec_format_base(name, n, mem) == Fmt::Text(name + "("@ + dec(v) + ")"@));
    assert(s.len() == n);
}

/// A base type `int` of 4 bytes shows as `int` with, in brackets, the
/// signed decimal value of the first 4 bytes of memory read as a
/// little-endian two's-complement number: from `0x8000_0000` on, negative.
pub proof fn lemma_int_base_shows_signed(mem: Seq<u8>)
    requires
        mem.len() >= 4,
    ensures
        ({
            let x = le_value(mem.subrange(0, 4));
            spec_format_base("int"@, 4, mem) == Fmt::Text("int"@ + "("@
                + dec_signed(if x < 0x8000_0000 { x as int } else { x - 0x1_0000_0000 }) + ")"@)
        }),
{
    let x = le_value(mem.subrange(0, 4));
    lemma_le_value_bound(mem.subrange(0, 4));
    reveal_with_fuel(pow256, 5);
    let y = x as u32;
    assert(y == x);
    if x >= 0x8000_0000 {
        assert((y as i32) as int == y - 0x1_0000_0000) by (bit_vector) requires y >= 0x8000_0000u32;
    }
}

/// Where a member lies: its constant offset, or the address of the first
/// piece of its location evaluated from 0; an error where the evaluation
/// fails, and no offset where it asks for something, has no piece, or its
/// first piece is no address.
pub enum MemberAt {
    At(usize),
    Fail(Seq<char>),
    Unknown,
}

pub open spec fn member_offset(m: Member, enc: DwarfEncoding) -> MemberAt {
    match m.location {
        MemberLocation::ConstOffset(o) => MemberAt::At(o as usize),
        MemberLocation::LocationDescription(b) => match spec_eval_from(b@, enc, 0) {
            EvalOutcome::Complete(p) => if p.len() > 0 && p[0] is Some {
                MemberAt::At(p[0]->0 as usize)
            } else {
                MemberAt::Unknown
            },
            EvalOutcome::Failed(t) => MemberAt::Fail(t),
            _ => MemberAt::Unknown,
        },
    }
}

/// The members of a structure, each as `name: value`, with at most `fuel`
/// levels of nesting.
pub open spec fn spec_members(ms: Seq<Member>, mem: Seq<u8>, table: Map<usize, TypeInfo>, enc: DwarfEncoding, fuel: nat) -> MembersFmt
    decreases fuel, ms.len() + 1,
{
    if ms.len() == 0 {
        MembersFmt::List(Seq::empty())
    } else {
        match spec_members(ms.drop_last(), mem, table, enc, fuel) {
            MembersFmt::List(l) => {
                let m = ms.last();
                match member_offset(m, enc) {
                    MemberAt::Unknown => MembersFmt::Crash,
                    MemberAt::Fail(t) => MembersFmt::Fail(FmtError::Evaluation(t)),
                    MemberAt::At(o) => if o > mem.len() {
                        MembersFmt::Crash
                    } else {
                        match spec_format(m.ty, mem.subrange(o as int, mem.len() as int), table, enc, fuel) {
                            Fmt::Text(x) => MembersFmt::List(l.push(name_or(m.name, "<<not parsed yet>>"@) + ": "@ + x)),
                            Fmt::Fail(e) => MembersFmt::Fail(e),
                            Fmt::Crash => MembersFmt::Crash,
                        }
                    },
                }
            },
            other => other,
        }
    }
}

/// Whether a case's value, as a 32-bit number, is `v`.
pub open spec fn enum_hit(e: crate::cli::dwarf::types::Enumerator, v: i32) -> bool {
    match e.value {
        Some(c) => c as i32 == v,
        None => false,
    }
}

/// The first case of an enumeration whose value, as a 32-bit number, is `v`.
pub open spec fn first_enumerator(es: Seq<crate::cli::dwarf::types::Enumerator>, v: i32) -> Option<int> {
    if exists|i: int| 0 <= i < es.len() && enum_hit(#[trigger] es[i], v) {
        Some(choose|i: int| 0 <= i < es.len() && enum_hit(#[trigger] es[i], v)
            && forall|j: int| 0 <= j < i ==> !enum_hit(#[trigger] es[j], v))
    } else {
        None
    }
}

/// The value in `mem` of the type at `offset`, with at most `fuel` levels of
/// nesting.
pub open spec fn spec_format(offset: usize, mem: Seq<u8>, table: Map<usize, TypeInfo>, enc: DwarfEncoding, fuel: nat) -> Fmt
    decreases fuel, 0nat,
{
    if fuel == 0 {
        Fmt::Crash
    } else {
        match lookup(table, offset) {
            None => Fmt::Fail(FmtError::TypeNotFound(offset)),
            Some(TypeInfo::BaseType(b)) => spec_format_base(b.name@, b.byte_size, mem),
            Some(TypeInfo::StructType(s)) => {
                let swift = match s.name {
                    Some(n) => n@ == "UnsafeRawPointer"@ || n@ == "UnsafeMutableRawPointer"@,
                    None => false,
                };
                if swift {
                    if mem.len() < 4 {
                        Fmt::Crash
                    } else {
                        Fmt::Text(s.name->0@ + " (0x"@ + hex(le_first(mem, 4)) + ")"@)
                    }
                } else {
                    match spec_members(s.members@, mem, table, enc, (fuel - 1) as nat) {
                        MembersFmt::List(l) => Fmt::Text(name_or(s.name, "<<not parsed yet>>"@) + " {\n"@ + join(l, ",\n"@) + "\n}"@),
                        MembersFmt::Fail(e) => Fmt::Fail(e),
                        MembersFmt::Crash => Fmt::Crash,
                    }
                }
            },
            Some(TypeInfo::EnumerationType(e)) => {
                let check: Option<Fmt> = match e.ty {
                    Some(o) => match lookup(table, o) {
                        Some(TypeInfo::BaseType(bt)) => if bt.name@ != "int"@ {
                            Some(Fmt::Fail(FmtError::UnsupportedEnumType(bt.name@)))
                        } else {
                            None
                        },
                        Some(_) => match spec_type_name(Some(o), table, fuel) {
                            Fmt::Text(n) => Some(Fmt::Fail(FmtError::EnumContentNotBase(n))),
                            other => Some(other),
                        },
                        None => Some(Fmt::Fail(FmtError::NoEnumContentType)),
                    },
                    None => None,
                };
                match check {
                    Some(f) => f,
                    None => if mem.len() < 4 {
                        Fmt::Crash
                    } else {
                        match first_enumerator(e.enumerators@, le_first(mem, 4) as u32 as i32) {
                            Some(i) => Fmt::Text(name_or(e.name, "<<not parsed yet>>"@) + " ("@
                                + name_or(e.enumerators@[i].name, "<<not parsed yet>>"@) + ")"@),
                            None => Fmt::Fail(FmtError::NoEnumerator),
                        }
                    },
                }
            },
            Some(TypeInfo::TypeDef(d)) => match d.ty {
                Some(t) => match spec_format(t, mem, table, enc, (fuel - 1) as nat) {
                    Fmt::Text(x) => Fmt::Text("typedef "@ + name_or(d.name, "<<not parsed yet>>"@) + " "@ + x),
                    other => other,
                },
                None => Fmt::Text("typedef "@ + name_or(d.name, "<<not parsed yet>>"@) + " <<not parsed yet>>"@),
            },
            Some(TypeInfo::ModifiedType(m)) => match m.kind {
                ModifierKind::Pointer | ModifierKind::Reference => if mem.len() < 4 {
                    Fmt::Crash
                } else {
                    match spec_type_name(m.content_ty_offset, table, fuel) {
                        Fmt::Text(n) => Fmt::Text(n + (if m.kind == ModifierKind::Pointer { "*"@ } else { "&"@ })
                            + " (0x"@ + hex(le_first(mem, 4)) + ")"@),
                        other => other,
                    }
                },
                _ => match spec_type_name(Some(offset), table, fuel) {
                    Fmt::Text(n) => match m.content_ty_offset {
                        Some(c) => match spec_format(c, mem, table, enc, (fuel - 1) as nat) {
                            Fmt::Text(x) => Fmt::Text(n + "("@ + x + ")"@),
                            other => other,
                        },
                        None => Fmt::Text(n + "(unknown)"@),
                    },
                    other => other,
                },
            },
        }
    }
}

proof fn lemma_le_concat(a: Seq<u8>, b: Seq<u8>)
    ensures
        le_value(a + b) == le_value(a) + pow256(a.len()) * le_value(b),
    decreases a.len(),
{
    if a.len() == 0 {
        assert(a + b =~= b);
        assert(le_value(a) == 0);
        assert(pow256(a.len()) == 1);
    } else {
        let ap = a.drop_first();
        lemma_le_concat(ap, b);
        let ab = a + b;
        assert(ab.drop_first() =~= ap + b);
        assert(ab[0] == a[0]);
        assert(le_value(ab) == ab[0] as nat + 256 * le_value(ab.drop_first()));
        assert(le_value(a) == a[0] as nat + 256 * le_value(ap));
        let p = pow256(ap.len());
        assert(pow256(a.len()) == 256 * p);
        let x = le_value(ap);
        let y = le_value(b);
        assert(256 * (x + p * y) == 256 * x + (256 * p) * y) by (nonlinear_arith);
        assert(pow256(a.len()) * y == (256 * p) * y);
        assert(le_value(ab.drop_first()) == x + p * y);
        assert(le_value(ab) == a[0] as nat + 256 * (x + p * y));
        assert(le_value(ab) == le_value(a) + pow256(a.len()) * y);
    }
}

/// The little-endian number in the first `n` bytes, for `n` up to 16.
fn read_le(mem: &[u8], n: usize) -> (r: u128)
    requires
        n <= 16,
        n <= mem@.len(),
    ensures
        r == le_first(mem@, n as nat),
{
    if n <= 8 {
        let part = &mem[0..n];
        let v = le_decode(part);
        assert(part@ == mem@.subrange(0, n as int));
        v as u128
    } else {
        let lo = le_decode(&mem[0..8]) as u128;
        let hi = le_decode(&mem[8..n]) as u128;
        proof {
            assert(lo == le_value(mem@.subrange(0, 8)));
            assert(hi == le_value(mem@.subrange(8, n as int)));
            let s = mem@.subrange(0, n as int);
            assert(s =~= mem@.subrange(0, 8) + mem@.subrange(8, n as int));
            lemma_le_concat(mem@.subrange(0, 8), mem@.subrange(8, n as int));
            reveal_with_fuel(pow256, 9);
            assert(pow256(8) == 0x1_0000_0000_0000_0000);
            assert(hi * 0x1_0000_0000_0000_0000 + lo <= 0xffff_ffff_ffff_ffff_ffff_ffff_ffff_ffff) by (nonlinear_arith)
                requires
                    hi < 0x1_0000_0000_0000_0000,
                    lo < 0x1_0000_0000_0000_0000;
            assert(le_first(mem@, n as nat) == lo + 0x1_0000_0000_0000_0000 * hi);
        }
        hi * 0x1_0000_0000_0000_0000 + lo
    }
}

fn append_dec_signed(s: &mut String, v: i32)
    ensures
        final(s)@ == old(s)@ + dec_signed(v as int),
{
    if v < 0 {
        string_push(s, '-');
        let m: i64 = -(v as i64);
        push_radix(s, m as u128, 10);
        proof { assert(seq!['-'] + dec((-(v as int)) as nat) == seq!['-'] + dec(m as nat)); }
    } else {
        push_radix(s, v as u128, 10);
    }
}

fn format_base(name: &String, byte_size: u64, mem: &[u8]) -> (r: Result<String, FormatError>)
    ensures
        matches_fmt(r, spec_format_base(name@, byte_size, mem@)),
{
    let n = name.as_str();
    if str_eq(n, "int") {
        if byte_size != 4 || mem.len() < 4 {
            return Err(FormatError::Malformed);
        }
        let v = read_le(mem, 4);
        let mut s = name.clone();
        s.append("(");
        append_dec_signed(&mut s, v as u32 as i32);
        s.append(")");
        Ok(s)
    } else if str_eq(n, "long unsigned int") || str_eq(n, "long long unsigned int") || str_eq(n, "unsigned __int128") {
        let w: usize = if str_eq(n, "long unsigned int") { 4 } else if str_eq(n, "long long unsigned int") { 8 } else { 16 };
        if byte_size != w as u64 || mem.len() < w {
            return Err(FormatError::Malformed);
        }
        let v = read_le(mem, w);
        let mut s = name.clone();
        s.append("(");
        push_radix(&mut s, v, 10);
        s.append(")");
        Ok(s)
    } else if str_eq(n, "char") {
        if mem.len() < 1 {
            return Err(FormatError::Malformed);
        }
        if mem[0] < 0x80 {
            let mut s = String::new();
            string_push(&mut s, mem[0] as char);
            Ok(s)
        } else {
            Ok("<<invalid utf8 char>>".to_owned())
        }
    } else {
        Err(FormatError::Malformed)
    }
}

fn member_offset_of(m: &Member, enc: DwarfEncoding) -> (r: Result<Option<usize>, FormatError>)
    ensures
        match member_offset(*m, enc) {
            MemberAt::At(o) => r == Ok::<Option<usize>, FormatError>(Some(o)),
            MemberAt::Fail(t) => r matches Err(FormatError::Evaluation(x)) && x@ == t,
            MemberAt::Unknown => r == Ok::<Option<usize>, FormatError>(None),
        },
{
    match &m.location {
        MemberLocation::ConstOffset(o) => Ok(Some(*o as usize)),
        MemberLocation::LocationDescription(b) => match eval_from(b.as_slice(), enc, 0) {
            EvalResult::Complete(p) => if p.len() > 0 {
                match p[0] {
                    Some(a) => Ok(Some(a as usize)),
                    None => Ok(None),
                }
            } else {
                Ok(None)
            },
            EvalResult::Failed(t) => Err(FormatError::Evaluation(t)),
            _ => Ok(None),
        },
    }
}

/// Formats the members of a structure.
fn format_members(ms: &Vec<Member>, mem: &[u8], table: &HashMap<usize, TypeInfo>, enc: DwarfEncoding, fuel: u64) -> (r: Result<Vec<String>, FormatError>)
    ensures
        match spec_members(ms@, mem@, table@, enc, fuel as nat) {
            MembersFmt::List(l) => r matches Ok(v) && v@.map_values(|x: String| x@) == l,
            MembersFmt::Fail(e) => r matches Err(x) && x@ == Some(e),
            MembersFmt::Crash => r matches Err(FormatError::Malformed),
        },
    decreases fuel, 1nat,
{
    let mut out: Vec<String> = Vec::new();
    let mut i: usize = 0;
    proof {
        assert(out@.map_values(|x: String| x@) =~= Seq::<Seq<char>>::empty());
        assert(ms@.subrange(0, 0).len() == 0);
    }
    while i < ms.len()
        invariant
            i <= ms@.len(),
            spec_members(ms@.subrange(0, i as int), mem@, table@, enc, fuel as nat)
                == MembersFmt::List(out@.map_values(|x: String| x@)),
        decreases ms@.len() - i,
    {
        let m = &ms[i];
        let ghost pre = ms@.subrange(0, i + 1);
        proof {
            assert(pre.drop_last() =~= ms@.subrange(0, i as int));
            assert(pre.last() == *m);
        }
        let o = match member_offset_of(m, enc) {
            Ok(Some(o)) => o,
            Err(e) => {
                proof {
                    assert(!(spec_members(pre, mem@, table@, enc, fuel as nat) is List));
                    lemma_members_prefix(ms@, mem@, table@, enc, fuel as nat, i + 1);
                }
                return Err(e);
            },
            Ok(None) => {
                proof {
                    assert(spec_members(pre, mem@, table@, enc, fuel as nat) is Crash);
                    lemma_members_prefix(ms@, mem@, table@, enc, fuel as nat, i + 1);
                }
                return Err(FormatError::Malformed);
            },
        };
        if o > mem.len() {
            proof {
                assert(spec_members(pre, mem@, table@, enc, fuel as nat) is Crash);
                lemma_members_prefix(ms@, mem@, table@, enc, fuel as nat, i + 1);
            }
            return Err(FormatError::Malformed);
        }
        let sub = &mem[o..mem.len()];
        assert(sub@ == mem@.subrange(o as int, mem@.len() as int));
        let x = match format_object_fuel(m.ty, sub, table, enc, fuel) {
            Ok(x) => x,
            Err(e) => {
                proof {
                    assert(!(spec_members(pre, mem@, table@, enc, fuel as nat) is List));
                    lemma_members_prefix(ms@, mem@, table@, enc, fuel as nat, i + 1);
                }
                return Err(e);
            },
        };
        let mut line = String::new();
        append_name(&mut line, &m.name, "<<not parsed yet>>");
        line.append(": ");
        line.append(x.as_str());
        let ghost before = out@.map_values(|y: String| y@);
        out.push(line);
        proof {
            assert(out@.map_values(|y: String| y@) =~= before.push(line@));
        }
        i = i + 1;
    }
    proof {
        assert(ms@.subrange(0, i as int) =~= ms@);
    }
    Ok(out)
}

/// A failing or crashing prefix of the members makes the whole fail or crash
/// the same way.
proof fn lemma_members_prefix(ms: Seq<Member>, mem: Seq<u8>, table: Map<usize, TypeInfo>, enc: DwarfEncoding, fuel: nat, k: int)
    requires
        0 <= k <= ms.len(),
        !(spec_members(ms.subrange(0, k), mem, table, enc, fuel) is List),
    ensures
        spec_members(ms, mem, table, enc, fuel) == spec_members(ms.subrange(0, k), mem, table, enc, fuel),
    decreases ms.len() - k,
{
    if k < ms.len() {
        assert(ms.drop_last().subrange(0, k) =~= ms.subrange(0, k));
        lemma_members_prefix(ms.drop_last(), mem, table, enc, fuel, k);
    } else {
        assert(ms.subrange(0, k) =~= ms);
    }
}

/// Formats the value in `mem` of the type at `offset`.
fn format_object_fuel(offset: usize, mem: &[u8], table: &HashMap<usize, TypeInfo>, enc: DwarfEncoding, fuel: u64) -> (r: Result<String, FormatError>)
    ensures
        matches_fmt(r, spec_format(offset, mem@, table@, enc, fuel as nat)),
    decreases fuel, 0nat,
{
    if fuel == 0 {
        return Err(FormatError::Malformed);
    }
    let ty = match find_type(table, offset) {
        None => return Err(FormatError::TypeNotFound(offset)),
        Some(t) => t,
    };
    match ty {
        TypeInfo::BaseType(b) => format_base(&b.name, b.byte_size, mem),
        TypeInfo::StructType(st) => {
            let swift = match &st.name {
                Some(n) => str_eq(n.as_str(), "UnsafeRawPointer") || str_eq(n.as_str(), "UnsafeMutableRawPointer"),
                None => false,
            };
            if swift {
                if mem.len() < 4 {
                    return Err(FormatError::Malformed);
                }
                let v = read_le(mem, 4);
                let mut s = String::new();
                append_name(&mut s, &st.name, "");
                s.append(" (0x");
                push_radix(&mut s, v, 16);
                s.append(")");
                return Ok(s);
            }
            let lines = match format_members(&st.members, mem, table, enc, fuel - 1) {
                Ok(l) => l,
                Err(e) => return Err(e),
            };
            let mut s = String::new();
            append_name(&mut s, &st.name, "<<not parsed yet>>");
            s.append(" {\n");
            let ghost ls = lines@.map_values(|y: String| y@);
            let mut k: usize = 0;
            let ghost start = s@;
            while k < lines.len()
                invariant
                    k <= lines@.len(),
                    ls == lines@.map_values(|y: String| y@),
                    s@ == start + join(ls.subrange(0, k as int), ",\n"@),
                decreases lines@.len() - k,
            {
                proof {
                    let a = ls.subrange(0, k + 1);
                    assert(a.drop_last() =~= ls.subrange(0, k as int));
                    assert(a.last() == lines@[k as int]@);
                }
                if k > 0 {
                    s.append(",\n");
                }
                s.append(lines[k].as_str());
                k = k + 1;
                proof {
                    let a = ls.subrange(0, k as int);
                    if k == 1 {
                        assert(join(a, ",\n"@) == a[0]);
                        assert(join(ls.subrange(0, 0), ",\n"@) =~= Seq::<char>::empty());
                    }
                }
            }
            proof {
                assert(ls.subrange(0, k as int) =~= ls);
            }
            s.append("\n}");
            Ok(s)
        },
        TypeInfo::EnumerationType(e) => {
            match e.ty {
                Some(o) => match find_type(table, o) {
                    Some(TypeInfo::BaseType(bt)) => {
                        if !str_eq(bt.name.as_str(), "int") {
                            return Err(FormatError::UnsupportedEnumType(bt.name.clone()));
                        }
                    },
                    Some(_) => {
                        return match type_name_fuel(Some(o), table, fuel) {
                            Ok(n) => Err(FormatError::EnumContentNotBase(n)),
                            Err(x) => Err(x),
                        };
                    },
                    None => return Err(FormatError::NoEnumContentType),
                },
                None => {},
            }
            if mem.len() < 4 {
                return Err(FormatError::Malformed);
            }
            let value = read_le(mem, 4) as u32 as i32;
            assert(value == le_first(mem@, 4) as u32 as i32);
            let mut i: usize = 0;
            let ghost spec_ty = lookup(table@, offset);
            while i < e.enumerators.len()
                invariant
                    i <= e.enumerators@.len(),
                    fuel > 0,
                    mem@.len() >= 4,
                    value == le_first(mem@, 4) as u32 as i32,
                    spec_ty == lookup(table@, offset),
                    spec_ty == Some(TypeInfo::EnumerationType(*e)),
                    match e.ty {
                        Some(o) => lookup(table@, o) matches Some(TypeInfo::BaseType(bt)) && bt.name@ == "int"@,
                        None => true,
                    },
                    forall|j: int| 0 <= j < i ==> !enum_hit(#[trigger] e.enumerators@[j], value),
                decreases e.enumerators@.len() - i,
            {
                let hit = match e.enumerators[i].value {
                    Some(c) => c as i32 == value,
                    None => false,
                };
                if hit {
                    let mut s = String::new();
                    append_name(&mut s, &e.name, "<<not parsed yet>>");
                    s.append(" (");
                    append_name(&mut s, &e.enumerators[i].name, "<<not parsed yet>>");
                    s.append(")");
                    proof {
                        let es = e.enumerators@;
                        assert(enum_hit(es[i as int], value));
                        let c = choose|c: int| 0 <= c < es.len() && enum_hit(#[trigger] es[c], value)
                            && forall|j: int| 0 <= j < c ==> !enum_hit(#[trigger] es[j], value);
                        if c > i {
                            assert(enum_hit(es[i as int], value));
                        }
                        assert(c == i);
                        assert(first_enumerator(es, value) == Some(i as int));
                    }
                    return Ok(s);
                }
                i = i + 1;
            }
            Err(FormatError::NoEnumerator)
        },
        TypeInfo::TypeDef(d) => match d.ty {
            Some(t) => {
                let x = match format_object_fuel(t, mem, table, enc, fuel - 1) {
                    Ok(x) => x,
                    Err(err) => return Err(err),
                };
                let mut s = "typedef ".to_owned();
                append_name(&mut s, &d.name, "<<not parsed yet>>");
                s.append(" ");
                s.append(x.as_str());
                Ok(s)
            },
            None => {
                let mut s = "typedef ".to_owned();
                append_name(&mut s, &d.name, "<<not parsed yet>>");
                s.append(" <<not parsed yet>>");
                Ok(s)
            },
        },
        TypeInfo::ModifiedType(m) => match m.kind {
            ModifierKind::Pointer | ModifierKind::Reference => {
                if mem.len() < 4 {
                    return Err(FormatError::Malformed);
                }
                let v = read_le(mem, 4);
                let mut s = match type_name_fuel(m.content_ty_offset, table, fuel) {
                    Ok(n) => n,
                    Err(e) => return Err(e),
                };
                if m.kind == ModifierKind::Pointer {
                    s.append("*");
                } else {
                    s.append("&");
                }
                s.append(" (0x");
                push_radix(&mut s, v, 16);
                s.append(")");
                Ok(s)
            },
            _ => {
                let mut s = match type_name_fuel(Some(offset), table, fuel) {
                    Ok(n) => n,
                    Err(e) => return Err(e),
                };
                match m.content_ty_offset {
                    Some(c) => {
                        let x = match format_object_fuel(c, mem, table, enc, fuel - 1) {
                            Ok(x) => x,
                            Err(err) => return Err(err),
                        };
                        s.append("(");
                        s.append(x.as_str());
                        s.append(")");
                    },
                    None => s.append("(unknown)"),
                }
                Ok(s)
            },
        },
    }
}

/// The value in `memory` of the type at `ty_offset`, as text: a base type
/// as its number or character, a structure with its members, an
/// enumeration by its case, a definition, a pointer or reference by its
/// address, another modifier around the value it modifies.
pub fn format_object(ty_offset: usize, memory: &[u8], encoding: DwarfEncoding, type_hash: &HashMap<usize, TypeInfo>) -> (r: Result<String, FormatError>)
    requires
        type_hash@.len() < u64::MAX,
        !(spec_format(ty_offset, memory@, type_hash@, encoding, (type_hash@.len() + 1) as nat) is Crash),
    ensures
        matches_fmt(r, spec_format(ty_offset, memory@, type_hash@, encoding, (type_hash@.len() + 1) as nat)),
{
    format_object_fuel(ty_offset, memory, type_hash, encoding, type_hash.len() as u64 + 1)
}

} // verus!
