//! Values in memory as text, by the entry of their type: base types as
//! numbers, structures by their members' names.

use vstd::prelude::*;
use vstd::string::StringExecFns;
use crate::cli::dwarf::format::join;
use crate::debugger::die::{
    attr_value, clone_string_attribute, spec_attr_string, spec_udata, udata_value, AttrValue, Die, DwarfEncoding,
    DW_AT_BYTE_SIZE, DW_AT_ENCODING, DW_AT_NAME, DW_ATE_SIGNED, DW_ATE_UNSIGNED, DW_TAG_BASE_TYPE,
    DW_TAG_CLASS_TYPE, DW_TAG_MEMBER, DW_TAG_STRUCTURE_TYPE,
};
use crate::debugger::dwarf::DwarfError;
use crate::debugger::variables::Scan;
use crate::text::dec;
use crate::vm::memory::le_value;

verus! {

/// The text of a number as `num_bigint` shows it: `-` before a negative one.
pub open spec fn signed_text(negative: bool, magnitude: nat) -> Seq<char> {
    if negative && magnitude > 0 { seq!['-'] + dec(magnitude) } else { dec(magnitude) }
}

/// `BigInt::from_bytes_le(sign, magnitude)` shown with `Display`: the
/// little-endian magnitude in decimal, negative when `negative` holds and
/// the magnitude is not zero.
#[verifier::external_body]
fn bigint_decimal(negative: bool, magnitude: &[u8]) -> (r: String)
    ensures
        r@ == signed_text(negative, le_value(magnitude@)),
{
    let sign = if negative { num_bigint::Sign::Minus } else { num_bigint::Sign::Plus };
    num_bigint::BigInt::from_bytes_le(sign, magnitude).to_string()
}

/// `BigUint::from_bytes_le(bytes)` shown with `Display`: the little-endian
/// number in decimal.
#[verifier::external_body]
fn biguint_decimal(bytes: &[u8]) -> (r: String)
    ensures
        r@ == dec(le_value(bytes@)),
{
    num_bigint::BigUint::from_bytes_le(bytes).to_string()
}

/// Each byte with its bits flipped.
pub open spec fn flipped(bytes: Seq<u8>) -> Seq<u8> {
    bytes.map_values(|b: u8| (255 - b) as u8)
}

/// The text of the signed number `bytes` hold, as the debugger reads it:
/// negative when the last byte's top bit is set, and of magnitude one more
/// than the number the flipped bytes hold.
pub open spec fn spec_signed_bytes(bytes: Seq<u8>) -> Seq<char> {
    signed_text(bytes.last() >= 0x80, le_value(flipped(bytes)) + 1)
}

/// The little-endian bytes of one more than the number `b` holds.
fn le_increment(b: &[u8]) -> (r: Vec<u8>)
    ensures
        le_value(r@) == le_value(b@) + 1,
    decreases b@.len(),
{
    if b.len() == 0 {
        let r = vec![1u8];
        proof {
            assert(r@.drop_first() =~= Seq::<u8>::empty());
            assert(le_value(r@.drop_first()) == 0);
            assert(le_value(b@) == 0);
        }
        return r;
    }
    if b[0] < 255 {
        let mut r: Vec<u8> = Vec::new();
        r.push(b[0] + 1);
        let mut i: usize = 1;
        while i < b.len()
            invariant
                1 <= i <= b@.len(),
                r@.len() == i,
                r@[0] == b@[0] + 1,
                r@.drop_first() == b@.subrange(1, i as int),
            decreases b@.len() - i,
        {
            let ghost before = r@;
            r.push(b[i]);
            proof {
                assert(r@.drop_first() =~= before.drop_first().push(b@[i as int]));
                assert(b@.subrange(1, i + 1) =~= b@.subrange(1, i as int).push(b@[i as int]));
            }
            i = i + 1;
        }
        proof {
            assert(b@.subrange(1, i as int) =~= b@.drop_first());
        }
        r
    } else {
        let rest = le_increment(&b[1..b.len()]);
        let mut r: Vec<u8> = Vec::new();
        r.push(0);
        let mut i: usize = 0;
        while i < rest.len()
            invariant
                i <= rest@.len(),
                r@.len() == i + 1,
                r@[0] == 0,
                r@.drop_first() == rest@.subrange(0, i as int),
            decreases rest@.len() - i,
        {
            let ghost before = r@;
            r.push(rest[i]);
            proof {
                assert(r@.drop_first() =~= before.drop_first().push(rest@[i as int]));
                assert(rest@.subrange(0, i + 1) =~= rest@.subrange(0, i as int).push(rest@[i as int]));
            }
            i = i + 1;
        }
        proof {
            assert(rest@.subrange(0, i as int) =~= rest@);
            assert(b@.subrange(1, b@.len() as int) =~= b@.drop_first());
        }
        r
    }
}

/// Reads a signed little-endian number as the debugger does: flips the
/// bytes, reads them as a number of the sign of the last byte's top bit,
/// and moves it one away from zero.
pub fn from_signed_bytes_le(bytes: &[u8]) -> (r: String)
    requires
        bytes@.len() > 0,
    ensures
        r@ == spec_signed_bytes(bytes@),
{
    let last = bytes[bytes.len() - 1];
    let negative = (last >> 7u8) == 1;
    assert(negative == (last >= 0x80)) by (bit_vector)
        requires
            negative == ((last >> 7u8) == 1),
    ;
    let mut flip: Vec<u8> = Vec::new();
    let mut i: usize = 0;
    while i < bytes.len()
        invariant
            i <= bytes@.len(),
            flip@ == flipped(bytes@.subrange(0, i as int)),
        decreases bytes@.len() - i,
    {
        let b = bytes[i];
        let f = b ^ 0xffu8;
        assert(f == (255 - b) as u8) by (bit_vector)
            requires
                f == b ^ 0xffu8,
        ;
        flip.push(f);
        i = i + 1;
        assert(flip@ =~= flipped(bytes@.subrange(0, i as int)));
    }
    assert(bytes@.subrange(0, i as int) =~= bytes@);
    let magnitude = le_increment(flip.as_slice());
    bigint_decimal(negative, magnitude.as_slice())
}

/// The entry's name, or `default` when it has none.
pub open spec fn spec_name_or(d: Die, default: Seq<char>) -> Result<Seq<char>, DwarfError> {
    match d.attr(DW_AT_NAME) {
        Some(a) => match spec_attr_string(a) {
            Some(t) => Ok(t),
            None => Err(DwarfError::BadString),
        },
        None => Ok(default),
    }
}

fn name_or(d: &Die, default: &str) -> (r: Result<String, DwarfError>)
    ensures
        match spec_name_or(*d, default@) {
            Ok(t) => r matches Ok(s) && s@ == t,
            Err(e) => r matches Err(x) && x == e,
        },
{
    match attr_value(d, DW_AT_NAME) {
        Some(a) => match clone_string_attribute(a) {
            Some(s) => Ok(s),
            None => Err(DwarfError::BadString),
        },
        None => Ok(default.to_owned()),
    }
}

/// The names of the members among `nodes`, in order.
pub open spec fn spec_member_names(nodes: Seq<Die>) -> Result<Seq<Seq<char>>, DwarfError>
    decreases nodes.len(),
{
    if nodes.len() == 0 {
        Ok(Seq::empty())
    } else {
        match spec_member_names(nodes.drop_last()) {
            Err(e) => Err(e),
            Ok(l) => if nodes.last().tag == DW_TAG_MEMBER {
                match spec_name_or(nodes.last(), "<no member name>"@) {
                    Ok(n) => Ok(l.push(n)),
                    Err(e) => Err(e),
                }
            } else {
                Ok(l)
            },
        }
    }
}

/// The value in `mem` of the type whose entry is `node`: a base type as a
/// signed or unsigned number of its size, a structure or class by the names
/// of its members.
pub open spec fn spec_format_die(node: Die, mem: Seq<u8>) -> Scan<Seq<char>> {
    if node.tag == DW_TAG_BASE_TYPE {
        match spec_name_or(node, "<no type name>"@) {
            Err(e) => Scan::Fail(e),
            Ok(name) => match (match node.attr(DW_AT_BYTE_SIZE) { Some(a) => spec_udata(a), None => None }) {
                None => Scan::Fail(DwarfError::NoByteSize),
                Some(size) => match node.attr(DW_AT_ENCODING) {
                    Some(AttrValue::Encoding(enc)) => if size as usize > mem.len() {
                        Scan::Crash
                    } else {
                        let bytes = mem.subrange(0, size as usize as int);
                        if enc == DW_ATE_SIGNED {
                            if bytes.len() == 0 {
                                Scan::Crash
                            } else {
                                Scan::Done(name + "("@ + spec_signed_bytes(bytes) + ")"@)
                            }
                        } else if enc == DW_ATE_UNSIGNED {
                            Scan::Done(name + "("@ + dec(le_value(bytes)) + ")"@)
                        } else {
                            Scan::Crash
                        }
                    },
                    _ => Scan::Fail(DwarfError::NoTypeEncoding),
                },
            },
        }
    } else if node.tag == DW_TAG_CLASS_TYPE || node.tag == DW_TAG_STRUCTURE_TYPE {
        match spec_name_or(node, "<no type name>"@) {
            Err(e) => Scan::Fail(e),
            Ok(name) => match spec_member_names(node.children@) {
                Err(e) => Scan::Fail(e),
                Ok(l) => Scan::Done(name + " {\n"@ + join(l, ",\n"@) + "\n}"@),
            },
        }
    } else {
        Scan::Fail(DwarfError::UnsupportedEntry)
    }
}

/// A result that matches an outcome: where the outcome is a crash, the
/// result is `Malformed`.
pub open spec fn text_matches(r: Result<String, DwarfError>, s: Scan<Seq<char>>) -> bool {
    match s {
        Scan::Done(t) => r matches Ok(x) && x@ == t,
        Scan::Fail(e) => r matches Err(x) && x == e,
        Scan::Crash => r matches Err(DwarfError::Malformed),
    }
}

/// The strings joined with `sep` between them.
pub fn join_strings(ls: &Vec<String>, sep: &str) -> (r: String)
    ensures
        r@ == join(ls@.map_values(|x: String| x@), sep@),
{
    let ghost views = ls@.map_values(|x: String| x@);
    let mut s = String::new();
    let mut k: usize = 0;
    while k < ls.len()
        invariant
            k <= ls@.len(),
            views == ls@.map_values(|x: String| x@),
            s@ == join(views.subrange(0, k as int), sep@),
        decreases ls@.len() - k,
    {
        let ghost pre = views.subrange(0, k + 1);
        proof {
            assert(pre.drop_last() =~= views.subrange(0, k as int));
            assert(pre.last() == ls@[k as int]@);
        }
        if k > 0 {
            s.append(sep);
        }
        s.append(ls[k].as_str());
        proof {
            if k == 0 {
                assert(join(views.subrange(0, 0), sep@) =~= Seq::<char>::empty());
                assert(s@ =~= pre[0]);
            }
        }
        k = k + 1;
    }
    assert(views.subrange(0, k as int) =~= views);
    s
}

fn member_names(nodes: &Vec<Die>) -> (r: Result<Vec<String>, DwarfError>)
    ensures
        match spec_member_names(nodes@) {
            Ok(l) => r matches Ok(v) && v@.map_values(|x: String| x@) == l,
            Err(e) => r matches Err(x) && x == e,
        },
{
    let mut out: Vec<String> = Vec::new();
    let mut i: usize = 0;
    proof {
        assert(out@.map_values(|x: String| x@) =~= Seq::<Seq<char>>::empty());
        assert(nodes@.subrange(0, 0) =~= Seq::<Die>::empty());
    }
    while i < nodes.len()
        invariant
            i <= nodes@.len(),
            spec_member_names(nodes@.subrange(0, i as int)) == Ok::<Seq<Seq<char>>, DwarfError>(out@.map_values(|x: String| x@)),
        decreases nodes@.len() - i,
    {
        let ghost pre = nodes@.subrange(0, i + 1);
        proof {
            assert(pre.drop_last() =~= nodes@.subrange(0, i as int));
            assert(pre.last() == nodes@[i as int]);
        }
        if nodes[i].tag == DW_TAG_MEMBER {
            let n = match name_or(&nodes[i], "<no member name>") {
                Ok(n) => n,
                Err(e) => {
                    proof { lemma_member_names_prefix(nodes@, i + 1); }
                    return Err(e);
                },
            };
            let ghost before = out@.map_values(|x: String| x@);
            out.push(n);
            proof { assert(out@.map_values(|x: String| x@) =~= before.push(n@)); }
        }
        i = i + 1;
    }
    proof { assert(nodes@.subrange(0, i as int) =~= nodes@); }
    Ok(out)
}

/// Where a prefix of the nodes fails, all of them fail the same way.
proof fn lemma_member_names_prefix(nodes: Seq<Die>, k: int)
    requires
        0 <= k <= nodes.len(),
        spec_member_names(nodes.subrange(0, k)) is Err,
    ensures
        spec_member_names(nodes) == spec_member_names(nodes.subrange(0, k)),
    decreases nodes.len() - k,
{
    if k < nodes.len() {
        let pre = nodes.subrange(0, k + 1);
        assert(pre.drop_last() =~= nodes.subrange(0, k));
        lemma_member_names_prefix(nodes, k + 1);
    } else {
        assert(nodes.subrange(0, k) =~= nodes);
    }
}

/// Formats the value in `memory` of the type whose entry is `node`; where
/// it cannot go on, `Malformed`.
pub fn format_die(node: &Die, memory: &[u8]) -> (r: Result<String, DwarfError>)
    ensures
        text_matches(r, spec_format_die(*node, memory@)),
{
    if node.tag == DW_TAG_BASE_TYPE {
        let name = match name_or(node, "<no type name>") {
            Ok(n) => n,
            Err(e) => return Err(e),
        };
        let size = match attr_value(node, DW_AT_BYTE_SIZE) {
            Some(a) => match udata_value(a) {
                Some(s) => s,
                None => return Err(DwarfError::NoByteSize),
            },
            None => return Err(DwarfError::NoByteSize),
        };
        let enc = match attr_value(node, DW_AT_ENCODING) {
            Some(AttrValue::Encoding(e)) => *e,
            _ => return Err(DwarfError::NoTypeEncoding),
        };
        let n = size as usize;
        if n > memory.len() {
            return Err(DwarfError::Malformed);
        }
        let bytes = &memory[0..n];
        let mut s = name;
        if enc == DW_ATE_SIGNED {
            if n == 0 {
                return Err(DwarfError::Malformed);
            }
            let v = from_signed_bytes_le(bytes);
            s.append("(");
            s.append(v.as_str());
            s.append(")");
            Ok(s)
        } else if enc == DW_ATE_UNSIGNED {
            let v = biguint_decimal(bytes);
            s.append("(");
            s.append(v.as_str());
            s.append(")");
            Ok(s)
        } else {
            Err(DwarfError::Malformed)
        }
    } else if node.tag == DW_TAG_CLASS_TYPE || node.tag == DW_TAG_STRUCTURE_TYPE {
        let mut s = match name_or(node, "<no type name>") {
            Ok(n) => n,
            Err(e) => return Err(e),
        };
        let names = match member_names(&node.children) {
            Ok(l) => l,
            Err(e) => return Err(e),
        };
        let body = join_strings(&names, ",\n");
        s.append(" {\n");
        s.append(body.as_str());
        s.append("\n}");
        Ok(s)
    } else {
        Err(DwarfError::UnsupportedEntry)
    }
}

/// The value in `memory` of the type whose entry is `node`, as text.
pub fn format_object(node: &Die, memory: &[u8], encoding: DwarfEncoding) -> (r: Result<String, DwarfError>)
    requires
        !(spec_format_die(*node, memory@) is Crash),
    ensures
        text_matches(r, spec_format_die(*node, memory@)),
{
    format_die(node, memory)
}

} // verus!
