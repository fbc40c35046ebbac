//! What the debugger reads from DWARF: locations of values, line tables
//! merged into one source map, and the subroutines that hold a code offset.

use vstd::prelude::*;
use std::collections::HashMap;
use gimli::Reader;
use crate::debugger::commands::sourcemap::{ColumnType, LineInfo, LineInfoView, SourceMap};
use crate::vm::memory::{le_decode, le_value};
use crate::vm::utils::str_eq;
use crate::debugger::die::{Die, DwarfEncoding};
use crate::cli::dwarf::types::TypeInfo;

verus! {

/// Where a value of a WebAssembly frame lives.
#[derive(Clone, Copy, Debug, PartialEq, Eq, Structural)]
pub enum WasmLoc {
    Local(u64),
    Global(u64),
    Stack(u64),
}

/// The base that frame-relative locations are computed from.
#[derive(Clone, Copy, Debug, PartialEq, Eq, Structural)]
pub enum FrameBase {
    WasmFrameBase(u64),
    RBP(u64),
}

/// Why debug information could not be read.
#[derive(Clone, Debug, PartialEq, Eq)]
pub enum DwarfError {
    /// A location expression with no byte.
    EmptyLocation,
    /// A location expression that does not start with the WebAssembly location operator.
    InvalidMagic(u8),
    /// A WebAssembly location kind that does not exist.
    InvalidOperation(u8),
    /// The expression ended before its operand.
    UnexpectedEof,
    /// An operand that is no valid unsigned LEB128 number.
    BadLeb128,
    /// No subroutine holds the code offset.
    NoSubroutine,
    /// A location that is no expression.
    UnexpectedAttribute,
    /// A string attribute that cannot be read.
    BadString,
    /// No entry at this offset of the unit.
    NoEntry(usize),
    /// The entry at this offset has no name.
    NoTypeName(usize),
    /// The subroutine has no variable of this name.
    NoVariable(String),
    /// A location asked for the frame base where there is none.
    UnexpectedFrameBase,
    /// The evaluation of a location asked for something or failed: what it said.
    Evaluation(String),
    /// A base type without its size.
    NoByteSize,
    /// A member without its type.
    NoMemberType,
    /// A unit without a line program.
    NoLineProgram,
    /// A base type without its encoding.
    NoTypeEncoding,
    /// An entry that is no type that can be shown.
    UnsupportedEntry,
    /// Showing cannot go on: the types or the memory are not what it needs.
    Malformed,
    /// The module is no readable WebAssembly binary: the parser's message.
    Parse(String),
    /// The module has no section of this name.
    MissingSection(String),
    /// A row of a unit's line table names no file of the unit.
    RowWithoutFile,
}

/// Unsigned LEB128 from byte `i` on, with `acc` read so far and the next
/// seven bits going to `shift`: the bytes' low seven bits, least significant
/// first, up to a byte without the continuation bit; none when the bytes end
/// first, or when the tenth byte would set bits past the 64th.
pub open spec fn uleb128_from(bytes: Seq<u8>, i: nat, shift: u64, acc: u64) -> Option<u64>
    decreases bytes.len() - i,
{
    if i >= bytes.len() {
        None
    } else {
        let b = bytes[i as int];
        if shift == 63 && b != 0 && b != 1 {
            None
        } else {
            let acc2 = acc | (((b & 0x7f) as u64) << shift);
            if b & 0x80 == 0 {
                Some(acc2)
            } else if shift >= 63 {
                None
            } else {
                uleb128_from(bytes, i + 1, (shift + 7) as u64, acc2)
            }
        }
    }
}

/// The number read as unsigned LEB128 from the start of `bytes`.
pub open spec fn gimli_uleb128(bytes: Seq<u8>) -> Option<u64> {
    uleb128_from(bytes, 0, 0, 0)
}

/// Reads an unsigned LEB128 number with `gimli`'s `Reader::read_uleb128` on a
/// little-endian slice; its error becomes `None`. As `leb128.rs` reads it:
/// stated by `gimli_uleb128`, together with two of its consequences for
/// short input (no byte fails; a first byte without the continuation bit is
/// the number itself).
#[verifier::external_body]
fn read_uleb128(bytes: &[u8]) -> (r: Option<u64>)
    ensures
        r == gimli_uleb128(bytes@),
        bytes@.len() == 0 ==> r is None,
        bytes@.len() > 0 && bytes@[0] < 0x80 ==> r == Some(bytes@[0] as u64),
{
    gimli::EndianSlice::new(bytes, gimli::LittleEndian).read_uleb128().ok()
}

/// The byte that starts a WebAssembly location expression.
pub const DW_OP_WASM_LOCATION: u8 = 0xed;

/// What a WebAssembly location expression denotes.
pub open spec fn spec_wasm_location(bytes: Seq<u8>) -> Result<WasmLoc, DwarfError> {
    if bytes.len() == 0 {
        Err(DwarfError::EmptyLocation)
    } else if bytes[0] != DW_OP_WASM_LOCATION {
        Err(DwarfError::InvalidMagic(bytes[0]))
    } else if bytes.len() < 2 {
        Err(DwarfError::UnexpectedEof)
    } else {
        let op = bytes[1];
        let rest = bytes.subrange(2, bytes.len() as int);
        if op <= 2 {
            match gimli_uleb128(rest) {
                Some(v) => Ok(if op == 0 { WasmLoc::Local(v) } else if op == 1 { WasmLoc::Global(v) } else { WasmLoc::Stack(v) }),
                None => Err(DwarfError::BadLeb128),
            }
        } else if op == 3 {
            if rest.len() < 4 {
                Err(DwarfError::UnexpectedEof)
            } else {
                Ok(WasmLoc::Global(le_value(rest.subrange(0, 4)) as u64))
            }
        } else {
            Err(DwarfError::InvalidOperation(op))
        }
    }
}

/// Reads a WebAssembly location expression: the location operator, then a
/// kind byte (local, global, operand stack, or global with a fixed 32-bit
/// index) and its index.
pub fn read_wasm_location(bytes: &[u8]) -> (r: Result<WasmLoc, DwarfError>)
    ensures
        r == spec_wasm_location(bytes@),
{
    if bytes.len() == 0 {
        return Err(DwarfError::EmptyLocation);
    }
    let magic = bytes[0];
    if magic != DW_OP_WASM_LOCATION {
        return Err(DwarfError::InvalidMagic(magic));
    }
    if bytes.len() < 2 {
        return Err(DwarfError::UnexpectedEof);
    }
    let op = bytes[1];
    let rest = &bytes[2..bytes.len()];
    if op <= 2 {
        match read_uleb128(rest) {
            Some(v) => Ok(if op == 0 { WasmLoc::Local(v) } else if op == 1 { WasmLoc::Global(v) } else { WasmLoc::Stack(v) }),
            None => Err(DwarfError::BadLeb128),
        }
    } else if op == 3 {
        if rest.len() < 4 {
            Err(DwarfError::UnexpectedEof)
        } else {
            let v = le_decode(&rest[0..4]);
            Ok(WasmLoc::Global(v))
        }
    } else {
        Err(DwarfError::InvalidOperation(op))
    }
}


// ---------------------------------------------------------------- line tables

/// A row of a line table: the file as an index into the unit's paths.
#[derive(Clone, Copy, Debug)]
pub struct LineRow {
    pub file_index: u64,
    pub line: Option<u64>,
    pub column: ColumnType,
}

/// The line table of one compilation unit, sorted by address.
pub struct DwarfUnitSourceMap {
    pub address_sorted_rows: Vec<(u64, LineRow)>,
    pub paths: Vec<String>,
    pub sequence_base_index: usize,
}

impl DwarfUnitSourceMap {
    /// A row names a file of the unit.
    pub open spec fn row_ok(&self, row: LineRow) -> bool {
        self.sequence_base_index <= row.file_index < self.sequence_base_index + self.paths@.len()
    }

    pub open spec fn wf(&self) -> bool {
        forall|i: int| 0 <= i < self.address_sorted_rows@.len() ==> self.row_ok(#[trigger] self.address_sorted_rows@[i].1)
    }

    pub open spec fn spec_lineinfo(&self, row: LineRow) -> LineInfoView {
        LineInfoView {
            filepath: self.paths@[row.file_index - self.sequence_base_index]@,
            line: row.line,
            column: row.column,
        }
    }

    /// The source location of a row.
    pub fn transform_lineinfo(&self, row: &LineRow) -> (r: LineInfo)
        requires
            self.row_ok(*row),
        ensures
            r@ == self.spec_lineinfo(*row),
    {
        let base = self.sequence_base_index as u64;
        let k: u64 = row.file_index - base;
        let n = self.paths.len();
        assert(k < n);
        let i = k as usize;
        assert(i as int == row.file_index - self.sequence_base_index);
        LineInfo { filepath: self.paths[i].clone(), line: row.line, column: row.column }
    }
}

/// The value that the last entry at address `a` holds.
pub open spec fn last_at<V>(entries: Seq<(u64, V)>, a: u64) -> Option<V>
    decreases entries.len(),
{
    if entries.len() == 0 {
        None
    } else if entries.last().0 == a {
        Some(entries.last().1)
    } else {
        last_at(entries.drop_last(), a)
    }
}

/// Addresses strictly increase.
pub open spec fn strictly_sorted<V>(rows: Seq<(u64, V)>) -> bool {
    forall|i: int, j: int| 0 <= i < j < rows.len() ==> rows[i].0 < rows[j].0
}

/// `rows` holds, sorted, the last value of each address of `entries`.
pub open spec fn merged<V>(rows: Seq<(u64, V)>, entries: Seq<(u64, V)>) -> bool {
    &&& strictly_sorted(rows)
    &&& forall|i: int| 0 <= i < rows.len() ==> last_at(entries, #[trigger] rows[i].0) == Some(rows[i].1)
    &&& forall|a: u64| #[trigger] last_at(entries, a) is Some ==> exists|i: int| 0 <= i < rows.len() && rows[i].0 == a
}

/// The rows of all units, each as a source location, in order.
pub open spec fn unit_entries(units: Seq<DwarfUnitSourceMap>) -> Seq<(u64, LineInfoView)>
    decreases units.len(),
{
    if units.len() == 0 {
        Seq::empty()
    } else {
        let u = units.last();
        unit_entries(units.drop_last()) + u.address_sorted_rows@.map_values(|e: (u64, LineRow)| (e.0, u.spec_lineinfo(e.1)))
    }
}

/// The directory rewrites applied in order.
pub open spec fn apply_dirs(path: Seq<char>, dirs: Seq<(Seq<char>, Seq<char>)>) -> Seq<char>
    decreases dirs.len(),
{
    if dirs.len() == 0 {
        path
    } else {
        apply_dirs(std_replaced(path, dirs[0].0, dirs[0].1), dirs.drop_first())
    }
}

/// `to` before each character of `s` and at its end: what replacing the
/// empty pattern gives.
pub open spec fn replaced_empty(s: Seq<char>, to: Seq<char>) -> Seq<char>
    decreases s.len(),
{
    if s.len() == 0 {
        to
    } else {
        to + seq![s[0]] + replaced_empty(s.drop_first(), to)
    }
}

/// The string that `str::replace` makes of `s`: each match of `from`, found
/// from the left and not overlapping the one before, replaced with `to`.
pub open spec fn std_replaced(s: Seq<char>, from: Seq<char>, to: Seq<char>) -> Seq<char>
    decreases s.len(),
{
    if from.len() == 0 {
        replaced_empty(s, to)
    } else if s.len() < from.len() {
        s
    } else if s.subrange(0, from.len() as int) == from {
        to + std_replaced(s.subrange(from.len() as int, s.len() as int), from, to)
    } else {
        seq![s[0]] + std_replaced(s.drop_first(), from, to)
    }
}

/// `str::replace`: every match of `from` in `s` replaced with `to`, as
/// `std_replaced` states.
#[verifier::external_body]
fn str_replace(s: &str, from: &str, to: &str) -> (r: String)
    ensures
        r@ == std_replaced(s@, from@, to@),
{
    s.replace(from, to)
}

/// The line tables of all units merged by address, the later unit winning,
/// with directory rewrites.
pub struct DwarfSourceMap {
    address_sorted_rows: Vec<(u64, LineInfo)>,
    directory_map: Vec<(String, String)>,
}

pub open spec fn rows_view(rows: Seq<(u64, LineInfo)>) -> Seq<(u64, LineInfoView)> {
    rows.map_values(|e: (u64, LineInfo)| (e.0, e.1@))
}

pub open spec fn dirs_view(dirs: Seq<(String, String)>) -> Seq<(Seq<char>, Seq<char>)> {
    dirs.map_values(|e: (String, String)| (e.0@, e.1@))
}

/// The row that holds `offset`: the last one at or below it.
pub open spec fn floor_row(rows: Seq<(u64, LineInfoView)>, offset: u64, i: int) -> bool {
    &&& 0 <= i < rows.len()
    &&& rows[i].0 <= offset
    &&& i + 1 < rows.len() ==> offset < rows[i + 1].0
}

/// What looking up `offset` in `m` gives: the location of the last row at
/// or before `offset`, its path with the directory rewrites applied; none
/// when every row is after `offset`.
pub open spec fn line_found(m: DwarfSourceMap, offset: usize, r: Option<LineInfo>) -> bool {
    match r {
        None => forall|i: int| 0 <= i < m.spec_rows().len() ==> m.spec_rows()[i].0 > offset,
        Some(li) => exists|i: int| #![trigger m.spec_rows()[i]] floor_row(m.spec_rows(), offset as u64, i)
            && li@ == LineInfoView {
                filepath: apply_dirs(m.spec_rows()[i].1.filepath, m.spec_dirs()),
                ..m.spec_rows()[i].1
            },
    }
}

/// `after` is `before` with the directory `from` rewritten to `to`: the
/// same rows, and the rewrite in place of an earlier one of `from`, or added
/// last.
pub open spec fn directory_mapped(before: DwarfSourceMap, after: DwarfSourceMap, from: Seq<char>, to: Seq<char>) -> bool {
    &&& after.spec_rows() == before.spec_rows()
    &&& if exists|i: int| 0 <= i < before.spec_dirs().len() && before.spec_dirs()[i].0 == from {
        exists|i: int| 0 <= i < before.spec_dirs().len() && before.spec_dirs()[i].0 == from
            && after.spec_dirs() == before.spec_dirs().update(i, (from, to))
    } else {
        after.spec_dirs() == before.spec_dirs().push((from, to))
    }
}

impl DwarfSourceMap {
    pub closed spec fn spec_rows(&self) -> Seq<(u64, LineInfoView)> {
        rows_view(self.address_sorted_rows@)
    }

    pub closed spec fn spec_dirs(&self) -> Seq<(Seq<char>, Seq<char>)> {
        dirs_view(self.directory_map@)
    }

    #[verifier::type_invariant]
    pub closed spec fn wf(&self) -> bool {
        &&& strictly_sorted(self.spec_rows())
        &&& forall|i: int, j: int| 0 <= i < j < self.spec_dirs().len() ==> self.spec_dirs()[i].0 != self.spec_dirs()[j].0
    }

    /// Merges the rows of `units`: sorted by address, and where units share
    /// an address, the later one wins.
    pub fn new(units: Vec<DwarfUnitSourceMap>) -> (m: Self)
        requires
            forall|k: int| 0 <= k < units@.len() ==> (#[trigger] units@[k]).wf(),
        ensures
            merged(m.spec_rows(), unit_entries(units@)),
            m.spec_dirs().len() == 0,
    {
        let mut rows: Vec<(u64, LineInfo)> = Vec::new();
        let mut u: usize = 0;
        while u < units.len()
            invariant
                u <= units@.len(),
                forall|k: int| 0 <= k < units@.len() ==> (#[trigger] units@[k]).wf(),
                merged(rows_view(rows@), unit_entries(units@.subrange(0, u as int))),
            decreases units@.len() - u,
        {
            let unit = &units[u];
            let ghost before = unit_entries(units@.subrange(0, u as int));
            let mut k: usize = 0;
            while k < unit.address_sorted_rows.len()
                invariant
                    k <= unit.address_sorted_rows@.len(),
                    unit.wf(),
                    merged(rows_view(rows@), before + unit.address_sorted_rows@.subrange(0, k as int)
                        .map_values(|e: (u64, LineRow)| (e.0, unit.spec_lineinfo(e.1)))),
                decreases unit.address_sorted_rows@.len() - k,
            {
                let addr = unit.address_sorted_rows[k].0;
                proof { assert(unit.row_ok(unit.address_sorted_rows@[k as int].1)); }
                let info = unit.transform_lineinfo(&unit.address_sorted_rows[k].1);
                let ghost prev = before + unit.address_sorted_rows@.subrange(0, k as int)
                    .map_values(|e: (u64, LineRow)| (e.0, unit.spec_lineinfo(e.1)));
                let ghost next = before + unit.address_sorted_rows@.subrange(0, k + 1)
                    .map_values(|e: (u64, LineRow)| (e.0, unit.spec_lineinfo(e.1)));
                proof {
                    assert(next =~= prev.push((addr, info@)));
                }
                insert_row(&mut rows, addr, info, Ghost(prev));
                k = k + 1;
            }
            proof {
                assert(unit.address_sorted_rows@.subrange(0, k as int) =~= unit.address_sorted_rows@);
                let us = units@.subrange(0, u + 1);
                assert(us.drop_last() =~= units@.subrange(0, u as int));
                assert(us.last() == units@[u as int]);
            }
            u = u + 1;
        }
        proof { assert(units@.subrange(0, u as int) =~= units@); }
        let m = DwarfSourceMap { address_sorted_rows: rows, directory_map: Vec::new() };
        assert(m.spec_dirs() =~= Seq::<(Seq<char>, Seq<char>)>::empty());
        m
    }
}

/// Puts `(addr, info)` into the sorted rows, over a row at the same address.
fn insert_row(rows: &mut Vec<(u64, LineInfo)>, addr: u64, info: LineInfo, Ghost(prev): Ghost<Seq<(u64, LineInfoView)>>)
    requires
        merged(rows_view(old(rows)@), prev),
    ensures
        merged(rows_view(final(rows)@), prev.push((addr, info@))),
{
    let ghost next = prev.push((addr, info@));
    let ghost v = info@;
    let mut p: usize = 0;
    while p < rows.len() && rows[p].0 < addr
        invariant
            p <= rows@.len(),
            rows@ == old(rows)@,
            forall|i: int| 0 <= i < p ==> rows@[i].0 < addr,
        decreases rows@.len() - p,
    {
        p = p + 1;
    }
    proof {
        assert(next.drop_last() =~= prev);
    }
    if p < rows.len() && rows[p].0 == addr {
        rows.set(p, (addr, info));
        proof {
            let rv = rows_view(rows@);
            let ov = rows_view(old(rows)@);
            assert(rv =~= ov.update(p as int, (addr, v)));
            assert forall|i: int| 0 <= i < rv.len() implies last_at(next, #[trigger] rv[i].0) == Some(rv[i].1) by {
                if i < p {
                    assert(ov[i].0 < ov[p as int].0);
                } else if i > p {
                    assert(ov[p as int].0 < ov[i].0);
                }
            }
            assert forall|a: u64| #[trigger] last_at(next, a) is Some implies exists|i: int| 0 <= i < rv.len() && rv[i].0 == a by {
                if a == addr {
                    assert(rv[p as int].0 == a);
                } else {
                    assert(last_at(prev, a) is Some);
                    let i = choose|i: int| 0 <= i < ov.len() && ov[i].0 == a;
                    assert(rv[i].0 == a);
                }
            }
        }
    } else {
        rows.insert(p, (addr, info));
        proof {
            let rv = rows_view(rows@);
            let ov = rows_view(old(rows)@);
            assert(rv =~= ov.insert(p as int, (addr, v)));
            assert forall|i: int, j: int| 0 <= i < j < rv.len() implies rv[i].0 < rv[j].0 by {
                if i < p && j > p {
                    assert(rv[j] == ov[j - 1]);
                    assert(ov[i].0 < addr);
                    if j - 1 == p as int {
                        assert(ov[p as int].0 > addr);
                    } else {
                        assert(ov[p as int].0 > addr);
                        assert(ov[p as int].0 < ov[j - 1].0);
                    }
                } else if i == p && j > p {
                    assert(rv[j] == ov[j - 1]);
                    if j - 1 > p as int {
                        assert(ov[p as int].0 < ov[j - 1].0);
                    }
                } else if i > p {
                    assert(rv[i] == ov[i - 1] && rv[j] == ov[j - 1]);
                }
            }
            assert forall|i: int| 0 <= i < rv.len() implies last_at(next, #[trigger] rv[i].0) == Some(rv[i].1) by {
                if i < p {
                    assert(rv[i] == ov[i]);
                } else if i > p {
                    assert(rv[i] == ov[i - 1]);
                    if p < ov.len() {
                        assert(ov[p as int].0 > addr);
                        if i - 1 > p as int {
                            assert(ov[p as int].0 < ov[i - 1].0);
                        }
                    }
                }
            }
            assert forall|a: u64| #[trigger] last_at(next, a) is Some implies exists|i: int| 0 <= i < rv.len() && rv[i].0 == a by {
                if a == addr {
                    assert(rv[p as int].0 == a);
                } else {
                    assert(last_at(prev, a) is Some);
                    let i = choose|i: int| 0 <= i < ov.len() && ov[i].0 == a;
                    if i < p {
                        assert(rv[i].0 == a);
                    } else {
                        assert(rv[i + 1].0 == a);
                    }
                }
            }
        }
    }
}

/// Puts `(addr, row)` into the sorted rows of a line table, over a row at
/// the same address.
pub(crate) fn insert_line_row(rows: &mut Vec<(u64, LineRow)>, addr: u64, info: LineRow, Ghost(prev): Ghost<Seq<(u64, LineRow)>>)
    requires
        merged(old(rows)@, prev),
    ensures
        merged(final(rows)@, prev.push((addr, info))),
{
    let ghost next = prev.push((addr, info));
    let ghost v = info;
    let mut p: usize = 0;
    while p < rows.len() && rows[p].0 < addr
        invariant
            p <= rows@.len(),
            rows@ == old(rows)@,
            forall|i: int| 0 <= i < p ==> rows@[i].0 < addr,
        decreases rows@.len() - p,
    {
        p = p + 1;
    }
    proof {
        assert(next.drop_last() =~= prev);
    }
    if p < rows.len() && rows[p].0 == addr {
        rows.set(p, (addr, info));
        proof {
            let rv = rows@;
            let ov = old(rows)@;
            assert(rv =~= ov.update(p as int, (addr, v)));
            assert forall|i: int| 0 <= i < rv.len() implies last_at(next, #[trigger] rv[i].0) == Some(rv[i].1) by {
                if i < p {
                    assert(ov[i].0 < ov[p as int].0);
                } else if i > p {
                    assert(ov[p as int].0 < ov[i].0);
                }
            }
            assert forall|a: u64| #[trigger] last_at(next, a) is Some implies exists|i: int| 0 <= i < rv.len() && rv[i].0 == a by {
                if a == addr {
                    assert(rv[p as int].0 == a);
                } else {
                    assert(last_at(prev, a) is Some);
                    let i = choose|i: int| 0 <= i < ov.len() && ov[i].0 == a;
                    assert(rv[i].0 == a);
                }
            }
        }
    } else {
        rows.insert(p, (addr, info));
        proof {
            let rv = rows@;
            let ov = old(rows)@;
            assert(rv =~= ov.insert(p as int, (addr, v)));
            assert forall|i: int, j: int| 0 <= i < j < rv.len() implies rv[i].0 < rv[j].0 by {
                if i < p && j > p {
                    assert(rv[j] == ov[j - 1]);
                    assert(ov[i].0 < addr);
                    if j - 1 == p as int {
                        assert(ov[p as int].0 > addr);
                    } else {
                        assert(ov[p as int].0 > addr);
                        assert(ov[p as int].0 < ov[j - 1].0);
                    }
                } else if i == p && j > p {
                    assert(rv[j] == ov[j - 1]);
                    if j - 1 > p as int {
                        assert(ov[p as int].0 < ov[j - 1].0);
                    }
                } else if i > p {
                    assert(rv[i] == ov[i - 1] && rv[j] == ov[j - 1]);
                }
            }
            assert forall|i: int| 0 <= i < rv.len() implies last_at(next, #[trigger] rv[i].0) == Some(rv[i].1) by {
                if i < p {
                    assert(rv[i] == ov[i]);
                } else if i > p {
                    assert(rv[i] == ov[i - 1]);
                    if p < ov.len() {
                        assert(ov[p as int].0 > addr);
                        if i - 1 > p as int {
                            assert(ov[p as int].0 < ov[i - 1].0);
                        }
                    }
                }
            }
            assert forall|a: u64| #[trigger] last_at(next, a) is Some implies exists|i: int| 0 <= i < rv.len() && rv[i].0 == a by {
                if a == addr {
                    assert(rv[p as int].0 == a);
                } else {
                    assert(last_at(prev, a) is Some);
                    let i = choose|i: int| 0 <= i < ov.len() && ov[i].0 == a;
                    if i < p {
                        assert(rv[i].0 == a);
                    } else {
                        assert(rv[i + 1].0 == a);
                    }
                }
            }
        }
    }
}

impl SourceMap for DwarfSourceMap {
    /// The location of the row that holds `offset`, with the directory
    /// rewrites applied.
    fn find_line_info(&self, offset: usize) -> (r: Option<LineInfo>)
        ensures
            line_found(*self, offset, r),
    {
        proof { use_type_invariant(self); }
        let ghost rows = self.spec_rows();
        let off: u64 = offset as u64;
        let mut lo: usize = 0;
        let mut hi: usize = self.address_sorted_rows.len();
        while lo < hi
            invariant
                lo <= hi <= rows.len(),
                rows.len() == self.address_sorted_rows@.len(),
                rows == self.spec_rows(),
                strictly_sorted(rows),
                forall|i: int| 0 <= i < lo ==> rows[i].0 <= off,
                forall|i: int| hi <= i < rows.len() ==> rows[i].0 > off,
            decreases hi - lo,
        {
            let mid = lo + (hi - lo) / 2;
            proof { assert(rows[mid as int].0 == self.address_sorted_rows@[mid as int].0); }
            if self.address_sorted_rows[mid].0 <= off {
                lo = mid + 1;
            } else {
                hi = mid;
            }
        }
        if lo == 0 {
            return None;
        }
        let i = lo - 1;
        let row = &self.address_sorted_rows[i].1;
        proof { assert(rows[i as int].1 == row@); }
        let mut path: String = row.filepath.clone();
        let mut d: usize = 0;
        proof { assert(self.spec_dirs().subrange(0, self.spec_dirs().len() as int) =~= self.spec_dirs()); }
        while d < self.directory_map.len()
            invariant
                d <= self.directory_map@.len(),
                apply_dirs(path@, self.spec_dirs().subrange(d as int, self.spec_dirs().len() as int))
                    == apply_dirs(row.filepath@, self.spec_dirs()),
            decreases self.directory_map@.len() - d,
        {
            let ghost rest = self.spec_dirs().subrange(d as int, self.spec_dirs().len() as int);
            proof {
                assert(rest[0] == (self.directory_map@[d as int].0@, self.directory_map@[d as int].1@));
                assert(rest.drop_first() =~= self.spec_dirs().subrange(d + 1, self.spec_dirs().len() as int));
            }
            path = str_replace(path.as_str(), self.directory_map[d].0.as_str(), self.directory_map[d].1.as_str());
            d = d + 1;
        }
        proof {
            assert(self.spec_dirs().subrange(0, self.spec_dirs().len() as int) =~= self.spec_dirs());
            assert(self.spec_dirs().subrange(d as int, self.spec_dirs().len() as int) =~= Seq::<(Seq<char>, Seq<char>)>::empty());
        }
        Some(LineInfo { filepath: path, line: row.line, column: row.column })
    }

    /// Rewrites `from` to `to`; a later rewrite of the same directory
    /// replaces the earlier one.
    fn set_directory_map(&mut self, from: String, to: String)
        ensures
            directory_mapped(*old(self), *final(self), from@, to@),
    {
        proof { use_type_invariant(&*self); }
        let mut i: usize = 0;
        while i < self.directory_map.len()
            invariant
                i <= self.directory_map@.len(),
                forall|k: int| 0 <= k < i ==> self.spec_dirs()[k].0 != from@,
                *self == *old(self),
                self.wf(),
            decreases self.directory_map@.len() - i,
        {
            if str_eq(self.directory_map[i].0.as_str(), from.as_str()) {
                let ghost fv = from@;
                let ghost tv = to@;
                proof { assert(old(self).spec_dirs()[i as int].0 == fv); }
                let mut dirs: Vec<(String, String)> = Vec::new();
                std::mem::swap(&mut dirs, &mut self.directory_map);
                dirs.set(i, (from, to));
                proof {
                    assert(dirs_view(dirs@) =~= old(self).spec_dirs().update(i as int, (fv, tv)));
                    assert forall|a: int, b: int| 0 <= a < b < dirs@.len() implies dirs_view(dirs@)[a].0 != dirs_view(dirs@)[b].0 by {
                        if a != i && b != i {
                            assert(old(self).spec_dirs()[a].0 != old(self).spec_dirs()[b].0);
                        } else if a == i {
                            assert(old(self).spec_dirs()[a].0 != old(self).spec_dirs()[b].0);
                        } else {
                            assert(old(self).spec_dirs()[a].0 != old(self).spec_dirs()[b].0);
                        }
                    }
                }
                self.directory_map = dirs;
                return;
            }
            i = i + 1;
        }
        let ghost fv = from@;
        let ghost tv = to@;
        let mut dirs: Vec<(String, String)> = Vec::new();
                std::mem::swap(&mut dirs, &mut self.directory_map);
        dirs.push((from, to));
        proof {
            assert(dirs_view(dirs@) =~= old(self).spec_dirs().push((fv, tv)));
        }
        self.directory_map = dirs;
    }
}


// ---------------------------------------------------------------- subroutines

/// A subroutine or lexical block: its name, the code range `[low, high)` it
/// covers, where its entry and unit lie in the debug information, how its
/// unit is encoded, and its frame base.
#[derive(Clone, Debug)]
pub struct Subroutine {
    pub name: Option<String>,
    pub low_pc: u64,
    pub high_pc: u64,
    pub entry_offset: usize,
    pub unit_offset: usize,
    pub encoding: DwarfEncoding,
    pub frame_base: Option<WasmLoc>,
}

/// A subroutine as plain values.
pub struct SubroutineView {
    pub name: Option<Seq<char>>,
    pub low_pc: u64,
    pub high_pc: u64,
    pub entry_offset: usize,
    pub unit_offset: usize,
    pub encoding: DwarfEncoding,
    pub frame_base: Option<WasmLoc>,
}

impl View for Subroutine {
    type V = SubroutineView;

    open spec fn view(&self) -> SubroutineView {
        SubroutineView {
            name: match self.name { Some(n) => Some(n@), None => None },
            low_pc: self.low_pc,
            high_pc: self.high_pc,
            entry_offset: self.entry_offset,
            unit_offset: self.unit_offset,
            encoding: self.encoding,
            frame_base: self.frame_base,
        }
    }
}

impl Subroutine {
    pub open spec fn spec_contains(&self, offset: u64) -> bool {
        self.low_pc <= offset < self.high_pc
    }

    /// Whether the subroutine's code holds `offset`.
    pub fn contains(&self, offset: u64) -> (r: bool)
        ensures
            r == self.spec_contains(offset),
    {
        self.low_pc <= offset && offset < self.high_pc
    }
}

/// The first of `subs` whose code holds `offset`.
pub open spec fn first_containing(subs: Seq<Subroutine>, offset: u64) -> Option<int> {
    if exists|i: int| 0 <= i < subs.len() && (#[trigger] subs[i]).spec_contains(offset) {
        Some(choose|i: int| 0 <= i < subs.len() && (#[trigger] subs[i]).spec_contains(offset)
            && forall|j: int| 0 <= j < i ==> !(#[trigger] subs[j]).spec_contains(offset))
    } else {
        None
    }
}

/// The subroutines of a module, in the order of the debug information, and
/// the entries of its units, which their variables are read from.
pub struct DwarfSubroutineMap {
    pub subroutines: Vec<Subroutine>,
    pub units: Vec<UnitEntries>,
    /// The types of all units, by the offset of their entries.
    pub type_hash: HashMap<usize, TypeInfo>,
}

/// The entries of a compilation unit: its offset in the debug information,
/// its encoding, and the tree of its entries.
#[derive(Debug)]
pub struct UnitEntries {
    pub offset: usize,
    pub encoding: DwarfEncoding,
    pub root: Die,
}

impl DwarfSubroutineMap {
    /// The index of the first subroutine whose code holds `code_offset`.
    pub fn find_subroutine(&self, code_offset: usize) -> (r: Option<usize>)
        ensures
            match r {
                Some(i) => i < self.subroutines@.len() && self.subroutines@[i as int].spec_contains(code_offset as u64)
                    && forall|j: int| 0 <= j < i ==> !(#[trigger] self.subroutines@[j]).spec_contains(code_offset as u64),
                None => forall|j: int| 0 <= j < self.subroutines@.len() ==> !(#[trigger] self.subroutines@[j]).spec_contains(code_offset as u64),
            },
    {
        let offset = code_offset as u64;
        let mut i: usize = 0;
        while i < self.subroutines.len()
            invariant
                i <= self.subroutines@.len(),
                offset == code_offset as u64,
                forall|j: int| 0 <= j < i ==> !(#[trigger] self.subroutines@[j]).spec_contains(offset),
            decreases self.subroutines@.len() - i,
        {
            if self.subroutines[i].contains(offset) {
                return Some(i);
            }
            i = i + 1;
        }
        None
    }

    /// The frame base of the subroutine that holds `code_offset`.
    pub fn get_frame_base(&self, code_offset: usize) -> (r: Result<Option<WasmLoc>, DwarfError>)
        ensures
            match first_containing(self.subroutines@, code_offset as u64) {
                Some(i) => r == Ok::<Option<WasmLoc>, DwarfError>(self.subroutines@[i].frame_base),
                None => r == Err::<Option<WasmLoc>, DwarfError>(DwarfError::NoSubroutine),
            },
    {
        match self.find_subroutine(code_offset) {
            Some(i) => {
                proof {
                    let subs = self.subroutines@;
                    let o = code_offset as u64;
                    let c = choose|k: int| 0 <= k < subs.len() && (#[trigger] subs[k]).spec_contains(o)
                        && forall|j: int| 0 <= j < k ==> !(#[trigger] subs[j]).spec_contains(o);
                    assert(subs[i as int].spec_contains(o));
                    if c < i {
                    } else if c > i {
                        assert(!subs[i as int].spec_contains(o));
                    }
                }
                Ok(self.subroutines[i].frame_base)
            },
            None => Err(DwarfError::NoSubroutine),
        }
    }
}


/// In strictly sorted rows, the address of a row finds that row.
pub proof fn lemma_row_finds_itself(rows: Seq<(u64, LineInfoView)>, i: int)
    requires
        strictly_sorted(rows),
        0 <= i < rows.len(),
    ensures
        floor_row(rows, rows[i].0, i),
        forall|j: int| floor_row(rows, rows[i].0, j) ==> j == i,
{
    assert forall|j: int| floor_row(rows, rows[i].0, j) implies j == i by {
        if j < i {
            assert(rows[j + 1].0 <= rows[i].0) by {
                if j + 1 < i {
                    assert(rows[j + 1].0 < rows[i].0);
                }
            }
        } else if j > i {
            assert(rows[i].0 < rows[j].0);
        }
    }
}

} // verus!
