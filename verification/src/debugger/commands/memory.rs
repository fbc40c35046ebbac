//! The `memory` command: reading memory as hex and text.

use vstd::prelude::*;
use crate::debugger::commands::command::{Command, CommandError};
use crate::debugger::commands::debugger::DebuggerOpts;
use crate::text::{parse_i64, spec_parse_i64, string_push};

verus! {

pub struct MemoryCommand {}

impl MemoryCommand {
    pub fn new() -> Self {
        Self {}
    }
}

impl Command for MemoryCommand {
    fn name(&self) -> (r: &'static str)
        ensures
            r@ == "memory"@,
    {
        "memory"
    }

    fn description(&self) -> (r: &'static str)
        ensures
            r@ == "Commands for operating on memory."@,
    {
        "Commands for operating on memory."
    }
}

/// The options of `memory`.
#[derive(Clone, Debug)]
pub enum MemoryOpts {
    /// Read `count` bytes from `address`.
    Read { address: String, count: u32 },
    /// Watch stores to memory.
    EnableWatch,
}

/// `s` without all of its leading `0x`.
pub open spec fn strip_0x(s: Seq<char>) -> Seq<char>
    decreases s.len(),
{
    if s.len() >= 2 && s[0] == '0' && s[1] == 'x' {
        strip_0x(s.subrange(2, s.len() as int))
    } else {
        s
    }
}

/// An address: hexadecimal after a leading `0x`, else decimal.
pub open spec fn spec_parse_address(s: Seq<char>) -> Option<i64> {
    if s.len() >= 2 && s[0] == '0' && s[1] == 'x' {
        spec_parse_i64(strip_0x(s), 16)
    } else {
        spec_parse_i64(s, 10)
    }
}

/// Parses an address: hexadecimal after a leading `0x` (every leading `0x`
/// is dropped), else decimal.
pub fn parse_address(address: &str) -> (r: Result<i64, CommandError>)
    ensures
        match spec_parse_address(address@) {
            Some(v) => r == Ok::<i64, CommandError>(v),
            None => r matches Err(CommandError::InvalidNumber(s)) && s@ == address@,
        },
{
    let n = address.unicode_len();
    let hex = n >= 2 && address.get_char(0) == '0' && address.get_char(1) == 'x';
    let parsed = if hex {
        let mut k: usize = 0;
        proof { assert(address@.subrange(0, n as int) =~= address@); }
        while k < n && n - k >= 2 && address.get_char(k) == '0' && address.get_char(k + 1) == 'x'
            invariant
                n == address@.len(),
                k <= n,
                k % 2 == 0,
                strip_0x(address@) == strip_0x(address@.subrange(k as int, n as int)),
            decreases n - k,
        {
            proof {
                let t = address@.subrange(k as int, n as int);
                assert(t[0] == '0' && t[1] == 'x');
                assert(t.subrange(2, t.len() as int) =~= address@.subrange(k + 2, n as int));
            }
            k = k + 2;
        }
        proof {
            let t = address@.subrange(k as int, n as int);
            if t.len() >= 2 {
                assert(t[0] == address@[k as int] && t[1] == address@[k + 1]);
            }
        }
        let rest = address.substring_char(k, n);
        parse_i64(rest, 16)
    } else {
        parse_i64(address, 10)
    };
    match parsed {
        Some(v) => Ok(v),
        None => Err(CommandError::InvalidNumber(address.to_owned())),
    }
}

/// How a byte shows as text: itself when printable ASCII, else `.`.
pub open spec fn shown_char(b: u8) -> char {
    if 0x1f < b && b < 0x7f { b as char } else { '.' }
}

/// How a dump shows bytes (the text `dump_memory_as_str` gives): each as its
/// own character when it is printable ASCII (`0x20` to `0x7e`), and every
/// other byte, control characters, DEL and all bytes from `0x80` on, as `.`;
/// one character for each byte.
pub proof fn lemma_dump_shows_printable_ascii(bytes: Seq<u8>, text: Seq<char>)
    requires
        text == bytes.map_values(|b: u8| shown_char(b)),
    ensures
        text.len() == bytes.len(),
        forall|i: int| 0 <= i < bytes.len() && 0x20 <= bytes[i] && bytes[i] <= 0x7e ==> #[trigger] text[i] == bytes[i] as char,
        forall|i: int| 0 <= i < bytes.len() && (bytes[i] < 0x20 || bytes[i] >= 0x7f) ==> #[trigger] text[i] == '.',
{
}

/// The bytes as text, one character each.
pub fn dump_memory_as_str(bytes: &[u8]) -> (r: String)
    ensures
        r@ == bytes@.map_values(|b: u8| shown_char(b)),
{
    let mut s = String::new();
    let mut i: usize = 0;
    while i < bytes.len()
        invariant
            i <= bytes@.len(),
            s@ == bytes@.subrange(0, i as int).map_values(|b: u8| shown_char(b)),
        decreases bytes@.len() - i,
    {
        let b = bytes[i];
        let c: char = if 0x1f < b && b < 0x7f { b as char } else { '.' };
        string_push(&mut s, c);
        i = i + 1;
        assert(s@ =~= bytes@.subrange(0, i as int).map_values(|b: u8| shown_char(b)));
    }
    assert(bytes@.subrange(0, i as int) =~= bytes@);
    s
}

/// A line of a memory dump: its address, its bytes and their text.
#[derive(Clone, Debug)]
pub struct MemoryRow {
    pub address: usize,
    pub bytes: Vec<u8>,
    pub text: String,
}

/// The number of bytes per line of a dump.
pub const CHUNK_SIZE: usize = 16;

/// What the lines of a dump of `memory[begin..end]` hold, 16 bytes each.
pub open spec fn rows_of(rows: Seq<MemoryRow>, memory: Seq<u8>, begin: int, end: int) -> bool {
    &&& rows.len() == (end - begin + 15) / 16
    &&& forall|k: int| 0 <= k < rows.len() ==> {
        let a = begin + k * 16;
        let b = if a + 16 <= end { a + 16 } else { end };
        &&& (#[trigger] rows[k]).address == a
        &&& rows[k].bytes@ == memory.subrange(a, b)
        &&& rows[k].text@ == memory.subrange(a, b).map_values(|x: u8| shown_char(x))
    }
}

/// The dump of `memory[begin..end]`, in lines of 16 bytes.
pub fn memory_rows(memory: &[u8], begin: usize, end: usize) -> (r: Vec<MemoryRow>)
    requires
        begin <= end <= memory@.len(),
    ensures
        rows_of(r@, memory@, begin as int, end as int),
{
    let mut rows: Vec<MemoryRow> = Vec::new();
    let mut a: usize = begin;
    while a < end
        invariant
            begin <= end <= memory@.len(),
            begin <= a <= end,
            a == (if begin + rows@.len() * 16 <= end { begin + rows@.len() * 16 } else { end as int }),
            rows@.len() == 0 || begin + (rows@.len() - 1) * 16 < end,
            forall|k: int| 0 <= k < rows@.len() ==> {
                let x = begin + k * 16;
                let y = if x + 16 <= end { x + 16 } else { end as int };
                &&& (#[trigger] rows@[k]).address == x
                &&& rows@[k].bytes@ == memory@.subrange(x, y)
                &&& rows@[k].text@ == memory@.subrange(x, y).map_values(|z: u8| shown_char(z))
            },
        decreases end - a,
    {
        let b = if end - a >= CHUNK_SIZE { a + CHUNK_SIZE } else { end };
        let mut bytes: Vec<u8> = Vec::new();
        let mut i: usize = a;
        while i < b
            invariant
                a <= i <= b,
                b <= memory@.len(),
                bytes@ == memory@.subrange(a as int, i as int),
            decreases b - i,
        {
            bytes.push(memory[i]);
            i = i + 1;
            assert(bytes@ =~= memory@.subrange(a as int, i as int));
        }
        let text = dump_memory_as_str(bytes.as_slice());
        let ghost len0 = rows@.len();
        assert(a == begin + len0 * 16);
        rows.push(MemoryRow { address: a, bytes, text });
        proof {
            assert(begin + (len0 + 1) * 16 == a + 16) by (nonlinear_arith)
                requires a == begin + len0 * 16;
        }
        a = b;
    }
    proof {
        let n = rows@.len();
        assert(n == (end - begin + 15) / 16) by (nonlinear_arith)
            requires
                begin + n * 16 >= end,
                n == 0 || begin + (n - 1) * 16 < end,
                begin <= end,
                n >= 0;
    }
    rows
}

/// The dump of `count` bytes of `memory` from `address`, in lines of 16
/// bytes; an error when the range does not end before the end of memory.
pub fn read_memory(memory: &[u8], address: i64, count: u32) -> (r: Result<Vec<MemoryRow>, CommandError>)
    requires
        (address as usize) + count <= usize::MAX,
    ensures
        ({
            let begin = address as usize;
            let end = begin + count;
            if memory@.len() <= end {
                r == Err::<Vec<MemoryRow>, CommandError>(CommandError::OutOfRange(end as usize, memory@.len() as usize))
            } else {
                r matches Ok(rows) && rows_of(rows@, memory@, begin as int, end)
            }
        }),
{
    let begin = address as usize;
    let end = begin + (count as usize);
    if memory.len() <= end {
        return Err(CommandError::OutOfRange(end, memory.len()));
    }
    Ok(memory_rows(memory, begin, end))
}

/// `memory enable-watch`: the options with memory watched.
pub fn enable_watch(opts: DebuggerOpts) -> (r: DebuggerOpts)
    ensures
        r.watch_memory,
{
    DebuggerOpts { watch_memory: true, ..opts }
}

} // verus!
