//! The `list` command.

use vstd::prelude::*;
use vstd::string::StringExecFns;
use crate::cli::commands::command::Command;
use crate::cli::commands::sourcemap::ColumnType;
use crate::text::{dec, push_radix, string_push};
use crate::cli::commands::sourcemap::{LineInfo, SourceMap};
use crate::cli::dwarf::DwarfSourceMap;
use crate::debugger::dwarf::floor_row;
use crate::vm::instruction::Instruction;

verus! {

pub struct ListCommand {}

impl ListCommand {
    pub fn new() -> Self {
        Self {}
    }
}

impl Command for ListCommand {
    fn name(&self) -> (r: &'static str)
        ensures
            r@ == "list"@,
    {
        "list"
    }

    fn description(&self) -> (r: &'static str)
        ensures
            r@ == "No description yet"@,
    {
        "No description yet"
    }
}

/// `s` padded with spaces on the right to at least 4 characters.
pub open spec fn pad4(s: Seq<char>) -> Seq<char> {
    if s.len() >= 4 { s } else { s + Seq::new((4 - s.len()) as nat, |_i: int| ' ') }
}

/// The line with its character at column `col` (from 1) underlined.
pub open spec fn underline(line: Seq<char>, col: u64) -> Seq<char>
    decreases line.len(),
{
    if line.len() == 0 {
        Seq::empty()
    } else {
        underline(line.drop_last(), col) + (if line.len() == col {
            "\x1B[4m"@ + seq![line.last()] + "\x1B[0m"@
        } else {
            seq![line.last()]
        })
    }
}

/// How line `index` (from 1) of a source file shows: marked, and with the
/// column underlined, when it is the current line.
pub open spec fn spec_source_line(index: usize, line: Seq<char>, current: Option<u64>, column: ColumnType) -> Seq<char> {
    if current == Some(index as u64) {
        "-> "@ + pad4(dec(index as nat)) + " "@ + match column {
            ColumnType::Column(c) => underline(line, c),
            ColumnType::LeftEdge => line,
        }
    } else {
        "   "@ + pad4(dec(index as nat)) + " "@ + line
    }
}

fn push_padded_index(s: &mut String, index: usize)
    requires
        old(s)@.len() < 16,
    ensures
        final(s)@ == old(s)@ + pad4(dec(index as nat)),
{
    let ghost start = s@;
    let n0 = s.unicode_len();
    push_radix(s, index as u128, 10);
    let n = s.unicode_len();
    let ghost digits = dec(index as nat);
    let mut k: usize = n;
    assert(s@ == start + digits);
    while k - n0 < 4
        invariant
            n0 == start.len(),
            n0 < 16,
            n == start.len() + digits.len(),
            n <= k,
            k - n0 <= 4 || k == n,
            s@ == start + digits + Seq::new((k - n) as nat, |_i: int| ' '),
        decreases 4 - (k - n0),
    {
        string_push(s, ' ');
        k = k + 1;
        assert(s@ =~= start + digits + Seq::new((k - n) as nat, |_i: int| ' '));
    }
    proof {
        if digits.len() >= 4 {
            assert(Seq::new((k - n) as nat, |_i: int| ' ') =~= Seq::<char>::empty());
            assert(s@ =~= start + digits);
        } else {
            assert(s@ =~= start + (digits + Seq::new((4 - digits.len()) as nat, |_i: int| ' ')));
        }
    }
}

/// Line `index` (from 1) of a source file as it shows.
pub fn display_source_line(index: usize, line: &str, current: Option<u64>, column: ColumnType) -> (r: String)
    ensures
        r@ == spec_source_line(index, line@, current, column),
{
    let is_current = match current {
        Some(l) => l == index as u64,
        None => false,
    };
    let mut s = String::new();
    if is_current {
        s.append("-> ");
    } else {
        s.append("   ");
    }
    proof {
        reveal_strlit("-> ");
        reveal_strlit("   ");
    }
    push_padded_index(&mut s, index);
    s.append(" ");
    let ghost head = s@;
    match (is_current, column) {
        (true, ColumnType::Column(col)) => {
            let n = line.unicode_len();
            let mut i: usize = 0;
            while i < n
                invariant
                    n == line@.len(),
                    i <= n,
                    s@ == head + underline(line@.subrange(0, i as int), col),
                decreases n - i,
            {
                let c = line.get_char(i);
                proof {
                    let pre = line@.subrange(0, i + 1);
                    assert(pre.drop_last() =~= line@.subrange(0, i as int));
                    assert(pre.last() == c);
                }
                if (i as u64) + 1 == col {
                    s.append("\x1B[4m");
                    string_push(&mut s, c);
                    s.append("\x1B[0m");
                } else {
                    string_push(&mut s, c);
                }
                i = i + 1;
                proof {
                    let pre = line@.subrange(0, i as int);
                    assert(s@ =~= head + underline(pre, col));
                }
            }
            proof {
                assert(line@.subrange(0, n as int) =~= line@);
            }
        },
        _ => {
            s.append(line);
        },
    }
    s
}


/// The index of the instruction last run, given the next one's.
pub open spec fn last_run(next_index: usize) -> int {
    if next_index == 0 { 0 } else { next_index - 1 }
}

/// The source location of the instruction last run; none when the source
/// map knows none.
pub fn current_line_info(insts: &[Instruction], next_index: usize, sourcemap: &DwarfSourceMap) -> (r: Option<LineInfo>)
    requires
        last_run(next_index) < insts@.len(),
    ensures
        ({
            let offset = insts@[last_run(next_index)].offset;
            let rows = sourcemap.spec_rows();
            sourcemap.spec_no_dirs() ==> match r {
                None => forall|i: int| 0 <= i < rows.len() ==> rows[i].0 > offset,
                Some(li) => exists|i: int| #![trigger rows[i]] floor_row(rows, offset as u64, i)
                    && li.filepath@ == rows[i].1.filepath && li.line == rows[i].1.line && li.column == rows[i].1.column,
            }
        }),
{
    let current_index = if next_index == 0 { 0 } else { next_index - 1 };
    sourcemap.find_line_info(insts[current_index].offset)
}

} // verus!
