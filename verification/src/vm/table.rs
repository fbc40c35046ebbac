//! Tables of function references.

use vstd::prelude::*;
use crate::vm::address::FuncAddr;
use crate::text::{dec, push_radix};
use vstd::string::StringExecFns;

verus! {

/// Errors of table accesses.
#[derive(Clone, Copy, Debug, PartialEq, Eq, Structural)]
pub enum Error {
    /// The index accessed (when it fits in `usize`) and the size of the table.
    AccessOutOfBounds(Option<usize>, usize),
    /// An element that was never initialized.
    UninitializedElement(usize),
}

impl Error {
    /// The text the error is shown as.
    pub open spec fn spec_message(self) -> Seq<char> {
        match self {
            Error::AccessOutOfBounds(Some(addr), size) =>
                "undefined element, try to access "@ + dec(addr as nat) + " but size of memory is "@ + dec(size as nat),
            Error::AccessOutOfBounds(None, size) =>
                "undefined element, try to access over size of usize but size of memory is "@ + dec(size as nat),
            Error::UninitializedElement(addr) => "uninitialized element, try to access "@ + dec(addr as nat),
        }
    }

    pub fn message(&self) -> (r: String)
        ensures
            r@ == self.spec_message(),
    {
        let mut s = String::new();
        match self {
            Error::AccessOutOfBounds(Some(addr), size) => {
                s.append("undefined element, try to access ");
                push_radix(&mut s, *addr as u128, 10);
                s.append(" but size of memory is ");
                push_radix(&mut s, *size as u128, 10);
            },
            Error::AccessOutOfBounds(None, size) => {
                s.append("undefined element, try to access over size of usize but size of memory is ");
                push_radix(&mut s, *size as u128, 10);
            },
            Error::UninitializedElement(addr) => {
                s.append("uninitialized element, try to access ");
                push_radix(&mut s, *addr as u128, 10);
            },
        }
        proof {
            reveal_strlit("undefined element, try to access ");
            reveal_strlit(" but size of memory is ");
            reveal_strlit("undefined element, try to access over size of usize but size of memory is ");
            reveal_strlit("uninitialized element, try to access ");
        }
        s
    }
}

/// A table of optional function addresses.
pub struct DefinedTableInstance {
    buffer: Vec<Option<FuncAddr>>,
    max: Option<usize>,
    initial: usize,
}

impl DefinedTableInstance {
    pub closed spec fn spec_buffer(&self) -> Seq<Option<FuncAddr>> {
        self.buffer@
    }

    pub closed spec fn spec_max(&self) -> Option<usize> {
        self.max
    }

    pub closed spec fn spec_initial(&self) -> usize {
        self.initial
    }

    /// A table of `initial` uninitialized elements.
    pub fn new(initial: usize, maximum: Option<usize>) -> (t: Self)
        ensures
            t.spec_buffer() == Seq::new(initial as nat, |_i: int| None::<FuncAddr>),
            t.spec_initial() == initial,
            t.spec_max() == maximum,
    {
        let mut buffer: Vec<Option<FuncAddr>> = Vec::new();
        let mut i: usize = 0;
        while i < initial
            invariant
                i <= initial,
                buffer@ == Seq::new(i as nat, |_i: int| None::<FuncAddr>),
            decreases initial - i,
        {
            buffer.push(None);
            i = i + 1;
            assert(buffer@ =~= Seq::new(i as nat, |_i: int| None::<FuncAddr>));
        }
        DefinedTableInstance { buffer, initial, max: maximum }
    }

    /// Writes `data` into the table from `offset` on.
    pub fn initialize(&mut self, offset: usize, data: Vec<FuncAddr>) -> (r: Result<(), Error>)
        ensures
            final(self).spec_max() == old(self).spec_max(),
            final(self).spec_initial() == old(self).spec_initial(),
            match r {
                Ok(_) => offset + data@.len() <= old(self).spec_buffer().len()
                    && final(self).spec_buffer() == old(self).spec_buffer().subrange(0, offset as int)
                        + data@.map_values(|a: FuncAddr| Some(a))
                        + old(self).spec_buffer().subrange(offset + data@.len(), old(self).spec_buffer().len() as int),
                Err(e) => final(self).spec_buffer() == old(self).spec_buffer()
                    && offset + data@.len() > old(self).spec_buffer().len()
                    && e == (if offset + data@.len() > usize::MAX {
                        Error::AccessOutOfBounds(None, old(self).spec_buffer().len() as usize)
                    } else {
                        Error::AccessOutOfBounds(Some((offset + data@.len()) as usize), old(self).spec_buffer().len() as usize)
                    }),
            },
    {
        let end: usize = match offset.checked_add(data.len()) {
            Some(max_addr) => {
                if max_addr > self.buffer_len() {
                    return Err(Error::AccessOutOfBounds(Some(max_addr), self.buffer_len()));
                }
                max_addr
            },
            None => {
                return Err(Error::AccessOutOfBounds(None, self.buffer_len()));
            },
        };
        let mut index: usize = 0;
        while index < data.len()
            invariant
                index <= data@.len(),
                offset + data@.len() == end,
                offset + data@.len() <= old(self).buffer@.len(),
                self.max == old(self).max,
                self.initial == old(self).initial,
                self.buffer@ == old(self).buffer@.subrange(0, offset as int)
                    + data@.subrange(0, index as int).map_values(|a: FuncAddr| Some(a))
                    + old(self).buffer@.subrange(offset + index, old(self).buffer@.len() as int),
            decreases data@.len() - index,
        {
            let ghost prev = self.buffer@;
            self.buffer.set(offset + index, Some(data[index]));
            assert(self.buffer@ == prev.update(offset + index, Some(data@[index as int])));
            index = index + 1;
            assert(self.buffer@ =~= old(self).buffer@.subrange(0, offset as int)
                + data@.subrange(0, index as int).map_values(|a: FuncAddr| Some(a))
                + old(self).buffer@.subrange(offset + index, old(self).buffer@.len() as int));
        }
        assert(data@.subrange(0, index as int) =~= data@);
        Ok(())
    }

    /// The number of elements.
    pub fn buffer_len(&self) -> (n: usize)
        ensures
            n == self.spec_buffer().len(),
    {
        self.buffer.len()
    }

    /// The function at an index.
    pub fn get_at(&self, index: usize) -> (r: Result<FuncAddr, Error>)
        ensures
            r == (if index >= self.spec_buffer().len() {
                Err(Error::AccessOutOfBounds(Some(index), self.spec_buffer().len() as usize))
            } else {
                match self.spec_buffer()[index as int] {
                    Some(a) => Ok(a),
                    None => Err(Error::UninitializedElement(index)),
                }
            }),
    {
        if index >= self.buffer.len() {
            return Err(Error::AccessOutOfBounds(Some(index), self.buffer_len()));
        }
        match self.buffer[index] {
            Some(addr) => Ok(addr),
            None => Err(Error::UninitializedElement(index)),
        }
    }
}

/// What `initialize` writes, `get_at` reads back: after a successful
/// initialization, each index in the written range holds the address written
/// there, and every other index holds what it held before.
pub proof fn lemma_table_read_after_initialize(
    before: Seq<Option<FuncAddr>>,
    after: Seq<Option<FuncAddr>>,
    offset: int,
    data: Seq<FuncAddr>,
    i: int,
)
    requires
        0 <= offset,
        offset + data.len() <= before.len(),
        after == before.subrange(0, offset) + data.map_values(|a: FuncAddr| Some(a))
            + before.subrange(offset + data.len(), before.len() as int),
        0 <= i < before.len(),
    ensures
        after.len() == before.len(),
        offset <= i < offset + data.len() ==> after[i] == Some(data[i - offset]),
        !(offset <= i < offset + data.len()) ==> after[i] == before[i],
{
}

} // verus!
