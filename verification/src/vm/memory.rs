//! Linear memory: a byte array of whole pages, read and written little-endian.

use vstd::prelude::*;

verus! {

/// The size of a page of linear memory.
pub const WASM_PAGE_SIZE: usize = 65536;

/// The largest number of pages a memory can have.
pub const WASM_MAX_PAGES: usize = 65536;

/// Errors of memory accesses.
#[derive(Clone, Copy, Debug, PartialEq, Eq, Structural)]
pub enum Error {
    /// The end of the access (when it fits in `usize`) and the size of memory.
    AccessOutOfBounds(Option<usize>, usize),
    /// The page count that a grow would reach, beyond the declared maximum.
    GrowOverMaximumSize(usize),
    /// The page count that a grow would reach, beyond what any memory may have.
    GrowOverMaximumPageSize(usize),
}

/// The number that bytes encode, least significant first.
pub open spec fn le_value(s: Seq<u8>) -> nat
    decreases s.len(),
{
    if s.len() == 0 {
        0
    } else {
        s[0] as nat + 256 * le_value(s.drop_first())
    }
}

/// The `n` least significant bytes of `x`, least significant first.
pub open spec fn le_bytes(x: nat, n: nat) -> Seq<u8>
    decreases n,
{
    if n == 0 {
        Seq::empty()
    } else {
        seq![(x % 256) as u8] + le_bytes(x / 256, (n - 1) as nat)
    }
}

/// `256` to the power `n`.
pub open spec fn pow256(n: nat) -> nat
    decreases n,
{
    if n == 0 {
        1
    } else {
        256 * pow256((n - 1) as nat)
    }
}

/// Reading back what was written: the bytes of `x` encode `x` modulo
/// `256^n`.
pub proof fn lemma_le_roundtrip(x: nat, n: nat)
    ensures
        le_bytes(x, n).len() == n,
        le_value(le_bytes(x, n)) == x % pow256(n),
    decreases n,
{
    if n > 0 {
        lemma_le_roundtrip(x / 256, (n - 1) as nat);
        let b = le_bytes(x, n);
        assert(b.drop_first() =~= le_bytes(x / 256, (n - 1) as nat));
        let p = pow256((n - 1) as nat);
        assert(p > 0) by { lemma_pow256_positive((n - 1) as nat); }
        assert((x % 256) + 256 * ((x / 256) % p) == x % (256 * p)) by (nonlinear_arith)
            requires
                p > 0,
        {
            vstd::arithmetic::div_mod::lemma_breakdown(x as int, 256, p as int);
        }
    }
}

proof fn lemma_pow256_positive(n: nat)
    ensures
        pow256(n) > 0,
    decreases n,
{
    if n > 0 {
        lemma_pow256_positive((n - 1) as nat);
    }
}

/// The value of `n` bytes is below `256^n`.
pub proof fn lemma_le_value_bound(s: Seq<u8>)
    ensures
        le_value(s) < pow256(s.len()),
    decreases s.len(),
{
    if s.len() > 0 {
        lemma_le_value_bound(s.drop_first());
        let p = pow256((s.len() - 1) as nat);
        let v = le_value(s.drop_first());
        let b = s[0] as nat;
        assert(b + 256 * v < 256 * p) by (nonlinear_arith)
            requires
                v < p,
                b < 256,
        ;
    }
}

proof fn lemma_pow256_8()
    ensures
        pow256(8) == 0x1_0000_0000_0000_0000,
        pow256(4) == 0x1_0000_0000,
        pow256(2) == 0x1_0000,
        pow256(1) == 0x100,
{
    reveal_with_fuel(pow256, 9);
}

/// Decodes up to eight bytes, least significant first.
pub fn le_decode(bytes: &[u8]) -> (r: u64)
    requires
        bytes@.len() <= 8,
    ensures
        r == le_value(bytes@),
{
    let mut acc: u64 = 0;
    let mut i: usize = bytes.len();
    proof {
        lemma_pow256_8();
        lemma_le_value_bound(bytes@);
    }
    while i > 0
        invariant
            i <= bytes@.len() <= 8,
            acc == le_value(bytes@.subrange(i as int, bytes@.len() as int)),
            pow256(8) == 0x1_0000_0000_0000_0000,
        decreases i,
    {
        let ghost tail = bytes@.subrange(i as int, bytes@.len() as int);
        let ghost next = bytes@.subrange(i - 1, bytes@.len() as int);
        assert(next.drop_first() =~= tail);
        proof {
            lemma_le_value_bound(next);
            lemma_pow256_monotone(next.len(), 8);
        }
        acc = acc * 256 + bytes[i - 1] as u64;
        i = i - 1;
    }
    assert(bytes@.subrange(0, bytes@.len() as int) =~= bytes@);
    acc
}

proof fn lemma_pow256_monotone(a: nat, b: nat)
    requires
        a <= b,
    ensures
        pow256(a) <= pow256(b),
    decreases b,
{
    if a < b {
        lemma_pow256_monotone(a, (b - 1) as nat);
        lemma_pow256_positive((b - 1) as nat);
    }
}

/// Encodes the `n` least significant bytes of `x`, least significant first.
pub fn le_encode(x: u64, n: usize) -> (r: Vec<u8>)
    requires
        n <= 8,
    ensures
        r@ == le_bytes(x as nat, n as nat),
{
    let mut out: Vec<u8> = Vec::new();
    let mut rest: u64 = x;
    let mut k: usize = 0;
    while k < n
        invariant
            k <= n,
            out@ + le_bytes(rest as nat, (n - k) as nat) == le_bytes(x as nat, n as nat),
        decreases n - k,
    {
        let ghost before = le_bytes(rest as nat, (n - k) as nat);
        assert(before == seq![(rest as nat % 256) as u8] + le_bytes(rest as nat / 256, (n - k - 1) as nat));
        out.push((rest % 256) as u8);
        rest = rest / 256;
        k = k + 1;
        assert(out@ + le_bytes(rest as nat, (n - k) as nat) =~= le_bytes(x as nat, n as nat));
    }
    assert(out@ + le_bytes(rest as nat, 0) =~= out@);
    out
}

/// What a store of `bytes` at `offset` does: on success the bytes replace
/// those at `offset`; on failure nothing changes and the error tells how far
/// the access reached.
pub open spec fn store_effect(
    before: MemoryInstance,
    after: MemoryInstance,
    offset: usize,
    bytes: Seq<u8>,
    r: Result<(), Error>,
) -> bool {
    &&& after.spec_max() == before.spec_max()
    &&& after.spec_initial() == before.spec_initial()
    &&& before.wf() ==> after.wf()
    &&& match r {
        Ok(_) => offset + bytes.len() <= before.spec_data().len()
            && after.spec_data() == before.spec_data().subrange(0, offset as int)
                + bytes
                + before.spec_data().subrange(offset + bytes.len(), before.spec_data().len() as int),
        Err(e) => after.spec_data() == before.spec_data()
            && offset + bytes.len() > before.spec_data().len()
            && e == (if offset + bytes.len() > usize::MAX {
                Error::AccessOutOfBounds(None, before.spec_data().len() as usize)
            } else {
                Error::AccessOutOfBounds(Some((offset + bytes.len()) as usize), before.spec_data().len() as usize)
            }),
    }
}

/// What growing by `pages` does: on success zeroed pages are appended; on
/// failure nothing changes and the error names the limit exceeded.
pub open spec fn grow_effect(
    before: MemoryInstance,
    after: MemoryInstance,
    pages: usize,
    r: Result<(), Error>,
) -> bool {
    let count = before.spec_data().len() / (WASM_PAGE_SIZE as nat);
    let target = count + pages;
    let saturated = if target > usize::MAX { usize::MAX as int } else { target };
    &&& after.wf()
    &&& after.spec_max() == before.spec_max()
    &&& after.spec_initial() == before.spec_initial()
    &&& match r {
        Ok(_) => target <= WASM_MAX_PAGES
            && before.spec_data().len() + pages * WASM_PAGE_SIZE <= usize::MAX
            && (before.spec_max() matches Some(m) ==> target <= m)
            && after.spec_data() == before.spec_data()
                + Seq::new((pages * WASM_PAGE_SIZE) as nat, |_i: int| 0u8),
        Err(e) => after.spec_data() == before.spec_data() && (
            if before.spec_max() matches Some(m) && saturated > m {
                e == Error::GrowOverMaximumSize(
                    if target > usize::MAX { usize::MAX } else { target as usize })
            } else {
                (target > WASM_MAX_PAGES
                    || before.spec_data().len() + pages * WASM_PAGE_SIZE > usize::MAX)
                && e == Error::GrowOverMaximumPageSize(
                    if target > usize::MAX { usize::MAX } else { target as usize })
            }),
    }
}

/// A linear memory.
pub struct MemoryInstance {
    data: Vec<u8>,
    max: Option<usize>,
    initial: usize,
}

impl MemoryInstance {
    pub closed spec fn spec_max(&self) -> Option<usize> {
        self.max
    }

    pub closed spec fn spec_initial(&self) -> usize {
        self.initial
    }

    /// The declared maximum number of pages.
    pub fn max(&self) -> (r: Option<usize>)
        ensures
            r == self.spec_max(),
    {
        self.max
    }

    pub closed spec fn spec_data(&self) -> Seq<u8> {
        self.data@
    }

    /// Whole pages, no more than a memory may have.
    pub closed spec fn wf(&self) -> bool {
        &&& self.data@.len() % (WASM_PAGE_SIZE as nat) == 0
        &&& self.data@.len() <= WASM_PAGE_SIZE * WASM_MAX_PAGES
    }

    /// A zeroed memory of `initial` pages.
    pub fn new(initial: usize, maximum: Option<usize>) -> (m: Self)
        requires
            initial <= WASM_MAX_PAGES,
            initial * WASM_PAGE_SIZE <= usize::MAX,
        ensures
            m.wf(),
            m.spec_data() == Seq::new((initial * WASM_PAGE_SIZE) as nat, |_i: int| 0u8),
            m.spec_max() == maximum,
            m.spec_initial() == initial,
    {
        assert(initial * WASM_PAGE_SIZE <= WASM_PAGE_SIZE * WASM_MAX_PAGES) by (nonlinear_arith)
            requires
                initial <= WASM_MAX_PAGES,
        ;
        let size = initial * WASM_PAGE_SIZE;
        let mut data: Vec<u8> = Vec::new();
        let mut i: usize = 0;
        while i < size
            invariant
                i <= size,
                data@ == Seq::new(i as nat, |_i: int| 0u8),
            decreases size - i,
        {
            data.push(0);
            i = i + 1;
            assert(data@ =~= Seq::new(i as nat, |_i: int| 0u8));
        }
        assert(((initial * WASM_PAGE_SIZE) as nat) % (WASM_PAGE_SIZE as nat) == 0) by (nonlinear_arith);
        MemoryInstance { data, max: maximum, initial }
    }

    /// The size of memory in bytes.
    pub fn data_len(&self) -> (n: usize)
        ensures
            n == self.spec_data().len(),
    {
        self.data.len()
    }

    /// The size of memory in pages.
    pub fn page_count(&self) -> (n: usize)
        ensures
            n == self.spec_data().len() / (WASM_PAGE_SIZE as nat),
    {
        self.data.len() / WASM_PAGE_SIZE
    }

    /// The bytes of memory.
    pub fn raw_data(&self) -> (r: &[u8])
        ensures
            r@ == self.spec_data(),
    {
        self.data.as_slice()
    }

    /// Reads `width` bytes at `offset` as a little-endian number.
    pub fn load(&self, offset: usize, width: usize) -> (r: Result<u64, Error>)
        requires
            width <= 8,
        ensures
            match r {
                Ok(v) => offset + width <= self.spec_data().len()
                    && v == le_value(self.spec_data().subrange(offset as int, offset + width)),
                Err(e) => e == (if offset + width > usize::MAX {
                    Error::AccessOutOfBounds(None, self.spec_data().len() as usize)
                } else {
                    Error::AccessOutOfBounds(Some((offset + width) as usize), self.spec_data().len() as usize)
                }) && offset + width > self.spec_data().len(),
            },
    {
        match offset.checked_add(width) {
            Some(end) => {
                if end > self.data.len() {
                    return Err(Error::AccessOutOfBounds(Some(end), self.data.len()));
                }
                let mut buf: Vec<u8> = Vec::new();
                let mut i: usize = offset;
                while i < end
                    invariant
                        offset <= i <= end <= self.data@.len(),
                        buf@ == self.data@.subrange(offset as int, i as int),
                    decreases end - i,
                {
                    buf.push(self.data[i]);
                    i = i + 1;
                    assert(buf@ =~= self.data@.subrange(offset as int, i as int));
                }
                Ok(le_decode(buf.as_slice()))
            },
            None => Err(Error::AccessOutOfBounds(None, self.data.len())),
        }
    }

    /// Writes bytes at `offset`.
    pub fn store(&mut self, offset: usize, bytes: &[u8]) -> (r: Result<(), Error>)
        ensures
            store_effect(*old(self), *final(self), offset, bytes@, r),
    {
        match offset.checked_add(bytes.len()) {
            Some(end) => {
                if end > self.data.len() {
                    return Err(Error::AccessOutOfBounds(Some(end), self.data.len()));
                }
                let mut k: usize = 0;
                assert(self.data@ =~= old(self).data@.subrange(0, offset as int)
                    + bytes@.subrange(0, 0)
                    + old(self).data@.subrange(offset as int, old(self).data@.len() as int));
                while k < bytes.len()
                    invariant
                        k <= bytes@.len(),
                        end == offset + bytes@.len(),
                        end <= self.data@.len(),
                        end <= old(self).data@.len(),
                        self.max == old(self).max,
                        self.initial == old(self).initial,
                        self.data@ == old(self).data@.subrange(0, offset as int)
                            + bytes@.subrange(0, k as int)
                            + old(self).data@.subrange(offset + k, old(self).data@.len() as int),
                    decreases bytes@.len() - k,
                {
                    let ghost prev = self.data@;
                    self.data.set(offset + k, bytes[k]);
                    assert(self.data@ == prev.update(offset + k, bytes@[k as int]));
                    k = k + 1;
                    assert forall|p: int| 0 <= p < self.data@.len() implies self.data@[p] == (
                        old(self).data@.subrange(0, offset as int)
                        + bytes@.subrange(0, k as int)
                        + old(self).data@.subrange(offset + k, old(self).data@.len() as int))[p] by {
                        if p < offset {
                        } else if p < offset + k {
                        } else {
                        }
                    }
                    assert(self.data@ =~= old(self).data@.subrange(0, offset as int)
                        + bytes@.subrange(0, k as int)
                        + old(self).data@.subrange(offset + k, old(self).data@.len() as int));
                }
                assert(bytes@.subrange(0, k as int) =~= bytes@);
                Ok(())
            },
            None => Err(Error::AccessOutOfBounds(None, self.data.len())),
        }
    }

    /// Adds `pages` zeroed pages.
    pub fn grow(&mut self, pages: usize) -> (r: Result<(), Error>)
        requires
            old(self).wf(),
        ensures
            grow_effect(*old(self), *final(self), pages, r),
    {
        let count = self.data.len() / WASM_PAGE_SIZE;
        assert(count <= WASM_MAX_PAGES) by (nonlinear_arith)
            requires
                count == self.data@.len() / (WASM_PAGE_SIZE as nat),
                self.data@.len() <= WASM_PAGE_SIZE * WASM_MAX_PAGES,
        ;
        if pages > WASM_MAX_PAGES - count {
            let target = count.saturating_add(pages);
            if let Some(m) = self.max {
                if target > m {
                    return Err(Error::GrowOverMaximumSize(target));
                }
            }
            return Err(Error::GrowOverMaximumPageSize(target));
        }
        let target = count + pages;
        if let Some(m) = self.max {
            if target > m {
                return Err(Error::GrowOverMaximumSize(target));
            }
        }
        assert(pages * WASM_PAGE_SIZE + self.data@.len() <= WASM_PAGE_SIZE * WASM_MAX_PAGES) by (nonlinear_arith)
            requires
                count == self.data@.len() / (WASM_PAGE_SIZE as nat),
                self.data@.len() % (WASM_PAGE_SIZE as nat) == 0,
                count + pages <= WASM_MAX_PAGES,
        ;
        let len = self.data.len();
        let extra: usize = match pages.checked_mul(WASM_PAGE_SIZE) {
            Some(e) => e,
            None => {
                return Err(Error::GrowOverMaximumPageSize(target));
            },
        };
        if extra > usize::MAX - len {
            return Err(Error::GrowOverMaximumPageSize(target));
        }
        let mut i: usize = 0;
        let ghost before = self.data@;
        while i < extra
            invariant
                i <= extra,
                extra + before.len() <= WASM_PAGE_SIZE * WASM_MAX_PAGES,
                self.data@ == before + Seq::new(i as nat, |_i: int| 0u8),
                self.max == old(self).max,
                self.initial == old(self).initial,
            decreases extra - i,
        {
            self.data.push(0);
            i = i + 1;
            assert(self.data@ =~= before + Seq::new(i as nat, |_i: int| 0u8));
        }
        assert(((before.len() + pages * WASM_PAGE_SIZE) as nat) % (WASM_PAGE_SIZE as nat) == 0) by (nonlinear_arith)
            requires
                before.len() % (WASM_PAGE_SIZE as nat) == 0,
        ;
        Ok(())
    }
}


/// A load after a store at the same offset and width reads back what was
/// stored: the stored number modulo the width.
pub proof fn lemma_load_after_store(before: MemoryInstance, after: MemoryInstance, offset: usize, x: nat, width: nat)
    requires
        store_effect(before, after, offset, le_bytes(x, width), Ok(())),
    ensures
        offset + width <= after.spec_data().len(),
        le_value(after.spec_data().subrange(offset as int, offset + width)) == x % pow256(width),
{
    lemma_le_roundtrip(x, width);
    let b = le_bytes(x, width);
    let d = before.spec_data();
    assert(after.spec_data().subrange(offset as int, offset + width) =~= b);
}

/// A store leaves the bytes outside its range as they were.
pub proof fn lemma_store_keeps_others(before: MemoryInstance, after: MemoryInstance, offset: usize, bytes: Seq<u8>, i: int)
    requires
        store_effect(before, after, offset, bytes, Ok(())),
        0 <= i < before.spec_data().len(),
        i < offset || i >= offset + bytes.len(),
    ensures
        after.spec_data()[i] == before.spec_data()[i],
{
    let d = before.spec_data();
    if i >= offset + bytes.len() {
        assert(after.spec_data()[i] == d.subrange(offset + bytes.len(), d.len() as int)[i - offset - bytes.len()]);
    }
}

} // verus!
