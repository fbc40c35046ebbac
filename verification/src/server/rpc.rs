//! The messages between the debugger server and its client.

use vstd::prelude::*;

verus! {

/// A WebAssembly value on the wire; floating-point values as their bits.
#[derive(Clone, Copy, Debug, PartialEq, Eq, Structural)]
pub enum WasmValue {
    I32 { value: i32 },
    I64 { value: i64 },
    F32 { value: u32 },
    F64 { value: u64 },
}

/// What a module imports.
#[derive(Clone, Debug)]
pub enum WasmImport {
    Func { name: String },
    Global { name: String },
    Mem { name: String },
    Table { name: String },
}

/// What a module exports; a memory with its initial size in bytes.
#[derive(Clone, Debug)]
pub enum WasmExport {
    Memory { name: String, memory_size: usize },
    Function { name: String },
    Global { name: String },
    Table { name: String },
}

/// Why a request could not be taken.
#[derive(Clone, Debug)]
pub enum RequestError {
    InvalidBinaryRequestKind(u8),
    /// A text request that is no valid JSON request; the parser's message.
    InvalidTextRequestJSON(String),
    InvalidMessageType(String),
    CallArgumentLengthMismatch,
}

/// What a binary request asks for.
#[derive(Clone, Copy, Debug, PartialEq, Eq, Structural)]
pub enum BinaryRequestKind {
    Init,
}

/// The magic number that starts a WebAssembly module.
pub open spec fn wasm_magic() -> Seq<u8> {
    seq![0x00u8, 0x61u8, 0x73u8, 0x6du8]
}

/// The kind a byte names.
pub open spec fn spec_kind_from_u8(b: u8) -> Option<BinaryRequestKind> {
    if b == 0 { Some(BinaryRequestKind::Init) } else { None }
}

pub fn kind_from_u8(b: u8) -> (r: Option<BinaryRequestKind>)
    ensures
        r == spec_kind_from_u8(b),
{
    if b == 0 { Some(BinaryRequestKind::Init) } else { None }
}

/// A binary request: what it asks for, and its payload.
#[derive(Debug)]
pub struct BinaryRequest<'a> {
    pub kind: BinaryRequestKind,
    pub bytes: &'a [u8],
}

impl<'a> BinaryRequest<'a> {
    /// Reads a binary request: a whole module is an `Init` request; else the
    /// first byte names the kind and the rest is the payload.
    pub fn from_bytes(bytes: &'a [u8]) -> (r: Result<Self, RequestError>)
        requires
            bytes@.len() > 0,
        ensures
            if bytes@.len() >= 4 && bytes@.subrange(0, 4) == wasm_magic() {
                r matches Ok(req) && req.kind == BinaryRequestKind::Init && req.bytes@ == bytes@
            } else {
                match spec_kind_from_u8(bytes@[0]) {
                    Some(k) => r matches Ok(req) && req.kind == k && req.bytes@ == bytes@.subrange(1, bytes@.len() as int),
                    None => r matches Err(RequestError::InvalidBinaryRequestKind(b)) && b == bytes@[0],
                }
            },
    {
        if bytes.len() >= 4 && bytes[0] == 0x00 && bytes[1] == 0x61 && bytes[2] == 0x73 && bytes[3] == 0x6d {
            proof { assert(bytes@.subrange(0, 4) =~= wasm_magic()); }
            return Ok(BinaryRequest { kind: BinaryRequestKind::Init, bytes });
        }
        proof {
            if bytes@.len() >= 4 && bytes@.subrange(0, 4) == wasm_magic() {
                assert(bytes@[0] == bytes@.subrange(0, 4)[0]);
                assert(bytes@[1] == bytes@.subrange(0, 4)[1]);
                assert(bytes@[2] == bytes@.subrange(0, 4)[2]);
                assert(bytes@[3] == bytes@.subrange(0, 4)[3]);
            }
        }
        match kind_from_u8(bytes[0]) {
            Some(kind) => Ok(BinaryRequest { kind, bytes: &bytes[1..bytes.len()] }),
            None => Err(RequestError::InvalidBinaryRequestKind(bytes[0])),
        }
    }
}

/// A response in text.
#[derive(Clone, Debug)]
pub enum TextResponse {
    Version { value: String },
    Init { exports: Vec<WasmExport> },
    CallResult { values: Vec<WasmValue> },
    CallHost { module: String, field: String, args: Vec<WasmValue> },
    LoadMemoryResult { bytes: Vec<u8> },
    StoreMemoryResult,
    Error { message: String },
}

/// What a binary response carries.
#[derive(Clone, Copy, Debug, PartialEq, Eq, Structural)]
pub enum BinaryResponseKind {
    Memory,
}

impl BinaryResponseKind {
    /// The byte that names the kind on the wire.
    pub fn code(&self) -> (r: u8)
        ensures
            r == 0,
    {
        match self {
            BinaryResponseKind::Memory => 0,
        }
    }
}

#[derive(Debug)]
pub struct BinaryResponse {}

/// A response.
#[derive(Clone, Debug)]
pub enum Response {
    Text(TextResponse),
    Binary { kind: BinaryResponseKind, bytes: Vec<u8> },
}

impl TextResponse {
    pub fn into_response(self) -> (r: Response)
        ensures
            r == Response::Text(self),
    {
        Response::Text(self)
    }
}

/// A binary response on the wire: the byte of its kind, then its bytes.
pub fn binary_frame(kind: BinaryResponseKind, bytes: &Vec<u8>) -> (r: Vec<u8>)
    ensures
        r@ == seq![0u8] + bytes@,
{
    let mut out: Vec<u8> = Vec::new();
    out.push(kind.code());
    let mut i: usize = 0;
    while i < bytes.len()
        invariant
            i <= bytes@.len(),
            out@ == seq![0u8] + bytes@.subrange(0, i as int),
        decreases bytes@.len() - i,
    {
        out.push(bytes[i]);
        i = i + 1;
        assert(out@ =~= seq![0u8] + bytes@.subrange(0, i as int));
    }
    assert(bytes@.subrange(0, i as int) =~= bytes@);
    out
}

/// Reads a binary frame back: its kind and its bytes.
pub fn read_binary_frame(frame: &Vec<u8>) -> (r: Option<(BinaryResponseKind, Vec<u8>)>)
    ensures
        match r {
            Some((k, b)) => frame@.len() > 0 && frame@[0] == 0 && k == BinaryResponseKind::Memory
                && b@ == frame@.subrange(1, frame@.len() as int),
            None => frame@.len() == 0 || frame@[0] != 0,
        },
{
    if frame.len() == 0 || frame[0] != 0 {
        return None;
    }
    let mut b: Vec<u8> = Vec::new();
    let mut i: usize = 1;
    while i < frame.len()
        invariant
            1 <= i <= frame@.len(),
            b@ == frame@.subrange(1, i as int),
        decreases frame@.len() - i,
    {
        b.push(frame[i]);
        i = i + 1;
        assert(b@ =~= frame@.subrange(1, i as int));
    }
    Some((BinaryResponseKind::Memory, b))
}

/// A framed response reads back as itself.
pub proof fn lemma_binary_frame_roundtrip(bytes: Seq<u8>)
    ensures
        (seq![0u8] + bytes)[0] == 0,
        (seq![0u8] + bytes).subrange(1, (seq![0u8] + bytes).len() as int) == bytes,
{
    assert((seq![0u8] + bytes).subrange(1, (seq![0u8] + bytes).len() as int) =~= bytes);
}

} // verus!
