//! What the server computes for requests: exports, memory access, call
//! arguments and values.

use vstd::prelude::*;
use wasmparser::{ExternalKind, MemoryType, Parser, Payload};
use crate::debugger::commands::debugger::RunResult;
use crate::debugger::debugger::{validation_message, DebuggerError, MainDebugger};
use crate::vm::executor::HostRequest;
use crate::server::rpc::{RequestError, TextResponse, WasmExport, WasmValue};
use crate::vm::address::MemoryAddr;
use crate::vm::memory::WASM_PAGE_SIZE;
use crate::vm::module::{DefinedModuleInstance, ExternalValue};
use crate::vm::value::Value;

verus! {

/// The version the server answers with.
pub fn version_response() -> (r: TextResponse)
    ensures
        r matches TextResponse::Version { value } && value@ == "0.1.0"@,
{
    TextResponse::Version { value: "0.1.0".to_owned() }
}

/// A value of the interpreter on the wire.
pub open spec fn spec_from_vm(v: Value) -> WasmValue {
    match v {
        Value::I32(x) => WasmValue::I32 { value: x },
        Value::I64(x) => WasmValue::I64 { value: x },
        Value::F32(x) => WasmValue::F32 { value: x },
        Value::F64(x) => WasmValue::F64 { value: x },
    }
}

/// A value on the wire for the interpreter.
pub open spec fn spec_to_vm(v: WasmValue) -> Value {
    match v {
        WasmValue::I32 { value } => Value::I32(value),
        WasmValue::I64 { value } => Value::I64(value),
        WasmValue::F32 { value } => Value::F32(value),
        WasmValue::F64 { value } => Value::F64(value),
    }
}

pub fn from_vm_wasm_value(v: &Value) -> (r: WasmValue)
    ensures
        r == spec_from_vm(*v),
{
    match v {
        Value::I32(x) => WasmValue::I32 { value: *x },
        Value::I64(x) => WasmValue::I64 { value: *x },
        Value::F32(x) => WasmValue::F32 { value: *x },
        Value::F64(x) => WasmValue::F64 { value: *x },
    }
}

pub fn to_vm_wasm_value(v: &WasmValue) -> (r: Value)
    ensures
        r == spec_to_vm(*v),
{
    match v {
        WasmValue::I32 { value } => Value::I32(*value),
        WasmValue::I64 { value } => Value::I64(*value),
        WasmValue::F32 { value } => Value::F32(*value),
        WasmValue::F64 { value } => Value::F64(*value),
    }
}

/// A value sent over the wire and back is the same value.
pub proof fn lemma_wire_roundtrip(v: Value)
    ensures
        spec_to_vm(spec_from_vm(v)) == v,
{
}

/// The results of a call, for the wire.
pub fn call_result(values: &Vec<Value>) -> (r: TextResponse)
    ensures
        r matches TextResponse::CallResult { values: w } && w@ == values@.map_values(|v: Value| spec_from_vm(v)),
{
    let mut w: Vec<WasmValue> = Vec::new();
    let mut i: usize = 0;
    while i < values.len()
        invariant
            i <= values@.len(),
            w@ == values@.subrange(0, i as int).map_values(|v: Value| spec_from_vm(v)),
        decreases values@.len() - i,
    {
        w.push(from_vm_wasm_value(&values[i]));
        i = i + 1;
        assert(w@ =~= values@.subrange(0, i as int).map_values(|v: Value| spec_from_vm(v)));
    }
    assert(values@.subrange(0, i as int) =~= values@);
    TextResponse::CallResult { values: w }
}

/// What the server does next while a client's call runs.
pub enum CallAction {
    /// Answer the client with this response: the call is over.
    Reply(TextResponse),
    /// Ask the client to run a host function with this request, and resume
    /// the call with the results it sends back.
    CallHost(TextResponse),
    /// Compute a floating-point instruction on these operands and resume.
    Compute(u8, Vec<Value>),
    /// The step budget is spent: run on.
    Continue,
    /// A breakpoint was hit: hand over to the user.
    Interact,
    /// The call failed with this error.
    Fail(DebuggerError),
}

/// The values for the wire, in order.
pub open spec fn wire_values(values: Seq<Value>) -> Seq<WasmValue> {
    values.map_values(|v: Value| spec_from_vm(v))
}

/// Decides what follows from how a run of a client's call stopped: its
/// results go back to the client, a host function is asked of the client
/// by its module, field and arguments, floating point is computed, a spent
/// budget runs on, a breakpoint hands over to the user, an error fails.
pub fn call_step(result: Result<RunResult, DebuggerError>) -> (r: CallAction)
    ensures
        match result {
            Ok(RunResult::Finish(v)) => r matches CallAction::Reply(TextResponse::CallResult { values: w })
                && w@ == wire_values(v@),
            Ok(RunResult::Host(HostRequest::Call { module_name, field_name, args })) => r matches CallAction::CallHost(
                TextResponse::CallHost { module, field, args: w }) && module == module_name && field == field_name
                && w@ == wire_values(args@),
            Ok(RunResult::Host(HostRequest::Float { opcode, args })) => r matches CallAction::Compute(o, a) && o == opcode && a == args,
            Ok(RunResult::Paused) => r matches CallAction::Continue,
            Ok(RunResult::Breakpoint) => r matches CallAction::Interact,
            Err(e) => r matches CallAction::Fail(x) && x == e,
        },
{
    match result {
        Ok(RunResult::Finish(v)) => CallAction::Reply(call_result(&v)),
        Ok(RunResult::Host(HostRequest::Call { module_name, field_name, args })) => {
            let w = match call_result(&args) {
                TextResponse::CallResult { values } => values,
                _ => Vec::new(),
            };
            CallAction::CallHost(TextResponse::CallHost { module: module_name, field: field_name, args: w })
        },
        Ok(RunResult::Host(HostRequest::Float { opcode, args })) => CallAction::Compute(opcode, args),
        Ok(RunResult::Paused) => CallAction::Continue,
        Ok(RunResult::Breakpoint) => CallAction::Interact,
        Err(e) => CallAction::Fail(e),
    }
}

/// A call needs as many arguments as its function has parameters.
pub fn check_call_arity(param_count: usize, arg_count: usize) -> (r: Result<(), RequestError>)
    ensures
        param_count == arg_count <==> r is Ok,
        r is Err ==> r matches Err(RequestError::CallArgumentLengthMismatch),
{
    if param_count != arg_count {
        Err(RequestError::CallArgumentLengthMismatch)
    } else {
        Ok(())
    }
}

/// The kinds of export the server reports.
#[derive(Clone, Copy, Debug, PartialEq, Eq, Structural)]
pub enum ExportKind {
    Function,
    Memory,
    /// A table or a global, which the server does not report.
    Other,
}

/// An export as the module declares it: kind, name, index.
#[derive(Clone, Debug)]
pub struct ExportEntry {
    pub kind: ExportKind,
    pub field: String,
    pub index: u32,
}

/// An export entry as plain values: its name, kind and index.
pub open spec fn export_view(e: ExportEntry) -> (Seq<char>, ExportKind, u32) {
    (e.field@, e.kind, e.index)
}

/// The initial pages of each memory a module defines, and its exports in
/// order, as `wasmparser` reads the module; `None` where it reports an
/// error.
pub uninterp spec fn wasmparser_exports(module: Seq<u8>) -> Option<(Seq<usize>, Seq<(Seq<char>, ExportKind, u32)>)>;

/// `wasmparser::Parser::parse_all` over `module`: the `initial` limit of each
/// memory of the memory sections and the name, kind and index of each export
/// of the export sections, in order; a table or global export is `Other`.
/// The outcome is named `wasmparser_exports`; of an error, nothing is stated.
#[verifier::external_body]
fn wasm_exports(module: &[u8]) -> (r: Result<(Vec<usize>, Vec<ExportEntry>), wasmparser::BinaryReaderError>)
    ensures
        match (r, wasmparser_exports(module@)) {
            (Ok((p, e)), Some((q, f))) => p@ == q && export_views(e@) == f,
            (Err(_), None) => true,
            _ => false,
        },
{
    let (mut pages, mut entries) = (Vec::new(), Vec::new());
    for payload in Parser::new(0).parse_all(module) {
        match payload? {
            Payload::MemorySection(s) => for m in s { pages.push(match m? { MemoryType::M32 { limits, .. } => limits.initial as usize, MemoryType::M64 { limits, .. } => limits.initial as usize }) },
            Payload::ExportSection(s) => for x in s { let x = x?; entries.push(ExportEntry { field: x.field.to_string(), index: x.index, kind: match x.kind { ExternalKind::Function => ExportKind::Function, ExternalKind::Memory => ExportKind::Memory, _ => ExportKind::Other } }) },
            _ => {},
        }
    }
    Ok((pages, entries))
}

/// Why the exports of a module cannot be reported.
#[derive(Clone, Debug)]
pub enum ExportsError {
    /// The module could not be read; the reader's message.
    Parse(String),
    /// An export is a table or a global, or a memory that does not exist or
    /// whose size in bytes does not fit.
    Unreportable,
}

/// The exports of the module in `module`, as the server reports them.
pub fn exports_of_module(module: &[u8]) -> (r: Result<Vec<WasmExport>, ExportsError>)
    ensures
        match wasmparser_exports(module@) {
            None => r matches Err(ExportsError::Parse(_)),
            Some((pages, views)) => if exports_reportable(pages, views) {
                r matches Ok(out) && reported_exports(pages, views, out@)
            } else {
                r matches Err(ExportsError::Unreportable)
            },
        },
{
    match wasm_exports(module) {
        Err(e) => Err(ExportsError::Parse(validation_message(&e))),
        Ok((pages, entries)) => {
            if check_exports(&pages, &entries) {
                Ok(module_exports(&pages, &entries))
            } else {
                Err(ExportsError::Unreportable)
            }
        },
    }
}

/// Whether the server can report these exports: each is a function or a
/// memory, and each exported memory exists with a size in bytes that fits.
pub open spec fn exports_reportable(pages: Seq<usize>, views: Seq<(Seq<char>, ExportKind, u32)>) -> bool {
    forall|k: int| 0 <= k < views.len() ==> match (#[trigger] views[k]).1 {
        ExportKind::Memory => views[k].2 < pages.len() && pages[views[k].2 as int] * WASM_PAGE_SIZE <= usize::MAX,
        ExportKind::Function => true,
        ExportKind::Other => false,
    }
}

/// What the server reports of the `k`th export.
pub open spec fn reported_export(pages: Seq<usize>, view: (Seq<char>, ExportKind, u32), out: WasmExport) -> bool {
    match view.1 {
        ExportKind::Memory => out matches WasmExport::Memory { name, memory_size }
            && name@ == view.0 && memory_size == pages[view.2 as int] * WASM_PAGE_SIZE,
        ExportKind::Function => out matches WasmExport::Function { name } && name@ == view.0,
        ExportKind::Other => false,
    }
}

/// The server's report of the exports: one entry for each, in order.
pub open spec fn reported_exports(pages: Seq<usize>, views: Seq<(Seq<char>, ExportKind, u32)>, out: Seq<WasmExport>) -> bool {
    &&& out.len() == views.len()
    &&& forall|k: int| 0 <= k < views.len() ==> reported_export(pages, #[trigger] views[k], out[k])
}

/// The exports as plain values.
pub open spec fn export_views(entries: Seq<ExportEntry>) -> Seq<(Seq<char>, ExportKind, u32)> {
    entries.map_values(|x: ExportEntry| export_view(x))
}

/// Decides `exports_reportable`.
pub fn check_exports(pages: &Vec<usize>, entries: &Vec<ExportEntry>) -> (r: bool)
    ensures
        r == exports_reportable(pages@, export_views(entries@)),
{
    let ghost views = export_views(entries@);
    let mut i: usize = 0;
    while i < entries.len()
        invariant
            i <= entries@.len(),
            views == export_views(entries@),
            forall|k: int| 0 <= k < i ==> match (#[trigger] views[k]).1 {
                ExportKind::Memory => views[k].2 < pages@.len() && pages@[views[k].2 as int] * WASM_PAGE_SIZE <= usize::MAX,
                ExportKind::Function => true,
                ExportKind::Other => false,
            },
        decreases entries@.len() - i,
    {
        assert(views[i as int] == export_view(entries@[i as int]));
        match entries[i].kind {
            ExportKind::Memory => {
                let j = entries[i].index as usize;
                if j >= pages.len() {
                    return false;
                }
                if pages[j] > usize::MAX / WASM_PAGE_SIZE {
                    proof {
                        let x = pages@[j as int];
                        assert(x * WASM_PAGE_SIZE > usize::MAX) by (nonlinear_arith)
                            requires x > usize::MAX / WASM_PAGE_SIZE, WASM_PAGE_SIZE > 0;
                    }
                    return false;
                }
                proof {
                    let x = pages@[j as int];
                    assert(x * WASM_PAGE_SIZE <= usize::MAX) by (nonlinear_arith)
                        requires x <= usize::MAX / WASM_PAGE_SIZE, WASM_PAGE_SIZE > 0;
                }
            },
            ExportKind::Function => {},
            ExportKind::Other => return false,
        }
        i = i + 1;
    }
    true
}

/// What the server reports of exports: functions by name, memories with
/// the size of their initial pages in bytes.
pub fn module_exports(memory_initial_pages: &Vec<usize>, entries: &Vec<ExportEntry>) -> (r: Vec<WasmExport>)
    requires
        exports_reportable(memory_initial_pages@, export_views(entries@)),
    ensures
        reported_exports(memory_initial_pages@, export_views(entries@), r@),
{
    let ghost views = export_views(entries@);
    let mut out: Vec<WasmExport> = Vec::new();
    let mut i: usize = 0;
    while i < entries.len()
        invariant
            i <= entries@.len(),
            views == export_views(entries@),
            exports_reportable(memory_initial_pages@, views),
            out@.len() == i,
            forall|k: int| 0 <= k < i ==> reported_export(memory_initial_pages@, #[trigger] views[k], out@[k]),
        decreases entries@.len() - i,
    {
        let e = &entries[i];
        assert(views[i as int] == export_view(entries@[i as int]));
        match e.kind {
            ExportKind::Memory => {
                let pages = memory_initial_pages[e.index as usize];
                out.push(WasmExport::Memory { name: e.field.clone(), memory_size: pages * WASM_PAGE_SIZE });
            },
            ExportKind::Function => {
                out.push(WasmExport::Function { name: e.field.clone() });
            },
            ExportKind::Other => {},
        }
        i = i + 1;
    }
    out
}

/// Why a memory request failed.
#[derive(Clone, Debug)]
pub enum ProxyError {
    Debugger(DebuggerError),
    /// The main module exports no memory under this name.
    NoExportedMemory(String),
    /// The export of this name is no memory.
    NotAMemory(String),
}

/// The memory the main module exports as `name`.
pub fn memory_addr_by_name(name: &str, debugger: &MainDebugger) -> (r: Result<MemoryAddr, ProxyError>)
    ensures
        match debugger.instance {
            None => r is Err,
            Some(_) => match debugger.spec_main_defined() {
                None => r is Err,
                Some(dm) => match dm.spec_exported(name@) {
                    Some(ExternalValue::Memory(a)) => r == Ok::<MemoryAddr, ProxyError>(a),
                    _ => r is Err,
                },
            },
        },
{
    let module = match debugger.main_module() {
        Ok(m) => m,
        Err(e) => return Err(ProxyError::Debugger(e)),
    };
    match module.exported_memory(name) {
        Ok(Some(a)) => Ok(a),
        Ok(None) => Err(ProxyError::NoExportedMemory(name.to_owned())),
        Err(_) => Err(ProxyError::NotAMemory(name.to_owned())),
    }
}

/// The memory the main module exports as `name`, as it is now.
pub open spec fn spec_exported_memory(debugger: MainDebugger, name: Seq<char>) -> Option<crate::vm::memory::MemoryInstance> {
    match debugger.instance {
        None => None,
        Some(inst) => match debugger.spec_main_defined() {
            None => None,
            Some(dm) => match dm.spec_exported(name) {
                Some(ExternalValue::Memory(a)) => inst.store.spec_memory(a),
                _ => None,
            },
        },
    }
}

/// The length in bytes of the memory exported as `name`.
pub fn exported_memory_len(debugger: &MainDebugger, name: &str) -> (r: Result<usize, ProxyError>)
    ensures
        match spec_exported_memory(*debugger, name@) {
            Some(m) => r == Ok::<usize, ProxyError>(m.spec_data().len() as usize),
            None => r is Err,
        },
{
    let addr = match memory_addr_by_name(name, debugger) {
        Ok(a) => a,
        Err(e) => return Err(e),
    };
    let inst = match &debugger.instance {
        Some(i) => i,
        None => return Err(ProxyError::Debugger(DebuggerError::NoInstance)),
    };
    match inst.store.memory(addr) {
        Some(m) => Ok(m.data_len()),
        None => Err(ProxyError::NoExportedMemory(name.to_owned())),
    }
}

/// `length` bytes of the memory exported as `name`, from `offset`.
pub fn load_memory(debugger: &MainDebugger, name: &str, offset: usize, length: usize) -> (r: Result<Vec<u8>, ProxyError>)
    requires
        spec_exported_memory(*debugger, name@) matches Some(m) ==> offset + length <= m.spec_data().len(),
    ensures
        match spec_exported_memory(*debugger, name@) {
            Some(m) => r matches Ok(b) && b@ == m.spec_data().subrange(offset as int, offset + length),
            None => r is Err,
        },
{
    let addr = match memory_addr_by_name(name, debugger) {
        Ok(a) => a,
        Err(e) => return Err(e),
    };
    let inst = match &debugger.instance {
        Some(i) => i,
        None => return Err(ProxyError::Debugger(DebuggerError::NoInstance)),
    };
    let m = match inst.store.memory(addr) {
        Some(m) => m,
        None => return Err(ProxyError::NoExportedMemory(name.to_owned())),
    };
    let data = m.raw_data();
    let n = data.len();
    proof {
        assert(spec_exported_memory(*debugger, name@) == Some(*m));
    }
    assert(offset + length <= n);
    let end = offset + length;
    let mut out: Vec<u8> = Vec::new();
    let mut i: usize = offset;
    while i < end
        invariant
            end == offset + length,
            end <= data@.len(),
            offset <= i <= end,
            out@ == data@.subrange(offset as int, i as int),
        decreases end - i,
    {
        out.push(data[i]);
        i = i + 1;
        assert(out@ =~= data@.subrange(offset as int, i as int));
    }
    Ok(out)
}

/// Writes `bytes` at `offset` into the memory exported as `name`.
pub fn store_memory(debugger: &mut MainDebugger, name: &str, offset: usize, bytes: &[u8]) -> (r: Result<(), ProxyError>)
    requires
        old(debugger).wf(),
        spec_exported_memory(*old(debugger), name@) matches Some(m) ==> offset + bytes@.len() <= m.spec_data().len(),
    ensures
        final(debugger).wf(),
        match spec_exported_memory(*old(debugger), name@) {
            Some(m) => r is Ok && (spec_exported_memory(*final(debugger), name@) matches Some(m2)
                && m2.spec_data() == m.spec_data().subrange(0, offset as int) + bytes@
                    + m.spec_data().subrange(offset + bytes@.len(), m.spec_data().len() as int)),
            None => r is Err,
        },
{
    let addr = match memory_addr_by_name(name, debugger) {
        Ok(a) => a,
        Err(e) => return Err(e),
    };
    let mut inst = match debugger.instance.take() {
        Some(i) => i,
        None => return Err(ProxyError::Debugger(DebuggerError::NoInstance)),
    };
    if inst.store.memory(addr).is_none() {
        debugger.instance = Some(inst);
        return Err(ProxyError::NoExportedMemory(name.to_owned()));
    }
    let res = inst.store.memory_store(addr, offset, bytes);
    debugger.instance = Some(inst);
    proof {
        let dm = old(debugger).spec_main_defined()->0;
        assert(debugger.spec_main_defined() == Some(dm));
    }
    match res {
        Ok(()) => Ok(()),
        Err(e) => Err(ProxyError::Debugger(DebuggerError::Trap(crate::vm::executor::Trap::Memory(e)))),
    }
}

/// What a client stores into an exported memory it loads back: after
/// `store_memory` wrote `bytes` at `offset`, `load_memory` of as many bytes
/// from `offset` gives `bytes`, and the rest of the memory is as it was.
pub proof fn lemma_load_after_store_memory(before: MainDebugger, after: MainDebugger, name: Seq<char>, offset: usize, bytes: Seq<u8>)
    requires
        spec_exported_memory(before, name) matches Some(m) && offset + bytes.len() <= m.spec_data().len(),
        spec_exported_memory(after, name) matches Some(m2) && m2.spec_data()
            == spec_exported_memory(before, name)->0.spec_data().subrange(0, offset as int) + bytes
                + spec_exported_memory(before, name)->0.spec_data().subrange(offset + bytes.len(), spec_exported_memory(before, name)->0.spec_data().len() as int),
    ensures
        spec_exported_memory(after, name)->0.spec_data().subrange(offset as int, offset + bytes.len()) == bytes,
        spec_exported_memory(after, name)->0.spec_data().len() == spec_exported_memory(before, name)->0.spec_data().len(),
        forall|k: int| 0 <= k < spec_exported_memory(before, name)->0.spec_data().len() && !(offset <= k < offset + bytes.len())
            ==> #[trigger] spec_exported_memory(after, name)->0.spec_data()[k] == spec_exported_memory(before, name)->0.spec_data()[k],
{
    let d = spec_exported_memory(before, name)->0.spec_data();
    let d2 = spec_exported_memory(after, name)->0.spec_data();
    assert(d2.subrange(offset as int, offset + bytes.len()) =~= bytes);
}

/// What the client sends while a host call waits for its results.
pub enum HostCallEvent {
    /// The host function's results: as many as the client sent.
    CallResult(usize),
    LoadMemory { name: String, offset: usize, length: usize },
    StoreMemory { name: String, offset: usize, bytes: Vec<u8> },
    /// A call of the exported function of this name, nested in the host call.
    CallExported(String),
    /// Any other request: what it is.
    Other(String),
}

/// What the server does with what the client sent during a host call.
pub enum HostCallAction {
    /// Takes up the waiting run again with the first `n` results.
    Resume(usize),
    /// Sends this reply and goes on waiting.
    Reply(TextResponse),
    /// Calls the exported function of this name, sends its reply, and goes
    /// on waiting.
    CallNested(String),
    /// The memory could not be reached.
    Fail(ProxyError),
    /// The request cannot be taken during a host call: what it is.
    Refuse(String),
}

/// Whether a memory request stays inside the memory it names, where that
/// memory exists.
pub open spec fn host_event_in_range(d: MainDebugger, e: HostCallEvent) -> bool {
    match e {
        HostCallEvent::LoadMemory { name, offset, length } => spec_exported_memory(d, name@) matches Some(m)
            ==> offset + length <= m.spec_data().len(),
        HostCallEvent::StoreMemory { name, offset, bytes } => spec_exported_memory(d, name@) matches Some(m)
            ==> offset + bytes@.len() <= m.spec_data().len(),
        _ => true,
    }
}

/// Takes one message of the client while a host function with `returns`
/// results waits for them: results end the wait, memory requests are
/// answered, a nested call is made, and any other request ends the host call.
pub fn host_call_step(debugger: &mut MainDebugger, returns: usize, event: HostCallEvent) -> (r: HostCallAction)
    requires
        old(debugger).wf(),
        host_event_in_range(*old(debugger), event),
    ensures
        final(debugger).wf(),
        match event {
            HostCallEvent::CallResult(n) => r == HostCallAction::Resume(if n < returns { n } else { returns })
                && *final(debugger) == *old(debugger),
            HostCallEvent::LoadMemory { name, offset, length } => *final(debugger) == *old(debugger)
                && match spec_exported_memory(*old(debugger), name@) {
                    Some(m) => r matches HostCallAction::Reply(TextResponse::LoadMemoryResult { bytes })
                        && bytes@ == m.spec_data().subrange(offset as int, offset + length),
                    None => r is Fail,
                },
            HostCallEvent::StoreMemory { name, offset, bytes } => match spec_exported_memory(*old(debugger), name@) {
                Some(m) => r matches HostCallAction::Reply(TextResponse::StoreMemoryResult)
                    && spec_exported_memory(*final(debugger), name@) matches Some(m2)
                    && m2.spec_data() == m.spec_data().subrange(0, offset as int) + bytes@
                        + m.spec_data().subrange(offset + bytes@.len(), m.spec_data().len() as int),
                None => r is Fail,
            },
            HostCallEvent::CallExported(name) => r matches HostCallAction::CallNested(x) && x@ == name@
                && *final(debugger) == *old(debugger),
            HostCallEvent::Other(what) => r matches HostCallAction::Refuse(x) && x@ == what@
                && *final(debugger) == *old(debugger),
        },
{
    match event {
        HostCallEvent::CallResult(n) => HostCallAction::Resume(if n < returns { n } else { returns }),
        HostCallEvent::LoadMemory { name, offset, length } => match load_memory(debugger, name.as_str(), offset, length) {
            Ok(bytes) => HostCallAction::Reply(TextResponse::LoadMemoryResult { bytes }),
            Err(e) => HostCallAction::Fail(e),
        },
        HostCallEvent::StoreMemory { name, offset, bytes } => match store_memory(debugger, name.as_str(), offset, bytes.as_slice()) {
            Ok(()) => HostCallAction::Reply(TextResponse::StoreMemoryResult),
            Err(e) => HostCallAction::Fail(e),
        },
        HostCallEvent::CallExported(name) => HostCallAction::CallNested(name),
        HostCallEvent::Other(what) => HostCallAction::Refuse(what),
    }
}

} // verus!
