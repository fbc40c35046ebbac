use wasminspect::debugger::commands::debugger::RunResult;
use wasminspect::debugger::debugger::{DebuggerError, MainDebugger};
use wasminspect::server::proxy::{
    call_step, check_exports, exports_of_module, host_call_step, CallAction, ExportsError, HostCallAction, HostCallEvent,
};
use wasminspect::vm::executor::HostRequest;
use wasminspect::server::proxy::{
    call_result, check_call_arity, exported_memory_len, from_vm_wasm_value, load_memory, module_exports,
    store_memory, to_vm_wasm_value, version_response, ExportEntry, ExportKind, ProxyError,
};
use wasminspect::server::rpc::{
    binary_frame, kind_from_u8, read_binary_frame, BinaryRequest, BinaryRequestKind, BinaryResponseKind,
    RequestError, Response, TextResponse, WasmExport, WasmValue,
};
use wasminspect::vm::address::ModuleIndex;
use wasminspect::vm::memory::MemoryInstance;
use wasminspect::vm::module::{DefinedModuleInstance, ExportEntry as ModuleExport, Internal, ModuleInstance};
use wasminspect::vm::store::{ModuleParts, Store};
use wasminspect::vm::value::Value;

const EMPTY_MODULE: [u8; 8] = [0x00, 0x61, 0x73, 0x6d, 0x01, 0x00, 0x00, 0x00];

fn debugger_with_memory() -> MainDebugger {
    let mut store = Store::new();
    let module = DefinedModuleInstance::new_from_parity_module(
        vec![
            ModuleExport { field: "memory".to_string(), internal: Internal::Memory(0) },
            ModuleExport { field: "g".to_string(), internal: Internal::Global(0) },
        ],
        None,
        ModuleIndex(0),
        vec![],
    );
    store
        .add_module(ModuleParts {
            module: ModuleInstance::Defined(module),
            funcs: vec![],
            globals: vec![],
            memories: vec![MemoryInstance::new(1, None)],
            tables: vec![],
        })
        .unwrap();
    let mut d = MainDebugger::new();
    d.load_main_module(&EMPTY_MODULE, "m".to_string()).unwrap();
    d.instantiate(store, ModuleIndex(0)).unwrap();
    d
}

#[test]
fn binary_requests() {
    let init = BinaryRequest::from_bytes(&EMPTY_MODULE).ok().unwrap();
    assert_eq!(init.kind, BinaryRequestKind::Init);
    assert_eq!(init.bytes, &EMPTY_MODULE[..]);
    let r = BinaryRequest::from_bytes(&[0, 9, 8]).ok().unwrap();
    assert_eq!(r.kind, BinaryRequestKind::Init);
    assert_eq!(r.bytes, &[9, 8][..]);
    assert!(matches!(BinaryRequest::from_bytes(&[3, 1]), Err(RequestError::InvalidBinaryRequestKind(3))));
    assert_eq!(kind_from_u8(0), Some(BinaryRequestKind::Init));
    assert_eq!(kind_from_u8(1), None);
}

#[test]
fn binary_frames_round_trip() {
    let bytes = vec![5, 6, 7];
    let frame = binary_frame(BinaryResponseKind::Memory, &bytes);
    assert_eq!(frame, vec![0, 5, 6, 7]);
    assert_eq!(read_binary_frame(&frame), Some((BinaryResponseKind::Memory, bytes)));
    assert_eq!(read_binary_frame(&vec![]), None);
    assert_eq!(read_binary_frame(&vec![1, 2]), None);
    assert_eq!(BinaryResponseKind::Memory.code(), 0);
}

#[test]
fn values_on_the_wire() {
    for v in [Value::I32(-1), Value::I64(1 << 40), Value::F32(0x3f80_0000), Value::F64(7)] {
        assert_eq!(to_vm_wasm_value(&from_vm_wasm_value(&v)), v);
    }
    assert_eq!(from_vm_wasm_value(&Value::I32(3)), WasmValue::I32 { value: 3 });
    match call_result(&vec![Value::I64(2)]) {
        TextResponse::CallResult { values } => assert_eq!(values, vec![WasmValue::I64 { value: 2 }]),
        _ => panic!("no call result"),
    }
    match version_response() {
        TextResponse::Version { value } => assert_eq!(value, "0.1.0"),
        _ => panic!("no version"),
    }
    assert!(matches!(version_response().into_response(), Response::Text(TextResponse::Version { .. })));
}

#[test]
fn call_arity() {
    assert!(check_call_arity(2, 2).is_ok());
    assert!(matches!(check_call_arity(2, 1), Err(RequestError::CallArgumentLengthMismatch)));
}

#[test]
fn exports_report_memory_sizes() {
    let entries = vec![
        ExportEntry { kind: ExportKind::Function, field: "main".to_string(), index: 0 },
        ExportEntry { kind: ExportKind::Memory, field: "memory".to_string(), index: 1 },
    ];
    let out = module_exports(&vec![0, 2], &entries);
    assert_eq!(out.len(), 2);
    assert!(matches!(&out[0], WasmExport::Function { name } if name == "main"));
    assert!(matches!(&out[1], WasmExport::Memory { name, memory_size } if name == "memory" && *memory_size == 131072));
}

#[test]
fn memory_by_export_name() {
    let mut d = debugger_with_memory();
    assert_eq!(exported_memory_len(&d, "memory").ok(), Some(65536));
    assert!(store_memory(&mut d, "memory", 10, &[1, 2, 3]).is_ok());
    assert_eq!(load_memory(&d, "memory", 9, 5).ok().unwrap(), vec![0, 1, 2, 3, 0]);
    assert!(matches!(load_memory(&d, "nothing", 0, 1), Err(ProxyError::NoExportedMemory(n)) if n == "nothing"));
    assert!(matches!(load_memory(&d, "g", 0, 1), Err(ProxyError::NotAMemory(_))));
    let empty = MainDebugger::new();
    assert!(matches!(load_memory(&empty, "memory", 0, 1), Err(ProxyError::Debugger(_))));
}

#[test]
fn call_steps_follow_how_the_run_stopped() {
    match call_step(Ok(RunResult::Finish(vec![Value::I32(3)]))) {
        CallAction::Reply(TextResponse::CallResult { values }) => assert_eq!(values, vec![WasmValue::I32 { value: 3 }]),
        _ => panic!("expected the results"),
    }
    let host = HostRequest::Call { module_name: "env".to_string(), field_name: "f".to_string(), args: vec![Value::I64(7)] };
    match call_step(Ok(RunResult::Host(host))) {
        CallAction::CallHost(TextResponse::CallHost { module, field, args }) => {
            assert_eq!((module.as_str(), field.as_str()), ("env", "f"));
            assert_eq!(args, vec![WasmValue::I64 { value: 7 }]);
        }
        _ => panic!("expected a host call"),
    }
    assert!(matches!(call_step(Ok(RunResult::Paused)), CallAction::Continue));
    assert!(matches!(call_step(Ok(RunResult::Breakpoint)), CallAction::Interact));
    assert!(matches!(call_step(Err(DebuggerError::NoInstance)), CallAction::Fail(DebuggerError::NoInstance)));
    let float = HostRequest::Float { opcode: 0x92, args: vec![Value::F32(0), Value::F32(0)] };
    assert!(matches!(call_step(Ok(RunResult::Host(float))), CallAction::Compute(0x92, a) if a.len() == 2));
}

fn module_with_exports(exports: &[u8]) -> Vec<u8> {
    let mut m = vec![0x00, 0x61, 0x73, 0x6d, 0x01, 0x00, 0x00, 0x00];
    m.extend_from_slice(&[0x01, 0x04, 0x01, 0x60, 0x00, 0x00]);
    m.extend_from_slice(&[0x03, 0x02, 0x01, 0x00]);
    m.extend_from_slice(&[0x05, 0x03, 0x01, 0x00, 0x02]);
    m.push(0x07);
    m.push(exports.len() as u8);
    m.extend_from_slice(exports);
    m.extend_from_slice(&[0x0a, 0x04, 0x01, 0x02, 0x00, 0x0b]);
    m
}

#[test]
fn a_modules_exports_are_read_from_its_bytes() {
    let exports = [0x02, 0x04, b'm', b'a', b'i', b'n', 0x00, 0x00, 0x06, b'm', b'e', b'm', b'o', b'r', b'y', 0x02, 0x00];
    let out = exports_of_module(&module_with_exports(&exports)).ok().unwrap();
    assert_eq!(out.len(), 2);
    assert!(matches!(&out[0], WasmExport::Function { name } if name == "main"));
    assert!(matches!(&out[1], WasmExport::Memory { name, memory_size } if name == "memory" && *memory_size == 131072));
}

#[test]
fn unreportable_exports_are_refused() {
    let global = [0x01, 0x01, b'g', 0x03, 0x00];
    assert!(matches!(exports_of_module(&module_with_exports(&global)), Err(ExportsError::Unreportable)));
    let missing_memory = [0x01, 0x01, b'm', 0x02, 0x05];
    assert!(matches!(exports_of_module(&module_with_exports(&missing_memory)), Err(ExportsError::Unreportable)));
    assert!(matches!(exports_of_module(&[0x00, 0x61, 0x73]), Err(ExportsError::Parse(_))));
    let too_large = vec![ExportEntry { kind: ExportKind::Memory, field: "m".to_string(), index: 0 }];
    assert!(!check_exports(&vec![usize::MAX / 2], &too_large));
    assert!(check_exports(&vec![3], &too_large));
}

#[test]
fn host_call_messages_are_answered_one_by_one() {
    let mut d = debugger_with_memory();
    assert!(matches!(host_call_step(&mut d, 1, HostCallEvent::CallResult(3)), HostCallAction::Resume(1)));
    assert!(matches!(host_call_step(&mut d, 2, HostCallEvent::CallResult(0)), HostCallAction::Resume(0)));
    let store = HostCallEvent::StoreMemory { name: "memory".to_string(), offset: 4, bytes: vec![9, 8] };
    assert!(matches!(host_call_step(&mut d, 0, store), HostCallAction::Reply(TextResponse::StoreMemoryResult)));
    let load = HostCallEvent::LoadMemory { name: "memory".to_string(), offset: 3, length: 4 };
    match host_call_step(&mut d, 0, load) {
        HostCallAction::Reply(TextResponse::LoadMemoryResult { bytes }) => assert_eq!(bytes, vec![0, 9, 8, 0]),
        _ => panic!("no memory"),
    }
    let missing = HostCallEvent::LoadMemory { name: "nothing".to_string(), offset: 0, length: 1 };
    assert!(matches!(host_call_step(&mut d, 0, missing), HostCallAction::Fail(ProxyError::NoExportedMemory(_))));
    assert!(matches!(host_call_step(&mut d, 0, HostCallEvent::CallExported("f".to_string())), HostCallAction::CallNested(n) if n == "f"));
    assert!(matches!(host_call_step(&mut d, 0, HostCallEvent::Other("Version".to_string())), HostCallAction::Refuse(w) if w == "Version"));
}
