use wasminspect::vm::address::{FuncAddr, GlobalAddr, MemoryAddr, ModuleIndex, TableAddr};
use wasminspect::vm::executor::{
    invoke_func, run_steps, HostRequest, Invocation, RunOutcome, Signal, Trap, WasmError,
};
use wasminspect::vm::func::{DefinedFunctionInstance, FunctionInstance, FunctionType, HostFunctionInstance, Locals};
use wasminspect::vm::global::{DefinedGlobalInstance, GlobalType};
use wasminspect::vm::instance::{entry_func, LoadError, WasmInstance};
use wasminspect::vm::instantiate::{instantiate_module, instantiate_store, DecodedModule, InstantiateError};
use wasminspect::vm::instruction::{BlockType, InstKind, Instruction, LoadKind, StoreKind};
use wasminspect::vm::memory::{Error as MemoryError, MemoryInstance};
use wasminspect::vm::module::{
    DefinedModuleInstance, ExportEntry, HostExport, HostModuleInstance, Internal, ModuleInstance,
};
use wasminspect::vm::stack::Stack;
use wasminspect::vm::store::{ModuleParts, Store};
use wasminspect::vm::table::{DefinedTableInstance, Error as TableError};
use wasminspect::vm::value::{i32_binop, i64_binop, Error as ValueError, IntBinOp, Value, ValueType};

fn inst(kind: InstKind) -> Instruction {
    Instruction { kind, offset: 0 }
}

fn body(kinds: Vec<InstKind>) -> Vec<Instruction> {
    kinds.into_iter().enumerate().map(|(i, k)| Instruction { kind: k, offset: 100 + i }).collect()
}

fn func(name: &str, params: Vec<ValueType>, returns: Vec<ValueType>, kinds: Vec<InstKind>) -> FunctionInstance {
    FunctionInstance::Defined(DefinedFunctionInstance::new(
        name.to_string(),
        FunctionType { params, returns },
        ModuleIndex(0),
        vec![],
        body(kinds),
    ))
}

/// A store with one module: its functions, exported under their names, one
/// memory of one page, and one mutable global.
fn store_with(funcs: Vec<(&str, FunctionInstance)>) -> Store {
    let mut store = Store::new();
    let entries: Vec<ExportEntry> = funcs
        .iter()
        .enumerate()
        .map(|(i, (n, _))| ExportEntry { field: n.to_string(), internal: Internal::Function(i as u32) })
        .collect();
    let module = DefinedModuleInstance::new_from_parity_module(entries, None, ModuleIndex(0), vec![]);
    let parts = ModuleParts {
        module: ModuleInstance::Defined(module),
        funcs: funcs.into_iter().map(|(_, f)| f).collect(),
        globals: vec![DefinedGlobalInstance::new(Value::I32(7), GlobalType { content_type: ValueType::I32, mutable: true })],
        memories: vec![MemoryInstance::new(1, None)],
        tables: vec![],
    };
    store.add_module(parts).unwrap();
    store
}

fn run(store: &mut Store, name: &str, args: Vec<Value>) -> Result<RunOutcome, WasmError> {
    let addr = match store.module(ModuleIndex(0)) {
        Some(ModuleInstance::Defined(dm)) => entry_func(dm, Some(name.to_string())).ok().unwrap(),
        _ => panic!(),
    };
    match invoke_func(addr, args, store) {
        Ok(Invocation::Running(mut e, tys)) => run_steps(&mut e, &tys, store, 10_000),
        Ok(Invocation::Host(q)) => Ok(RunOutcome::Host(q)),
        Err(e) => Err(e),
    }
}

#[test]
fn integer_ops_wrap_and_trap() {
    assert_eq!(i32_binop(IntBinOp::Add, i32::MAX, 1), Ok(i32::MIN));
    assert_eq!(i32_binop(IntBinOp::DivS, 7, -2), Ok(-3));
    assert_eq!(i32_binop(IntBinOp::RemS, -7, 2), Ok(-1));
    assert_eq!(i32_binop(IntBinOp::DivU, -1, 2), Ok(0x7fff_ffff));
    assert_eq!(i32_binop(IntBinOp::DivS, 1, 0), Err(ValueError::ZeroDivision));
    assert_eq!(i32_binop(IntBinOp::DivS, i32::MIN, -1), Err(ValueError::IntegerOverflow));
    assert_eq!(i32_binop(IntBinOp::Shl, 1, 33), Ok(2));
    assert_eq!(i32_binop(IntBinOp::Rotl, 0x8000_0001u32 as i32, 1), Ok(3));
    assert_eq!(i64_binop(IntBinOp::Mul, 1 << 62, 4), Ok(0));
    assert_eq!(i64_binop(IntBinOp::RemU, 10, 0), Err(ValueError::ZeroDivision));
}

#[test]
fn memory_store_then_load() {
    let mut m = MemoryInstance::new(1, Some(2));
    assert_eq!(m.data_len(), 65536);
    assert_eq!(m.store(8, &[0x78, 0x56, 0x34, 0x12]), Ok(()));
    assert_eq!(m.load(8, 4), Ok(0x12345678));
    assert_eq!(m.load(9, 2), Ok(0x3456));
    assert_eq!(m.load(65534, 4), Err(MemoryError::AccessOutOfBounds(Some(65538), 65536)));
    assert_eq!(m.store(65535, &[1, 2]), Err(MemoryError::AccessOutOfBounds(Some(65537), 65536)));
}

#[test]
fn memory_grow_within_maximum() {
    let mut m = MemoryInstance::new(1, Some(2));
    assert_eq!(m.grow(1), Ok(()));
    assert_eq!(m.page_count(), 2);
    assert_eq!(m.load(65536, 1), Ok(0));
    assert_eq!(m.grow(1), Err(MemoryError::GrowOverMaximumSize(3)));
    assert_eq!(m.page_count(), 2);
}

#[test]
fn stack_pop_after_push() {
    let mut s = Stack::new();
    s.push_value(Value::I64(9));
    assert_eq!(s.pop_value(), Ok(Value::I64(9)));
    assert_eq!(s.len(), 0);
    assert!(s.pop_value().is_err());
}

#[test]
fn table_read_after_initialize() {
    let mut t = DefinedTableInstance::new(4, None);
    assert!(t.get_at(1).is_err());
    assert_eq!(t.initialize(1, vec![FuncAddr(ModuleIndex(0), 5)]), Ok(()));
    assert_eq!(t.get_at(1), Ok(FuncAddr(ModuleIndex(0), 5)));
    assert!(t.initialize(4, vec![FuncAddr(ModuleIndex(0), 5)]).is_err());
}

#[test]
fn runs_arithmetic() {
    let f = func(
        "add",
        vec![],
        vec![ValueType::I32],
        vec![InstKind::I32Const(40), InstKind::I32Const(2), InstKind::I32Bin(IntBinOp::Add), InstKind::End],
    );
    let mut store = store_with(vec![("add", f)]);
    match run(&mut store, "add", vec![]) {
        Ok(RunOutcome::Finished(v)) => assert_eq!(v, vec![Value::I32(42)]),
        _ => panic!("no result"),
    }
}

#[test]
fn runs_with_arguments_and_locals() {
    let f = func(
        "sub",
        vec![ValueType::I32, ValueType::I32],
        vec![ValueType::I32],
        vec![InstKind::GetLocal(0), InstKind::GetLocal(1), InstKind::I32Bin(IntBinOp::Sub), InstKind::End],
    );
    let mut store = store_with(vec![("sub", f)]);
    match run(&mut store, "sub", vec![Value::I32(10), Value::I32(3)]) {
        Ok(RunOutcome::Finished(v)) => assert_eq!(v, vec![Value::I32(7)]),
        _ => panic!("no result"),
    }
}

#[test]
fn runs_loops_and_branches() {
    // sum 1..=5 with a loop: local 0 counts down, local 1 accumulates
    let f = FunctionInstance::Defined(DefinedFunctionInstance::new(
        "sum".to_string(),
        FunctionType { params: vec![], returns: vec![ValueType::I32] },
        ModuleIndex(0),
        vec![Locals { count: 2, value_type: ValueType::I32 }],
        body(vec![
            InstKind::I32Const(5),
            InstKind::SetLocal(0),
            InstKind::Block(BlockType::NoResult),
            InstKind::Loop(BlockType::NoResult),
            InstKind::GetLocal(0),
            InstKind::I32Eqz,
            InstKind::BrIf(1),
            InstKind::GetLocal(1),
            InstKind::GetLocal(0),
            InstKind::I32Bin(IntBinOp::Add),
            InstKind::SetLocal(1),
            InstKind::GetLocal(0),
            InstKind::I32Const(1),
            InstKind::I32Bin(IntBinOp::Sub),
            InstKind::SetLocal(0),
            InstKind::Br(0),
            InstKind::End,
            InstKind::End,
            InstKind::GetLocal(1),
            InstKind::End,
        ]),
    ));
    let mut store = store_with(vec![("sum", f)]);
    match run(&mut store, "sum", vec![]) {
        Ok(RunOutcome::Finished(v)) => assert_eq!(v, vec![Value::I32(15)]),
        _ => panic!("no result"),
    }
}

#[test]
fn if_else_takes_the_branch() {
    let f = func(
        "pick",
        vec![ValueType::I32],
        vec![ValueType::I32],
        vec![
            InstKind::GetLocal(0),
            InstKind::If(BlockType::Value(ValueType::I32)),
            InstKind::I32Const(1),
            InstKind::Else,
            InstKind::I32Const(2),
            InstKind::End,
            InstKind::End,
        ],
    );
    let mut store = store_with(vec![("pick", f)]);
    match run(&mut store, "pick", vec![Value::I32(1)]) {
        Ok(RunOutcome::Finished(v)) => assert_eq!(v, vec![Value::I32(1)]),
        _ => panic!("no result"),
    }
    match run(&mut store, "pick", vec![Value::I32(0)]) {
        Ok(RunOutcome::Finished(v)) => assert_eq!(v, vec![Value::I32(2)]),
        _ => panic!("no result"),
    }
}

#[test]
fn calls_and_returns() {
    let callee = func(
        "double",
        vec![ValueType::I64],
        vec![ValueType::I64],
        vec![InstKind::GetLocal(0), InstKind::GetLocal(0), InstKind::I64Bin(IntBinOp::Add), InstKind::Return, InstKind::End],
    );
    let caller = func(
        "main",
        vec![],
        vec![ValueType::I64],
        vec![InstKind::I64Const(21), InstKind::Call(0), InstKind::End],
    );
    let mut store = store_with(vec![("double", callee), ("main", caller)]);
    match run(&mut store, "main", vec![]) {
        Ok(RunOutcome::Finished(v)) => assert_eq!(v, vec![Value::I64(42)]),
        _ => panic!("no result"),
    }
}

#[test]
fn memory_and_globals_through_instructions() {
    let f = func(
        "mem",
        vec![],
        vec![ValueType::I32],
        vec![
            InstKind::I32Const(16),
            InstKind::GetGlobal(0),
            InstKind::Store(StoreKind::I32, 4),
            InstKind::I32Const(99),
            InstKind::SetGlobal(0),
            InstKind::I32Const(20),
            InstKind::Load(LoadKind::I32, 0),
            InstKind::GetGlobal(0),
            InstKind::I32Bin(IntBinOp::Add),
            InstKind::End,
        ],
    );
    let mut store = store_with(vec![("mem", f)]);
    match run(&mut store, "mem", vec![]) {
        Ok(RunOutcome::Finished(v)) => assert_eq!(v, vec![Value::I32(106)]),
        _ => panic!("no result"),
    }
    assert_eq!(store.global(GlobalAddr(ModuleIndex(0), 0)).unwrap().value(), Value::I32(99));
    assert_eq!(store.memory(MemoryAddr(ModuleIndex(0), 0)).unwrap().load(20, 4), Ok(7));
}

#[test]
fn grow_memory_reports_old_size() {
    let f = func(
        "grow",
        vec![],
        vec![ValueType::I32],
        vec![InstKind::I32Const(1), InstKind::GrowMemory, InstKind::Drop, InstKind::CurrentMemory, InstKind::End],
    );
    let mut store = store_with(vec![("grow", f)]);
    match run(&mut store, "grow", vec![]) {
        Ok(RunOutcome::Finished(v)) => assert_eq!(v, vec![Value::I32(2)]),
        _ => panic!("no result"),
    }
}

#[test]
fn traps_are_reported() {
    let div = func(
        "div",
        vec![],
        vec![ValueType::I32],
        vec![InstKind::I32Const(1), InstKind::I32Const(0), InstKind::I32Bin(IntBinOp::DivU), InstKind::End],
    );
    let unreachable = func("boom", vec![], vec![], vec![InstKind::Unreachable, InstKind::End]);
    let oob = func(
        "oob",
        vec![],
        vec![ValueType::I32],
        vec![InstKind::I32Const(65535), InstKind::Load(LoadKind::I32, 0), InstKind::End],
    );
    let mut store = store_with(vec![("div", div), ("boom", unreachable), ("oob", oob)]);
    assert!(matches!(run(&mut store, "div", vec![]), Err(WasmError::ExecutionError(Trap::Value(ValueError::ZeroDivision)))));
    assert!(matches!(run(&mut store, "boom", vec![]), Err(WasmError::ExecutionError(Trap::Unreachable))));
    assert!(matches!(run(&mut store, "oob", vec![]), Err(WasmError::ExecutionError(Trap::Memory(_)))));
}

#[test]
fn floats_are_handed_out_and_resumed() {
    let f = func(
        "fadd",
        vec![],
        vec![ValueType::F32],
        vec![InstKind::F32Const(0x3f80_0000), InstKind::F32Const(0x4000_0000), InstKind::FloatNumeric(0x92), InstKind::End],
    );
    let mut store = store_with(vec![("fadd", f)]);
    let addr = FuncAddr(ModuleIndex(0), 0);
    let (mut e, tys) = match invoke_func(addr, vec![], &store) {
        Ok(Invocation::Running(e, tys)) => (e, tys),
        _ => panic!(),
    };
    match run_steps(&mut e, &tys, &mut store, 100) {
        Ok(RunOutcome::Host(HostRequest::Float { opcode, args })) => {
            assert_eq!(opcode, 0x92);
            assert_eq!(args, vec![Value::F32(0x3f80_0000), Value::F32(0x4000_0000)]);
        }
        _ => panic!("no float request"),
    }
    assert!(e.resume(vec![Value::I32(0)]).is_err());
    assert!(e.resume(vec![Value::F32(0x4040_0000)]).is_ok());
    match run_steps(&mut e, &tys, &mut store, 100) {
        Ok(RunOutcome::Finished(v)) => assert_eq!(v, vec![Value::F32(0x4040_0000)]),
        _ => panic!("no result"),
    }
    assert!(matches!(e.resume(vec![]), Err(Trap::NoPendingRequest)));
}

#[test]
fn budget_pauses_the_run() {
    let f = func("spin", vec![], vec![], vec![InstKind::Loop(BlockType::NoResult), InstKind::Br(0), InstKind::End, InstKind::End]);
    let mut store = store_with(vec![("spin", f)]);
    let (mut e, tys) = match invoke_func(FuncAddr(ModuleIndex(0), 0), vec![], &store) {
        Ok(Invocation::Running(e, tys)) => (e, tys),
        _ => panic!(),
    };
    assert!(matches!(run_steps(&mut e, &tys, &mut store, 50), Ok(RunOutcome::Paused)));
}

#[test]
fn imported_functions_resolve_to_host_modules() {
    let mut instance: WasmInstance<()> = WasmInstance::new();
    let host = HostModuleInstance::new(vec![(
        "print".to_string(),
        HostExport::Func(FunctionType { params: vec![ValueType::I32], returns: vec![] }),
    )]);
    let env = instance.load_host_module("env".to_string(), host).unwrap();
    assert_eq!(env, ModuleIndex(0));
    let imported = FunctionInstance::Host(HostFunctionInstance::new(
        FunctionType { params: vec![ValueType::I32], returns: vec![] },
        "env".to_string(),
        "print".to_string(),
    ));
    let main = FunctionInstance::Defined(DefinedFunctionInstance::new(
        "main".to_string(),
        FunctionType { params: vec![], returns: vec![] },
        ModuleIndex(1),
        vec![],
        body(vec![InstKind::I32Const(5), InstKind::Call(0), InstKind::End]),
    ));
    let module = DefinedModuleInstance::new_from_parity_module(
        vec![ExportEntry { field: "_start".to_string(), internal: Internal::Function(1) }],
        None,
        ModuleIndex(1),
        vec![],
    );
    let idx = instance
        .store
        .add_module(ModuleParts {
            module: ModuleInstance::Defined(module),
            funcs: vec![imported, main],
            globals: vec![],
            memories: vec![],
            tables: vec![],
        })
        .unwrap();
    let (mut e, tys) = match instance.run(idx, None, vec![]) {
        Ok(Invocation::Running(e, tys)) => (e, tys),
        _ => panic!("no run"),
    };
    match run_steps(&mut e, &tys, &mut instance.store, 100) {
        Ok(RunOutcome::Host(HostRequest::Call { module_name, field_name, args })) => {
            assert_eq!(module_name, "env");
            assert_eq!(field_name, "print");
            assert_eq!(args, vec![Value::I32(5)]);
        }
        _ => panic!("no host call"),
    }
    assert!(e.resume(vec![]).is_ok());
    assert!(matches!(run_steps(&mut e, &tys, &mut instance.store, 100), Ok(RunOutcome::Finished(v)) if v.is_empty()));
    assert!(matches!(instance.run(idx, Some("nope".to_string()), vec![]), Err(WasmError::EntryFunctionNotFound(n)) if n == "nope"));
}

#[test]
fn globals_by_export_name() {
    let mut instance: WasmInstance<u8> = WasmInstance::new();
    let module = DefinedModuleInstance::new_from_parity_module(
        vec![ExportEntry { field: "g".to_string(), internal: Internal::Global(0) }],
        None,
        ModuleIndex(0),
        vec![],
    );
    let idx = instance
        .store
        .add_module(ModuleParts {
            module: ModuleInstance::Defined(module),
            funcs: vec![],
            globals: vec![DefinedGlobalInstance::new(Value::I64(-3), GlobalType { content_type: ValueType::I64, mutable: false })],
            memories: vec![],
            tables: vec![],
        })
        .unwrap();
    assert_eq!(instance.get_global(idx, "g"), Some(Value::I64(-3)));
    assert_eq!(instance.get_global(idx, "h"), None);
    instance.register_name("main".to_string(), idx);
    assert_eq!(instance.store.module_index_by_name("main"), Some(idx));
    instance.add_embed_context(4);
    assert_eq!(instance.contexts, vec![4]);
    let _ = TableAddr(idx, 0);
}

#[test]
fn set_global_on_immutable_traps() {
    let f = func("set", vec![], vec![], vec![InstKind::I32Const(1), InstKind::SetGlobal(0), InstKind::End]);
    let mut store = Store::new();
    let module = DefinedModuleInstance::new_from_parity_module(
        vec![ExportEntry { field: "set".to_string(), internal: Internal::Function(0) }],
        None,
        ModuleIndex(0),
        vec![],
    );
    store
        .add_module(ModuleParts {
            module: ModuleInstance::Defined(module),
            funcs: vec![f],
            globals: vec![DefinedGlobalInstance::new(Value::I32(0), GlobalType { content_type: ValueType::I32, mutable: false })],
            memories: vec![],
            tables: vec![],
        })
        .unwrap();
    assert!(matches!(run(&mut store, "set", vec![]), Err(WasmError::ExecutionError(Trap::ImmutableGlobal(_)))));
}

#[test]
fn signals_are_plain() {
    let s = Signal::Next;
    assert!(matches!(s, Signal::Next));
    let _ = inst(InstKind::Nop);
}

#[test]
fn registered_names_find_their_modules() {
    let mut store = Store::new();
    let host = HostModuleInstance::new(vec![]);
    let env = store.load_host_module("env".to_string(), host).unwrap();
    assert_eq!(store.module_index_by_name("env"), Some(env));
    store.register_name("alias".to_string(), env);
    assert_eq!(store.module_index_by_name("alias"), Some(env));
    assert_eq!(store.module_index_by_name("env"), Some(env));
    assert_eq!(store.module_index_by_name("other"), None);
}

#[test]
fn a_division_by_zero_traps_with_its_operands_popped() {
    let div = func(
        "div",
        vec![],
        vec![ValueType::I32],
        vec![InstKind::I32Const(1), InstKind::I32Const(0), InstKind::I32Bin(IntBinOp::DivS), InstKind::End],
    );
    let mut store = store_with(vec![("div", div)]);
    let mut e = match invoke_func(FuncAddr(ModuleIndex(0), 0), vec![], &store) {
        Ok(Invocation::Running(e, _)) => e,
        _ => panic!("no run"),
    };
    let frame_entries = e.stack.len();
    assert!(matches!(e.execute_step(&mut store), Ok(Signal::Next)));
    assert!(matches!(e.execute_step(&mut store), Ok(Signal::Next)));
    assert_eq!(e.stack.len(), frame_entries + 2);
    assert!(matches!(e.execute_step(&mut store), Err(Trap::Value(ValueError::ZeroDivision))));
    assert_eq!(e.stack.len(), frame_entries);
}

fn start_parts(start: Option<u32>) -> ModuleParts {
    let set = func("init", vec![], vec![], vec![InstKind::I32Const(42), InstKind::SetGlobal(0), InstKind::End]);
    ModuleParts {
        module: ModuleInstance::Defined(DefinedModuleInstance::new_from_parity_module(vec![], start, ModuleIndex(0), vec![])),
        funcs: vec![set],
        globals: vec![DefinedGlobalInstance::new(Value::I32(0), GlobalType { content_type: ValueType::I32, mutable: true })],
        memories: vec![],
        tables: vec![],
    }
}

#[test]
fn loading_a_module_starts_its_start_function() {
    let mut instance: WasmInstance<()> = WasmInstance::new();
    let (idx, invocation) = match instance.load_module(Some("main".to_string()), start_parts(Some(0))) {
        Ok(loaded) => loaded,
        Err(e) => panic!("{:?}", e),
    };
    assert_eq!(idx, ModuleIndex(0));
    assert_eq!(instance.store.module_index_by_name("main"), Some(idx));
    let (mut e, tys) = match invocation {
        Some(Invocation::Running(e, tys)) => (e, tys),
        _ => panic!("the start function was not started"),
    };
    assert!(matches!(run_steps(&mut e, &tys, &mut instance.store, 100), Ok(RunOutcome::Finished(v)) if v.is_empty()));
    assert_eq!(instance.store.global(GlobalAddr(idx, 0)).unwrap().value(), Value::I32(42));
}

#[test]
fn a_module_without_a_start_function_only_loads() {
    let mut instance: WasmInstance<()> = WasmInstance::new();
    assert!(matches!(instance.load_module(None, start_parts(None)), Ok((ModuleIndex(0), None))));
    assert_eq!(instance.store.module_index_by_name("main"), None);
    assert_eq!(instance.store.global(GlobalAddr(ModuleIndex(0), 0)).unwrap().value(), Value::I32(0));
}

#[test]
fn a_start_function_that_does_not_exist_fails_the_load() {
    let mut instance: WasmInstance<()> = WasmInstance::new();
    assert!(matches!(
        instance.load_module(Some("main".to_string()), start_parts(Some(3))),
        Err(LoadError::FailedEntryFunction(WasmError::ExecutionError(_)))
    ));
    assert_eq!(instance.store.module_count(), 1);
}

#[test]
fn imports_go_through_a_registered_name() {
    let mut instance: WasmInstance<()> = WasmInstance::new();
    let seven = FunctionInstance::Defined(DefinedFunctionInstance::new(
        "seven".to_string(),
        FunctionType { params: vec![], returns: vec![ValueType::I32] },
        ModuleIndex(0),
        vec![],
        body(vec![InstKind::I32Const(7), InstKind::End]),
    ));
    let library = DefinedModuleInstance::new_from_parity_module(
        vec![ExportEntry { field: "f".to_string(), internal: Internal::Function(0) }],
        None,
        ModuleIndex(0),
        vec![],
    );
    let parts = ModuleParts { module: ModuleInstance::Defined(library), funcs: vec![seven], globals: vec![], memories: vec![], tables: vec![] };
    let (lib, _) = instance.load_module(None, parts).ok().unwrap();
    instance.register_name("lib".to_string(), lib);
    assert_eq!(instance.store.module_count(), 1);
    let imported = FunctionInstance::Host(HostFunctionInstance::new(
        FunctionType { params: vec![], returns: vec![ValueType::I32] },
        "lib".to_string(),
        "f".to_string(),
    ));
    let main = FunctionInstance::Defined(DefinedFunctionInstance::new(
        "main".to_string(),
        FunctionType { params: vec![], returns: vec![ValueType::I32] },
        ModuleIndex(1),
        vec![],
        body(vec![InstKind::Call(0), InstKind::I32Const(1), InstKind::I32Bin(IntBinOp::Add), InstKind::End]),
    ));
    let user = DefinedModuleInstance::new_from_parity_module(
        vec![ExportEntry { field: "main".to_string(), internal: Internal::Function(1) }],
        None,
        ModuleIndex(1),
        vec![],
    );
    let parts = ModuleParts { module: ModuleInstance::Defined(user), funcs: vec![imported, main], globals: vec![], memories: vec![], tables: vec![] };
    let (idx, _) = instance.load_module(Some("user".to_string()), parts).ok().unwrap();
    let (mut e, tys) = match instance.run(idx, Some("main".to_string()), vec![]) {
        Ok(Invocation::Running(e, tys)) => (e, tys),
        _ => panic!("no run"),
    };
    assert!(matches!(run_steps(&mut e, &tys, &mut instance.store, 100), Ok(RunOutcome::Finished(v)) if v == vec![Value::I32(8)]));
}

fn decoded(elements: Vec<(usize, usize, Vec<u32>)>, data: Vec<(usize, usize, Vec<u8>)>, exported: bool) -> DecodedModule {
    let ty = FunctionType { params: vec![], returns: vec![ValueType::I32] };
    DecodedModule {
        types: vec![ty],
        imports: vec![
            ("env".to_string(), "f".to_string(), 0),
            ("env".to_string(), "f".to_string(), 0),
            ("lib".to_string(), "g".to_string(), 0),
        ],
        func_types: vec![0],
        bodies: vec![(vec![Locals { count: 2, value_type: ValueType::I32 }], body(vec![InstKind::I32Const(1), InstKind::End]))],
        tables: vec![(4, None)],
        memories: vec![(1, Some(2))],
        globals: vec![],
        exports: if exported {
            vec![ExportEntry { field: "main".to_string(), internal: Internal::Function(3) }]
        } else {
            vec![]
        },
        start: None,
        elements,
        data,
    }
}

#[test]
fn a_decoded_module_is_instantiated_with_its_segments() {
    let parts = instantiate_module(decoded(vec![(0, 1, vec![3])], vec![(0, 10, vec![1, 2, 3])], true), ModuleIndex(2), "m")
        .ok()
        .unwrap();
    assert_eq!(parts.funcs.len(), 4);
    match &parts.funcs[1] {
        FunctionInstance::Host(h) => assert!(h.module_name() == "env" && h.field_name() == "f"),
        _ => panic!("no import"),
    }
    match &parts.funcs[3] {
        FunctionInstance::Defined(d) => {
            assert_eq!(d.name(), "main");
            assert_eq!(d.locals().len(), 2);
            assert_eq!(d.module_index(), ModuleIndex(2));
        }
        _ => panic!("no definition"),
    }
    assert_eq!(parts.tables[0].get_at(1), Ok(FuncAddr(ModuleIndex(2), 3)));
    assert!(parts.tables[0].get_at(0).is_err());
    assert_eq!(parts.memories[0].load(10, 4), Ok(0x0003_0201));
    let unnamed = instantiate_module(decoded(vec![], vec![], false), ModuleIndex(0), "m").ok().unwrap();
    match &unnamed.funcs[3] {
        FunctionInstance::Defined(d) => assert_eq!(d.name(), "m::func3"),
        _ => panic!("no definition"),
    }
}

#[test]
fn segments_and_types_that_do_not_fit_are_errors() {
    let e = |d: DecodedModule| instantiate_module(d, ModuleIndex(0), "m").err();
    assert_eq!(e(decoded(vec![(1, 0, vec![])], vec![], true)), Some(InstantiateError::NoTable(1)));
    assert_eq!(
        e(decoded(vec![(0, 3, vec![3, 3])], vec![], true)),
        Some(InstantiateError::Table(TableError::AccessOutOfBounds(Some(5), 4)))
    );
    assert_eq!(e(decoded(vec![], vec![(1, 0, vec![])], true)), Some(InstantiateError::NoMemory(1)));
    assert_eq!(
        e(decoded(vec![], vec![(0, 65535, vec![1, 2])], true)),
        Some(InstantiateError::Memory(MemoryError::AccessOutOfBounds(Some(65537), 65536)))
    );
    let mut bad_import = decoded(vec![], vec![], true);
    bad_import.imports.push(("env".to_string(), "h".to_string(), 7));
    assert_eq!(e(bad_import), Some(InstantiateError::NoType(7)));
    let mut big = decoded(vec![], vec![], true);
    big.memories = vec![(70000, None)];
    assert_eq!(e(big), Some(InstantiateError::MemoryTooLarge(70000)));
    let mut untyped = decoded(vec![], vec![], true);
    untyped.func_types = vec![];
    assert_eq!(e(untyped), Some(InstantiateError::NoFunctionType(0)));
}

#[test]
fn a_store_holds_a_host_module_for_each_module_imported_from() {
    let (store, idx) = instantiate_store(decoded(vec![], vec![], true), "m").ok().unwrap();
    assert_eq!(idx, ModuleIndex(2));
    assert_eq!(store.module_count(), 3);
    assert_eq!(store.module_index_by_name("env"), Some(ModuleIndex(0)));
    assert_eq!(store.module_index_by_name("lib"), Some(ModuleIndex(1)));
    assert_eq!(store.module_index_by_name("m"), Some(idx));
    match store.module(ModuleIndex(0)) {
        Some(ModuleInstance::Host(h)) => {
            assert!(matches!(h.func_by_name("f"), Ok(Some(t)) if t.returns == vec![ValueType::I32]));
            assert!(matches!(h.func_by_name("g"), Ok(None)));
        }
        _ => panic!("no host module"),
    }
    assert!(matches!(store.func(FuncAddr(idx, 3)), Some(FunctionInstance::Defined(_))));
}
