use std::collections::HashMap;
use wasminspect::debugger::commands::breakpoint::{BreakpointCommand, BreakpointOpts};
use wasminspect::debugger::commands::command::{CommandContext, CommandError, CommandResult, ContextSourceMap};
use wasminspect::debugger::commands::debugger::{Breakpoint, DebuggerOpts, RunResult, StepStyle};
use wasminspect::debugger::commands::disassemble::{display_asm, effective_count, AsmLine, DisassembleOpts};
use wasminspect::debugger::commands::expression::{current_index, frame_base};
use wasminspect::debugger::commands::local::{read_locals, LocalOpts};
use wasminspect::debugger::commands::memory::{dump_memory_as_str, enable_watch, parse_address, read_memory};
use wasminspect::debugger::commands::process::command_result;
use wasminspect::debugger::commands::settings::{SettingsCommand, SettingsOpts};
use wasminspect::debugger::commands::sourcemap::{ColumnType, EmptySourceMap, LineInfo, SourceMap};
use wasminspect::debugger::commands::thread::{backtrace_lines, line_step, step_style, LineStep, ThreadOpts};
use wasminspect::debugger::debugger::{str_contains, Breakpoints, DebugSignal, DebuggerError, MainDebugger};
use wasminspect::debugger::dwarf::{
    read_wasm_location, DwarfError, DwarfSourceMap, DwarfSubroutineMap, DwarfUnitSourceMap, FrameBase, LineRow,
    Subroutine, WasmLoc,
};
use wasminspect::debugger::die::DwarfEncoding;
use wasminspect::vm::address::{FuncAddr, ModuleIndex};
use wasminspect::vm::func::{DefinedFunctionInstance, FunctionInstance, FunctionType};
use wasminspect::vm::global::{DefinedGlobalInstance, GlobalType};
use wasminspect::vm::instruction::{InstKind, Instruction};
use wasminspect::vm::memory::MemoryInstance;
use wasminspect::vm::module::{DefinedModuleInstance, ExportEntry, Internal, ModuleInstance};
use wasminspect::vm::store::{ModuleParts, Store};
use wasminspect::vm::value::{IntBinOp, Value, ValueType};

const ENC: DwarfEncoding = DwarfEncoding { address_size: 4, format64: false, version: 4 };

const EMPTY_MODULE: [u8; 8] = [0x00, 0x61, 0x73, 0x6d, 0x01, 0x00, 0x00, 0x00];

fn body(kinds: Vec<InstKind>) -> Vec<Instruction> {
    kinds.into_iter().enumerate().map(|(i, k)| Instruction { kind: k, offset: 100 + i }).collect()
}

fn func(name: &str, params: Vec<ValueType>, returns: Vec<ValueType>, kinds: Vec<InstKind>) -> FunctionInstance {
    FunctionInstance::Defined(DefinedFunctionInstance::new(
        name.to_string(),
        FunctionType { params, returns },
        ModuleIndex(0),
        vec![],
        body(kinds),
    ))
}

fn store_with(funcs: Vec<(&str, FunctionInstance)>) -> Store {
    let mut store = Store::new();
    let entries: Vec<ExportEntry> = funcs
        .iter()
        .enumerate()
        .map(|(i, (n, _))| ExportEntry { field: n.to_string(), internal: Internal::Function(i as u32) })
        .collect();
    let module = DefinedModuleInstance::new_from_parity_module(entries, None, ModuleIndex(0), vec![]);
    let parts = ModuleParts {
        module: ModuleInstance::Defined(module),
        funcs: funcs.into_iter().map(|(_, f)| f).collect(),
        globals: vec![DefinedGlobalInstance::new(Value::I32(1024), GlobalType { content_type: ValueType::I32, mutable: true })],
        memories: vec![MemoryInstance::new(1, None)],
        tables: vec![],
    };
    store.add_module(parts).unwrap();
    store
}

fn add_func() -> FunctionInstance {
    func(
        "add",
        vec![],
        vec![ValueType::I32],
        vec![InstKind::I32Const(40), InstKind::I32Const(2), InstKind::I32Bin(IntBinOp::Add), InstKind::End],
    )
}

fn debugger_with(funcs: Vec<(&str, FunctionInstance)>) -> MainDebugger {
    let mut d = MainDebugger::new();
    d.load_main_module(&EMPTY_MODULE, "main.wasm".to_string()).unwrap();
    d.instantiate(store_with(funcs), ModuleIndex(0)).unwrap();
    d
}

#[test]
fn invalid_module_is_refused() {
    let mut d = MainDebugger::new();
    assert!(matches!(d.load_main_module(&[1, 2, 3], "x".to_string()), Err(DebuggerError::InvalidModule(_))));
    assert!(d.main_module_bytes().is_none());
    assert!(d.load_main_module(&EMPTY_MODULE, "m".to_string()).is_ok());
    let (bytes, name) = d.main_module_bytes().unwrap();
    assert_eq!(bytes, &EMPTY_MODULE[..]);
    assert_eq!(name, "m");
}

#[test]
fn instantiate_needs_a_main_module() {
    let mut d = MainDebugger::new();
    assert!(matches!(d.instantiate(Store::new(), ModuleIndex(0)), Err(DebuggerError::NoMainModule)));
    assert!(matches!(d.run(None, vec![], 10), Err(DebuggerError::NoInstance)));
    assert!(!d.is_running());
}

#[test]
fn run_finishes_with_results() {
    let mut d = debugger_with(vec![("add", add_func())]);
    match d.run(Some("add"), vec![], 1000) {
        Ok(RunResult::Finish(v)) => assert_eq!(v, vec![Value::I32(42)]),
        _ => panic!("no result"),
    }
    assert!(!d.is_running());
    assert!(matches!(d.process(10), Err(DebuggerError::NoExecutionContext)));
    assert!(matches!(d.run(Some("nope"), vec![], 10), Err(DebuggerError::FunctionNotFound(n)) if n == "nope"));
    assert!(matches!(d.run(None, vec![], 10), Err(DebuggerError::FunctionNotFound(n)) if n == "_start"));
    assert!(matches!(d.lookup_func("add"), Ok(a) if a.1 == 0));
}

fn main_calls_add() -> Vec<(&'static str, FunctionInstance)> {
    let main = func("main", vec![], vec![ValueType::I32], vec![InstKind::Call(1), InstKind::End]);
    vec![("main", main), ("add", add_func())]
}

#[test]
fn function_breakpoint_stops_at_entry() {
    let mut d = debugger_with(main_calls_add());
    d.set_breakpoint(Breakpoint::Function { name: "ad".to_string() });
    assert!(matches!(d.run(Some("main"), vec![], 1000), Ok(RunResult::Breakpoint)));
    assert!(d.is_running());
    assert_eq!(d.frame(), vec!["main".to_string(), "add".to_string()]);
    match d.process(1000) {
        Ok(RunResult::Finish(v)) => assert_eq!(v, vec![Value::I32(42)]),
        _ => panic!("no result"),
    }
}

#[test]
fn instruction_breakpoint_stops_after_it() {
    let mut d = debugger_with(vec![("add", add_func())]);
    d.set_breakpoint(Breakpoint::Instruction { inst_offset: 101 });
    assert!(matches!(d.run(Some("add"), vec![], 1000), Ok(RunResult::Breakpoint)));
    assert_eq!(d.stack_values(), vec![Value::I32(40), Value::I32(2)]);
    let (insts, next) = d.instructions().ok().unwrap();
    assert_eq!(insts.len(), 4);
    assert_eq!(next, 2);
}

#[test]
fn step_in_runs_one_instruction() {
    let mut d = debugger_with(main_calls_add());
    d.set_breakpoint(Breakpoint::Function { name: "add".to_string() });
    assert!(matches!(d.run(Some("main"), vec![], 1000), Ok(RunResult::Breakpoint)));
    assert!(matches!(d.step(StepStyle::InstIn, 100), Ok(DebugSignal::Next)));
    assert_eq!(d.stack_values(), vec![Value::I32(40)]);
    assert!(d.current_frame().is_some());
    assert_eq!(d.current_frame().unwrap().argument_count, 0);
    assert!(d.locals().is_empty());
}

#[test]
fn step_out_leaves_the_function() {
    let mut d = debugger_with(main_calls_add());
    d.set_breakpoint(Breakpoint::Function { name: "add".to_string() });
    assert!(matches!(d.run(Some("main"), vec![], 1000), Ok(RunResult::Breakpoint)));
    assert!(matches!(d.step(StepStyle::Out, 100), Ok(DebugSignal::Next)));
    assert_eq!(d.frame(), vec!["main".to_string()]);
    assert_eq!(d.stack_values(), vec![Value::I32(42)]);
}

#[test]
fn entry_function_is_no_call() {
    let mut d = debugger_with(vec![("add", add_func())]);
    d.set_breakpoint(Breakpoint::Function { name: "add".to_string() });
    assert!(matches!(d.run(Some("add"), vec![], 1000), Ok(RunResult::Finish(_))));
}

#[test]
fn memory_copy_of_main_module() {
    let d = debugger_with(vec![("add", add_func())]);
    assert_eq!(d.memory().ok().unwrap().len(), 65536);
    let empty = MainDebugger::new();
    assert!(matches!(empty.memory(), Err(DebuggerError::NoInstance)));
}

#[test]
fn breakpoints_match_by_substring() {
    let mut b = Breakpoints::new();
    assert!(!b.should_break_func("main"));
    b.insert(Breakpoint::Function { name: "ai".to_string() });
    assert!(b.should_break_func("main"));
    assert!(!b.should_break_func("exit"));
    assert!(str_contains("hello", "ell"));
    assert!(!str_contains("hello", "elo"));
    assert!(str_contains("x", ""));
}

#[test]
fn breakpoint_command_adds_symbol() {
    let mut d = MainDebugger::new();
    BreakpointCommand::new().execute(&mut d, BreakpointOpts::SetSymbol { name: "f".to_string() });
    assert!(d.breakpoints.should_break_func("f"));
}

#[test]
fn options_round_trip() {
    let mut d = MainDebugger::new();
    assert!(!d.get_opts().watch_memory);
    d.set_opts(enable_watch(d.get_opts()));
    assert!(d.get_opts().watch_memory);
    assert_eq!(DebuggerOpts::default(), DebuggerOpts { watch_memory: false });
}

#[test]
fn wasm_locations_decode() {
    assert_eq!(read_wasm_location(&[0xed, 0x00, 0x05]), Ok(WasmLoc::Local(5)));
    assert_eq!(read_wasm_location(&[0xed, 0x01, 0x80, 0x01]), Ok(WasmLoc::Global(128)));
    assert_eq!(read_wasm_location(&[0xed, 0x02, 0x07]), Ok(WasmLoc::Stack(7)));
    assert_eq!(read_wasm_location(&[0xed, 0x03, 0x01, 0x02, 0x00, 0x00]), Ok(WasmLoc::Global(0x201)));
    assert_eq!(read_wasm_location(&[]), Err(DwarfError::EmptyLocation));
    assert_eq!(read_wasm_location(&[0x9f]), Err(DwarfError::InvalidMagic(0x9f)));
    assert_eq!(read_wasm_location(&[0xed]), Err(DwarfError::UnexpectedEof));
    assert_eq!(read_wasm_location(&[0xed, 0x03, 0x01]), Err(DwarfError::UnexpectedEof));
    assert_eq!(read_wasm_location(&[0xed, 0x04]), Err(DwarfError::InvalidOperation(4)));
    assert_eq!(read_wasm_location(&[0xed, 0x00]), Err(DwarfError::BadLeb128));
    assert_eq!(read_wasm_location(&[0xed, 0x00, 0x80]), Err(DwarfError::BadLeb128));
}

fn row(file_index: u64, line: u64) -> LineRow {
    LineRow { file_index, line: Some(line), column: ColumnType::Column(1) }
}

#[test]
fn source_map_merges_units_later_wins() {
    let a = DwarfUnitSourceMap {
        address_sorted_rows: vec![(10, row(1, 1)), (20, row(1, 2))],
        paths: vec!["/src/a.c".to_string()],
        sequence_base_index: 1,
    };
    let b = DwarfUnitSourceMap {
        address_sorted_rows: vec![(20, row(0, 7)), (30, row(0, 8))],
        paths: vec!["/src/b.c".to_string()],
        sequence_base_index: 0,
    };
    let m = DwarfSourceMap::new(vec![a, b]);
    assert!(m.find_line_info(5).is_none());
    let l = m.find_line_info(10).unwrap();
    assert_eq!((l.filepath.as_str(), l.line), ("/src/a.c", Some(1)));
    let l = m.find_line_info(25).unwrap();
    assert_eq!((l.filepath.as_str(), l.line), ("/src/b.c", Some(7)));
    let l = m.find_line_info(1000).unwrap();
    assert_eq!(l.line, Some(8));
}

#[test]
fn directory_map_rewrites_paths() {
    let a = DwarfUnitSourceMap {
        address_sorted_rows: vec![(0, row(0, 3))],
        paths: vec!["/build/src/main.c".to_string()],
        sequence_base_index: 0,
    };
    let mut m = DwarfSourceMap::new(vec![a]);
    m.set_directory_map("/build".to_string(), "/home/me".to_string());
    assert_eq!(m.find_line_info(4).unwrap().filepath, "/home/me/src/main.c");
    m.set_directory_map("/build".to_string(), "/opt".to_string());
    assert_eq!(m.find_line_info(4).unwrap().filepath, "/opt/src/main.c");
    assert_eq!(u64::from(ColumnType::LeftEdge), 0);
    assert_eq!(u64::from(ColumnType::Column(9)), 9);
}

#[test]
fn settings_directory_map() {
    let mut ctx = CommandContext {
        sourcemap: ContextSourceMap::Empty(EmptySourceMap::new()),
        subroutine: DwarfSubroutineMap { subroutines: vec![], units: vec![], type_hash: HashMap::new() },
    };
    let cmd = SettingsCommand::new();
    let ok = cmd.execute(
        &mut ctx,
        SettingsOpts::SetValue { key: "directory.map".to_string(), operand1: "a".to_string(), operand2: "b".to_string() },
    );
    assert!(ok.is_ok());
    let bad = cmd.execute(
        &mut ctx,
        SettingsOpts::SetValue { key: "color".to_string(), operand1: "a".to_string(), operand2: "b".to_string() },
    );
    assert!(matches!(bad, Err(CommandError::InvalidKey(k)) if k == "color"));
}

fn sub(low: u64, high: u64, base: Option<WasmLoc>) -> Subroutine {
    Subroutine { name: None, low_pc: low, high_pc: high, entry_offset: 0, unit_offset: 0, encoding: ENC, frame_base: base }
}

#[test]
fn subroutines_hold_code_ranges() {
    let m = DwarfSubroutineMap {
        subroutines: vec![sub(0, 10, Some(WasmLoc::Local(1))), sub(5, 20, Some(WasmLoc::Global(0))), sub(30, 40, None)],
        units: vec![],
        type_hash: HashMap::new(),
    };
    assert_eq!(m.find_subroutine(7), Some(0));
    assert_eq!(m.find_subroutine(12), Some(1));
    assert_eq!(m.find_subroutine(25), None);
    assert_eq!(m.get_frame_base(15), Ok(Some(WasmLoc::Global(0))));
    assert_eq!(m.get_frame_base(35), Ok(None));
    assert_eq!(m.get_frame_base(20), Err(DwarfError::NoSubroutine));
    assert!(sub(1, 2, None).contains(1));
    assert!(!sub(1, 2, None).contains(2));
}

#[test]
fn frame_base_from_locations() {
    let store = store_with(vec![]);
    let locals = vec![Value::I32(1), Value::I32(2), Value::I32(3), Value::I64(-1)];
    let stack = vec![Value::I64(16)];
    assert_eq!(
        frame_base(Some(WasmLoc::Global(0)), &store, ModuleIndex(0), &locals, &stack, None).ok(),
        Some(FrameBase::WasmFrameBase(1024))
    );
    assert_eq!(
        frame_base(Some(WasmLoc::Local(3)), &store, ModuleIndex(0), &locals, &stack, None).ok(),
        Some(FrameBase::WasmFrameBase(u64::MAX))
    );
    assert_eq!(
        frame_base(Some(WasmLoc::Stack(0)), &store, ModuleIndex(0), &locals, &stack, None).ok(),
        Some(FrameBase::WasmFrameBase(16))
    );
    assert!(frame_base(Some(WasmLoc::Stack(1)), &store, ModuleIndex(0), &locals, &stack, None).is_err());
    assert_eq!(frame_base(None, &store, ModuleIndex(0), &locals, &stack, Some(0)).ok(), Some(FrameBase::RBP(3)));
    assert!(frame_base(None, &store, ModuleIndex(0), &locals, &stack, Some(1)).is_err());
    assert!(frame_base(None, &store, ModuleIndex(0), &locals, &stack, None).is_err());
    assert_eq!(current_index(0), 0);
    assert_eq!(current_index(5), 4);
}

#[test]
fn addresses_parse_decimal_and_hex() {
    assert!(matches!(parse_address("1024"), Ok(1024)));
    assert!(matches!(parse_address("0x10"), Ok(16)));
    assert!(matches!(parse_address("0x0x1f"), Ok(31)));
    assert!(matches!(parse_address("-5"), Ok(-5)));
    assert!(matches!(parse_address("0xzz"), Err(CommandError::InvalidNumber(s)) if s == "0xzz"));
    assert!(matches!(parse_address(""), Err(CommandError::InvalidNumber(_))));
}

#[test]
fn memory_rows_and_text() {
    assert_eq!(dump_memory_as_str(&[0x41, 0x00, 0x7e, 0x7f, 0x20]), "A.~. ");
    let mem: Vec<u8> = (0..64u8).collect();
    let rows = read_memory(&mem, 4, 20).ok().unwrap();
    assert_eq!(rows.len(), 2);
    assert_eq!(rows[0].address, 4);
    assert_eq!(rows[0].bytes, (4..20u8).collect::<Vec<u8>>());
    assert_eq!(rows[1].address, 20);
    assert_eq!(rows[1].bytes, vec![20, 21, 22, 23]);
    assert!(matches!(read_memory(&mem, 60, 4), Err(CommandError::OutOfRange(64, 64))));
    assert_eq!(read_memory(&mem, 0, 0).ok().unwrap().len(), 0);
}

#[test]
fn disassembly_window() {
    assert_eq!(effective_count(DisassembleOpts { count: None, pc: true }), Some(4));
    assert_eq!(effective_count(DisassembleOpts { count: Some(2), pc: true }), Some(2));
    assert_eq!(effective_count(DisassembleOpts { count: None, pc: false }), None);
    assert_eq!(
        display_asm(10, 3, Some(2), true),
        vec![AsmLine { index: 3, is_pc: true }, AsmLine { index: 4, is_pc: false }]
    );
    assert_eq!(display_asm(3, 1, None, false).len(), 3);
    assert_eq!(display_asm(3, 2, Some(5), true).len(), 1);
    assert_eq!(display_asm(3, 7, Some(5), true).len(), 0);
}

#[test]
fn locals_and_threads() {
    let locals = vec![Value::I32(1), Value::I64(2)];
    assert_eq!(read_locals(&locals, LocalOpts::Read { index: Some(1) }), vec![(1, Value::I64(2))]);
    assert_eq!(read_locals(&locals, LocalOpts::Read { index: None }), vec![(0, Value::I32(1)), (1, Value::I64(2))]);
    assert_eq!(step_style(ThreadOpts::StepIn), Some(StepStyle::InstIn));
    assert_eq!(step_style(ThreadOpts::StepInstOver), Some(StepStyle::InstOver));
    assert_eq!(step_style(ThreadOpts::StepOut), Some(StepStyle::Out));
    assert_eq!(step_style(ThreadOpts::Info), None);
    let frames = vec!["main".to_string(), "f".to_string(), "g".to_string()];
    assert_eq!(
        backtrace_lines(&frames),
        vec![(0, "g".to_string()), (1, "f".to_string()), (2, "main".to_string())]
    );
}

#[test]
fn finished_process_ends_the_loop() {
    assert!(matches!(
        command_result(RunResult::Finish(vec![Value::I32(3)])),
        Some(CommandResult::ProcessFinish(v)) if v == vec![Value::I32(3)]
    ));
    assert!(command_result(RunResult::Paused).is_none());
    assert!(command_result(RunResult::Breakpoint).is_none());
}

#[test]
fn function_signatures_by_address() {
    let mut d = MainDebugger::new();
    assert!(matches!(d.func_type(FuncAddr(ModuleIndex(0), 0)), Err(DebuggerError::NoInstance)));
    d = debugger_with(vec![("add", add_func())]);
    let ty = d.func_type(FuncAddr(ModuleIndex(0), 0)).unwrap();
    assert_eq!(ty.params, vec![]);
    assert_eq!(ty.returns, vec![ValueType::I32]);
    assert!(matches!(d.func_type(FuncAddr(ModuleIndex(0), 5)), Err(DebuggerError::NoFunction(a)) if a.1 == 5));
}

#[test]
fn settings_directory_map_rewrites_the_context_paths() {
    let a = DwarfUnitSourceMap {
        address_sorted_rows: vec![(0, row(0, 3))],
        paths: vec!["/build/src/main.c".to_string()],
        sequence_base_index: 0,
    };
    let mut ctx = CommandContext {
        sourcemap: ContextSourceMap::Dwarf(DwarfSourceMap::new(vec![a])),
        subroutine: DwarfSubroutineMap { subroutines: vec![], units: vec![], type_hash: HashMap::new() },
    };
    let opts =
        SettingsOpts::SetValue { key: "directory.map".to_string(), operand1: "/build".to_string(), operand2: "/src".to_string() };
    assert!(SettingsCommand::new().execute(&mut ctx, opts).is_ok());
    assert_eq!(ctx.sourcemap.find_line_info(2).unwrap().filepath, "/src/src/main.c");
}

fn info(path: &str, line: u64) -> LineInfo {
    LineInfo { filepath: path.to_string(), line: Some(line), column: ColumnType::LeftEdge }
}

#[test]
fn stepping_by_line_stops_on_another_line() {
    assert_eq!(line_step(&info("a.c", 3), &info("a.c", 3)), LineStep::StepAgain);
    assert_eq!(line_step(&info("a.c", 3), &info("a.c", 4)), LineStep::Stop);
    assert_eq!(line_step(&info("a.c", 3), &info("b.c", 3)), LineStep::Stop);
}

#[test]
fn a_paused_step_out_goes_on_from_where_it_started() {
    let mut d = debugger_with(main_calls_add());
    d.set_breakpoint(Breakpoint::Function { name: "add".to_string() });
    assert!(matches!(d.run(Some("main"), vec![], 1000), Ok(RunResult::Breakpoint)));
    let start = d.frame_depth().unwrap();
    assert_eq!(start, 2);
    assert!(matches!(d.step(StepStyle::Out, 1), Ok(DebugSignal::Paused)));
    assert_eq!(d.frame(), vec!["main".to_string(), "add".to_string()]);
    assert!(matches!(d.resume_step(StepStyle::Out, start, 100), Ok(DebugSignal::Next)));
    assert_eq!(d.frame(), vec!["main".to_string()]);
    assert_eq!(d.stack_values(), vec![Value::I32(42)]);
}

#[test]
fn a_started_debugger_registers_every_command_and_alias() {
    let (process, context) = match wasminspect::debugger::start_debugger(None, None) {
        Ok(started) => started,
        Err(e) => panic!("{:?}", e),
    };
    let names: Vec<&str> = process.commands.iter().map(|c| c.0).collect();
    assert_eq!(
        names,
        vec![
            "thread", "list", "memory", "stack", "breakpoint", "disassemble", "expression", "global", "local",
            "frame", "settings", "process"
        ]
    );
    assert_eq!(process.aliases, vec!["run", "bt"]);
    assert!(!process.debugger.is_running());
    for offset in [0usize, 1, 100, 0xffff] {
        assert!(context.sourcemap.find_line_info(offset).is_none());
    }
}

#[test]
fn starting_on_an_invalid_module_fails() {
    let input = wasminspect::debugger::ModuleInput { bytes: vec![0, 1, 2], basename: "bad".to_string() };
    assert!(matches!(
        wasminspect::debugger::start_debugger(Some(input), None),
        Err(DebuggerError::InvalidModule(_))
    ));
}

#[test]
fn debug_information_is_loaded_only_when_it_was_read() {
    let mut ctx = CommandContext {
        sourcemap: ContextSourceMap::Empty(EmptySourceMap::new()),
        subroutine: DwarfSubroutineMap { subroutines: vec![], units: vec![], type_hash: HashMap::new() },
    };
    let failed = wasminspect::debugger::try_load_dwarf(Err(DwarfError::NoLineProgram), &mut ctx);
    assert!(matches!(failed, Err(DwarfError::NoLineProgram)));
    assert!(matches!(ctx.sourcemap, ContextSourceMap::Empty(_)));
    let unit = DwarfUnitSourceMap {
        address_sorted_rows: vec![(10, row(1, 4))],
        paths: vec!["/src/a.c".to_string()],
        sequence_base_index: 1,
    };
    let info = wasminspect::debugger::DwarfDebugInfo {
        sourcemap: DwarfSourceMap::new(vec![unit]),
        subroutine: DwarfSubroutineMap { subroutines: vec![], units: vec![], type_hash: HashMap::new() },
    };
    assert!(wasminspect::debugger::try_load_dwarf(Ok(info), &mut ctx).is_ok());
    assert_eq!(ctx.sourcemap.find_line_info(10).unwrap().line, Some(4));
}
