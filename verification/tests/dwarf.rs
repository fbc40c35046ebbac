use std::collections::HashMap;
use wasminspect::cli::dwarf::format::format_object as format_typed;
use wasminspect::cli::dwarf::types::{find_type, get_types, TypeInfo};
use wasminspect::debugger::die::{eval_at_within, eval_from_within, find_die, AttrValue, Die, DwarfEncoding, EvalResult};
use wasminspect::debugger::dwarf::{DwarfError, DwarfSubroutineMap, FrameBase, UnitEntries, WasmLoc};
use wasminspect::debugger::commands::sourcemap::{ColumnType, SourceMap};
use wasminspect::debugger::dwarf::LineRow;
use wasminspect::debugger::format::{format_object, from_signed_bytes_le};
use wasminspect::debugger::transform::{transform_debug_line, transform_dwarf, LineProgram, UnitInput};
use wasminspect::debugger::readable::{
    debug_info_of_units as debug_info_of_units_or_error, dwarf_readable, dwarf_scan, rows_name_their_files,
};
use wasminspect::debugger::variables::{
    evaluate_variable_location, subroutine_variables, transform_subprogram, unit_type_name, Scan, VariableContent,
};

const ENC: DwarfEncoding = DwarfEncoding { address_size: 4, format64: false, version: 4 };

fn die(offset: usize, tag: u16, attrs: Vec<(u16, AttrValue)>, children: Vec<Die>) -> Die {
    Die { offset, tag, attrs, children }
}

fn name(s: &str) -> (u16, AttrValue) {
    (0x03, AttrValue::StrRef(Some(s.to_string())))
}

/// A unit with a function `main` at [100, 150) holding a parameter, a
/// constant and a block at [110, 120), and the types `int`, `point` and
/// `unsigned`.
fn unit() -> Die {
    let argc = die(
        20,
        0x05,
        vec![name("argc"), (0x49, AttrValue::UnitRef(40)), (0x02, AttrValue::Exprloc(vec![0x91, 0x08]))],
        vec![],
    );
    let x = die(25, 0x34, vec![name("x"), (0x1c, AttrValue::Data4(7))], vec![]);
    let y = die(35, 0x34, vec![name("y"), (0x49, AttrValue::UnitRef(60))], vec![]);
    let block = die(30, 0x0b, vec![(0x11, AttrValue::Addr(110)), (0x12, AttrValue::Addr(120))], vec![y]);
    let main = die(
        10,
        0x2e,
        vec![
            name("main"),
            (0x11, AttrValue::Addr(100)),
            (0x12, AttrValue::Udata(50)),
            (0x40, AttrValue::Exprloc(vec![0xed, 0x00, 0x02])),
        ],
        vec![argc, x, block],
    );
    let int = die(40, 0x24, vec![name("int"), (0x0b, AttrValue::Data1(4)), (0x3e, AttrValue::Encoding(5))], vec![]);
    let a = die(51, 0x0d, vec![name("a"), (0x49, AttrValue::UnitRef(40)), (0x38, AttrValue::Udata(0))], vec![]);
    let b = die(52, 0x0d, vec![name("b"), (0x49, AttrValue::UnitRef(40)), (0x38, AttrValue::Udata(4))], vec![]);
    let point = die(50, 0x13, vec![name("point"), (0x0b, AttrValue::Data1(8))], vec![a, b]);
    let unsigned = die(60, 0x24, vec![name("unsigned"), (0x0b, AttrValue::Data1(4)), (0x3e, AttrValue::Encoding(8))], vec![]);
    die(0, 0x11, vec![name("a.c")], vec![main, int, point, unsigned])
}

fn map() -> DwarfSubroutineMap {
    let root = unit();
    let subroutines = transform_subprogram(&root, ENC, 0).ok().unwrap();
    DwarfSubroutineMap { subroutines, units: vec![UnitEntries { offset: 0, encoding: ENC, root }], type_hash: HashMap::new() }
}

#[test]
fn subprograms_after_their_blocks() {
    let subs = transform_subprogram(&unit(), ENC, 0).ok().unwrap();
    assert_eq!(subs.len(), 2);
    assert_eq!((subs[0].low_pc, subs[0].high_pc, subs[0].entry_offset), (110, 120, 30));
    assert!(subs[0].name.is_none());
    assert_eq!(subs[1].name.as_deref(), Some("main"));
    assert_eq!((subs[1].low_pc, subs[1].high_pc), (100, 150));
    assert_eq!(subs[1].frame_base, Some(WasmLoc::Local(2)));
}

#[test]
fn bad_frame_base_is_an_error() {
    let bad = die(1, 0x2e, vec![(0x11, AttrValue::Addr(0)), (0x12, AttrValue::Addr(4)), (0x40, AttrValue::Udata(3))], vec![]);
    assert!(matches!(transform_subprogram(&bad, ENC, 0), Err(DwarfError::UnexpectedAttribute)));
    let unnamed = die(1, 0x2e, vec![(0x03, AttrValue::StrRef(None))], vec![]);
    assert!(matches!(transform_subprogram(&unnamed, ENC, 0), Err(DwarfError::BadString)));
}

#[test]
fn variables_of_a_subroutine() {
    let root = unit();
    let vars = subroutine_variables(&root, 10).ok().unwrap();
    assert_eq!(vars.len(), 2);
    assert_eq!(vars[0].name.as_deref(), Some("argc"));
    assert_eq!(vars[0].ty_offset, Some(40));
    assert!(matches!(&vars[0].content, VariableContent::Location(AttrValue::Exprloc(b)) if b == &vec![0x91, 0x08]));
    assert!(matches!(&vars[1].content, VariableContent::ConstValue(b) if b == &vec![7, 0, 0, 0]));
    assert!(matches!(subroutine_variables(&root, 999), Err(DwarfError::NoEntry(999))));
    assert!(find_die(&root, 35).is_some());
    assert_eq!(unit_type_name(&root, Some(40)).ok().unwrap(), "int");
    assert_eq!(unit_type_name(&root, None).ok().unwrap(), "void");
    assert!(matches!(unit_type_name(&root, Some(20)), Ok(n) if n == "argc"));
    assert!(matches!(unit_type_name(&root, Some(999)), Err(DwarfError::NoEntry(999))));
}

#[test]
fn variable_names_with_types() {
    let m = map();
    let vars = m.variable_name_list(105).ok().unwrap();
    assert_eq!(vars.len(), 2);
    assert_eq!((vars[0].name.as_str(), vars[0].ty_name.as_str()), ("argc", "int"));
    assert_eq!((vars[1].name.as_str(), vars[1].ty_name.as_str()), ("x", "void"));
    let inner = m.variable_name_list(115).ok().unwrap();
    assert_eq!((inner[0].name.as_str(), inner[0].ty_name.as_str()), ("y", "unsigned"));
    assert!(matches!(m.variable_name_list(5), Err(DwarfError::NoSubroutine)));
}

#[test]
fn locations_evaluate_with_frame_base() {
    assert_eq!(evaluate_variable_location(ENC, FrameBase::WasmFrameBase(16), &[0x91, 0x08]).ok(), Some(vec![Some(24)]));
    assert!(matches!(
        evaluate_variable_location(ENC, FrameBase::RBP(16), &[0x91, 0x08]),
        Err(DwarfError::UnexpectedFrameBase)
    ));
    assert_eq!(evaluate_variable_location(ENC, FrameBase::RBP(16), &[0x23, 0x04]).ok(), Some(vec![Some(20)]));
    assert!(matches!(evaluate_variable_location(ENC, FrameBase::RBP(0), &[0xff]), Err(DwarfError::Evaluation(_))));
    // An expression that jumps back on itself stops with an error.
    assert!(matches!(eval_from_within(&[0x2f, 0xfd, 0xff], ENC, 0, 1000), EvalResult::Failed(_)));
    assert!(matches!(eval_at_within(&[0x2f, 0xfd, 0xff], ENC, 0, 1000), EvalResult::Failed(_)));
    assert!(matches!(eval_from_within(&[0x23, 0x04], ENC, 16, 1000), EvalResult::Complete(p) if p == vec![Some(20)]));
    assert!(matches!(eval_at_within(&[0x91, 0x08], ENC, 16, 1000), EvalResult::Complete(p) if p == vec![Some(24)]));
}

#[test]
fn variables_display_their_values() {
    let m = map();
    let mut memory = vec![0u8; 64];
    memory[24] = 5;
    let shown = m.display_variable(105, FrameBase::WasmFrameBase(16), &memory, "argc").ok().unwrap();
    assert_eq!(shown.as_deref(), Some("int(4294967291)"));
    assert!(matches!(
        m.display_variable(105, FrameBase::WasmFrameBase(16), &memory, "nope"),
        Err(DwarfError::NoVariable(n)) if n == "nope"
    ));
    assert!(matches!(
        m.display_variable(105, FrameBase::RBP(16), &memory, "argc"),
        Err(DwarfError::UnexpectedFrameBase)
    ));
    assert!(matches!(
        m.display_variable(105, FrameBase::WasmFrameBase(100), &memory, "argc"),
        Err(DwarfError::Malformed)
    ));
}

#[test]
fn signed_numbers_as_the_debugger_reads_them() {
    assert_eq!(from_signed_bytes_le(&[0xff]), "-1");
    assert_eq!(from_signed_bytes_le(&[0xfe, 0xff]), "-2");
    assert_eq!(from_signed_bytes_le(&[0x01]), "255");
    assert_eq!(from_signed_bytes_le(&[0x00, 0x00]), "65536");
}

#[test]
fn entries_format_values() {
    let root = unit();
    let point = find_die(&root, 50).unwrap();
    assert_eq!(format_object(point, &[], ENC).ok().unwrap(), "point {\na,\nb\n}");
    let unsigned = find_die(&root, 60).unwrap();
    assert_eq!(format_object(unsigned, &[0x10, 0x27, 0, 0], ENC).ok().unwrap(), "unsigned(10000)");
    let main = find_die(&root, 10).unwrap();
    assert!(matches!(format_object(main, &[], ENC), Err(DwarfError::UnsupportedEntry)));
}

#[test]
fn types_read_from_entries() {
    let root = unit();
    let mut table: HashMap<usize, TypeInfo> = HashMap::new();
    get_types(&root, &mut table).ok().unwrap();
    assert_eq!(table.len(), 3);
    assert!(matches!(find_type(&table, 40), Some(TypeInfo::BaseType(b)) if b.name == "int" && b.byte_size == 4));
    assert!(matches!(find_type(&table, 50), Some(TypeInfo::StructType(s)) if s.members.len() == 2 && s.byte_size == 8));
    let mem = [1, 0, 0, 0, 2, 0, 0, 0];
    assert_eq!(format_typed(50, &mem, ENC, &table).ok().unwrap(), "point {\na: int(1),\nb: int(2)\n}");
    let mut again = table;
    get_types(&unit(), &mut again).ok().unwrap();
    assert_eq!(again.len(), 3);
}

fn program(version: u16, rows: Vec<(u64, LineRow)>) -> LineProgram {
    LineProgram {
        version,
        include_directories: vec![AttrValue::StrRef(Some("/src".to_string()))],
        file_names: vec![(1, AttrValue::String(b"a.c".to_vec(), Some("a.c".to_string())))],
        rows,
    }
}

fn line(line: u64) -> LineRow {
    LineRow { file_index: 1, line: Some(line), column: ColumnType::LeftEdge }
}

#[test]
fn line_tables_sort_rows_later_wins() {
    let p = program(4, vec![(30, line(3)), (10, line(1)), (30, line(4)), (20, line(2))]);
    let m = transform_debug_line(&Some(p), &None).ok().unwrap();
    assert_eq!(m.sequence_base_index, 1);
    assert_eq!(m.paths.len(), 1);
    assert!(m.paths[0].ends_with("a.c"));
    let addrs: Vec<(u64, Option<u64>)> = m.address_sorted_rows.iter().map(|(a, r)| (*a, r.line)).collect();
    assert_eq!(addrs, vec![(10, Some(1)), (20, Some(2)), (30, Some(4))]);
    assert!(matches!(transform_debug_line(&None, &None), Err(DwarfError::NoLineProgram)));
    let mut v5 = program(5, vec![]);
    v5.file_names = vec![(0, AttrValue::StrRef(Some("b.c".to_string())))];
    assert_eq!(transform_debug_line(&Some(v5), &None).ok().unwrap().sequence_base_index, 0);
}

#[test]
fn debug_info_of_units() {
    let p = program(4, vec![(100, line(7)), (110, line(8))]);
    let input = UnitInput { entries: UnitEntries { offset: 0, encoding: ENC, root: unit() }, lines: Some(p), comp_dir: None };
    let info = transform_dwarf(vec![input]).ok().unwrap();
    assert_eq!(info.subroutine.subroutines.len(), 2);
    assert_eq!(info.subroutine.type_hash.len(), 3);
    assert_eq!(info.subroutine.units.len(), 1);
    assert_eq!(info.sourcemap.find_line_info(105).unwrap().line, Some(7));
    let missing = UnitInput { entries: UnitEntries { offset: 0, encoding: ENC, root: unit() }, lines: None, comp_dir: None };
    assert!(matches!(transform_dwarf(vec![missing]), Err(DwarfError::NoLineProgram)));
}

fn input(root: Die, lines: Option<LineProgram>) -> UnitInput {
    UnitInput { entries: UnitEntries { offset: 0, encoding: ENC, root }, lines, comp_dir: None }
}

#[test]
fn readable_units_and_the_inputs_reading_stops_on() {
    let good = vec![input(unit(), Some(program(4, vec![(100, line(7))])))];
    assert!(matches!(dwarf_scan(&good), Scan::Done(())));
    assert!(dwarf_readable(&good));

    // A directory index past the directories.
    let mut p = program(4, vec![]);
    p.file_names = vec![(5, AttrValue::StrRef(Some("a.c".to_string())))];
    assert!(matches!(dwarf_scan(&vec![input(unit(), Some(p))]), Scan::Crash));

    // A high address of another form than an address or a size.
    let odd = die(10, 0x2e, vec![name("f"), (0x11, AttrValue::Addr(1)), (0x12, AttrValue::Data4(5))], vec![]);
    let root = die(0, 0x11, vec![], vec![odd]);
    let units = vec![input(root, Some(program(4, vec![])))];
    assert!(matches!(dwarf_scan(&units), Scan::Crash));
    assert!(!dwarf_readable(&units));

    // An error before the input it could not go on with.
    assert!(matches!(dwarf_scan(&vec![input(unit(), None)]), Scan::Fail(DwarfError::NoLineProgram)));

    // A member outside a structure.
    let stray = die(0, 0x0d, vec![], vec![]);
    assert!(matches!(dwarf_scan(&vec![input(stray, Some(program(4, vec![])))]), Scan::Crash));
}

#[test]
fn rows_must_name_their_files() {
    let good = vec![input(unit(), Some(program(4, vec![(100, line(7))])))];
    assert!(rows_name_their_files(&good));
    let bad_row = LineRow { file_index: 2, line: Some(1), column: ColumnType::LeftEdge };
    let bad = vec![input(unit(), Some(program(4, vec![(100, bad_row)])))];
    assert!(!rows_name_their_files(&bad));
    assert!(!dwarf_readable(&bad));
}

#[test]
fn variables_readable_before_showing() {
    let m = map();
    assert!(m.scope_readable(105));
    assert!(m.variable_readable(105, "argc"));
    assert!(!m.variable_readable(105, "x"));
    assert!(m.variable_readable(105, "nothing"));
    assert!(m.scope_readable(500));
    // A constant of a form that holds no bytes.
    let z = die(26, 0x34, vec![name("z"), (0x1c, AttrValue::Flag(true))], vec![]);
    let f = die(10, 0x2e, vec![name("f"), (0x11, AttrValue::Addr(0)), (0x12, AttrValue::Udata(10))], vec![z]);
    let root = die(0, 0x11, vec![], vec![f]);
    let subroutines = transform_subprogram(&root, ENC, 0).ok().unwrap();
    let bad = DwarfSubroutineMap { subroutines, units: vec![UnitEntries { offset: 0, encoding: ENC, root }], type_hash: HashMap::new() };
    assert!(!bad.scope_readable(5));
    assert!(!bad.variable_readable(5, "z"));
}

#[test]
fn an_address_size_above_eight_bytes_is_not_evaluated() {
    let wide = DwarfEncoding { address_size: 9, format64: false, version: 4 };
    for base in [FrameBase::RBP(16), FrameBase::WasmFrameBase(16)] {
        match evaluate_variable_location(wide, base, &[0x91, 0x08]) {
            Err(DwarfError::Evaluation(m)) => assert_eq!(m, "unsupported address size"),
            other => panic!("{:?}", other),
        }
    }
}

#[test]
fn units_that_cannot_be_read_are_errors() {
    let good = vec![input(unit(), Some(program(4, vec![(100, line(7))])))];
    assert_eq!(debug_info_of_units_or_error(good).ok().unwrap().sourcemap.find_line_info(100).unwrap().line, Some(7));
    let stray = die(0, 0x0d, vec![], vec![]);
    assert!(matches!(debug_info_of_units_or_error(vec![input(stray, Some(program(4, vec![])))]), Err(DwarfError::Malformed)));
    let bad_row = LineRow { file_index: 2, line: Some(1), column: ColumnType::LeftEdge };
    assert!(matches!(debug_info_of_units_or_error(vec![input(unit(), Some(program(4, vec![(100, bad_row)])))]), Err(DwarfError::RowWithoutFile)));
    assert!(matches!(debug_info_of_units_or_error(vec![input(unit(), None)]), Err(DwarfError::NoLineProgram)));
}
