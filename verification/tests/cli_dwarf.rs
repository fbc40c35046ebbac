use wasminspect::cli::commands::sourcemap::SourceMap;
use wasminspect::cli::dwarf::subroutine::{transform_subprogram, DwarfSubroutineMap};
use wasminspect::cli::dwarf::transform::{transform_debug_line, transform_dwarf};
use wasminspect::debugger::commands::sourcemap::ColumnType;
use wasminspect::debugger::die::{AttrValue, Die, DwarfEncoding, EvalResult};
use wasminspect::debugger::dwarf::{DwarfError, LineRow, UnitEntries};
use wasminspect::debugger::readable::{cli_dwarf_readable, cli_dwarf_scan};
use wasminspect::debugger::transform::{LineProgram, UnitInput};
use wasminspect::debugger::variables::Scan;

const ENC: DwarfEncoding = DwarfEncoding { address_size: 4, format64: false, version: 4 };

fn die(offset: usize, tag: u16, attrs: Vec<(u16, AttrValue)>, children: Vec<Die>) -> Die {
    Die { offset, tag, attrs, children }
}

fn name(s: &str) -> (u16, AttrValue) {
    (0x03, AttrValue::StrRef(Some(s.to_string())))
}

/// `f` at [0, 10) with a parameter, a constant and a block holding a
/// variable; a type entry; `g` at [20, 30) with one variable.
fn unit() -> Die {
    let a = die(11, 0x05, vec![name("a"), (0x02, AttrValue::Exprloc(vec![0x23, 0x08]))], vec![]);
    let b = die(12, 0x34, vec![name("b"), (0x1c, AttrValue::Data1(3))], vec![]);
    let inner = die(14, 0x34, vec![name("inner"), (0x02, AttrValue::Exprloc(vec![0x23, 0x10]))], vec![]);
    let block = die(13, 0x0b, vec![(0x11, AttrValue::Addr(2)), (0x12, AttrValue::Addr(4))], vec![inner]);
    let anon = die(15, 0x34, vec![(0x02, AttrValue::Exprloc(vec![0x23, 0x00]))], vec![]);
    let f = die(10, 0x2e, vec![name("f"), (0x11, AttrValue::Addr(0)), (0x12, AttrValue::Udata(10))], vec![a, b, block, anon]);
    let int = die(16, 0x24, vec![name("int"), (0x0b, AttrValue::Data1(4))], vec![]);
    let c = die(21, 0x34, vec![name("c"), (0x02, AttrValue::Exprloc(vec![0x23, 0x04]))], vec![]);
    let g = die(20, 0x2e, vec![name("g"), (0x11, AttrValue::Addr(20)), (0x12, AttrValue::Addr(30))], vec![c]);
    die(0, 0x11, vec![name("a.c")], vec![f, int, g])
}

#[test]
fn flat_walk_collects_following_variables() {
    let subs = transform_subprogram(&unit(), ENC).ok().unwrap();
    assert_eq!(subs.len(), 2);
    assert_eq!(subs[0].name.as_deref(), Some("f"));
    assert_eq!((subs[0].pc.start, subs[0].pc.end), (0, 10));
    assert_eq!(subs[0].variables.len(), 4);
    assert_eq!(subs[1].name.as_deref(), Some("g"));
    assert_eq!((subs[1].pc.start, subs[1].pc.end), (20, 30));
    assert_eq!(subs[1].variables.len(), 1);
}

#[test]
fn subprogram_without_code_ends_the_current_one() {
    let v = die(3, 0x34, vec![name("v")], vec![]);
    let decl = die(2, 0x2e, vec![name("decl")], vec![]);
    let f = die(1, 0x2e, vec![name("f"), (0x11, AttrValue::Addr(0)), (0x12, AttrValue::Udata(4))], vec![]);
    let root = die(0, 0x11, vec![], vec![f, decl, v]);
    let subs = transform_subprogram(&root, ENC).ok().unwrap();
    assert_eq!(subs.len(), 1);
    assert_eq!(subs[0].variables.len(), 0);
    let bad = die(0, 0x11, vec![], vec![die(1, 0x2e, vec![(0x03, AttrValue::Other)], vec![])]);
    assert!(matches!(transform_subprogram(&bad, ENC), Err(DwarfError::BadString)));
}

#[test]
fn names_and_locations_of_variables() {
    let map = DwarfSubroutineMap { subroutines: transform_subprogram(&unit(), ENC).ok().unwrap() };
    assert_eq!(map.variable_name_list(5).ok().unwrap(), vec!["a", "b", "inner"]);
    assert_eq!(map.variable_name_list(25).ok().unwrap(), vec!["c"]);
    assert!(matches!(map.variable_name_list(15), Err(DwarfError::NoSubroutine)));
    assert!(map.variable_shown(5, "a"));
    assert!(!map.variable_shown(5, "b"));
    match map.display_variable(5, 100, &[], "a") {
        Ok(EvalResult::Complete(pieces)) => assert_eq!(pieces, vec![Some(108)]),
        _ => panic!("expected a complete evaluation"),
    }
    match map.display_variable(25, 7, &[], "c") {
        Ok(EvalResult::Complete(pieces)) => assert_eq!(pieces, vec![Some(11)]),
        _ => panic!("expected a complete evaluation"),
    }
    assert!(matches!(map.display_variable(5, 0, &[], "zz"), Err(DwarfError::NoVariable(n)) if n == "zz"));
    assert!(matches!(map.display_variable(50, 0, &[], "a"), Err(DwarfError::NoSubroutine)));
}

fn program(dirs: Vec<AttrValue>) -> LineProgram {
    LineProgram {
        version: 4,
        include_directories: dirs,
        file_names: vec![(1, AttrValue::StrRef(Some("a.c".to_string())))],
        rows: vec![(4, LineRow { file_index: 1, line: Some(3), column: ColumnType::LeftEdge })],
    }
}

#[test]
fn line_programs_with_unreadable_directories_are_errors() {
    let bad = program(vec![AttrValue::Other]);
    assert!(matches!(transform_debug_line(&Some(bad), &None), Err(DwarfError::BadString)));
    let good = program(vec![AttrValue::StrRef(Some("/src".to_string()))]);
    let m = transform_debug_line(&Some(good), &None).ok().unwrap();
    assert_eq!(m.sequence_base_index, 1);
    assert!(matches!(transform_debug_line(&None, &None), Err(DwarfError::NoLineProgram)));
}

#[test]
fn debug_info_of_units_for_the_command_line() {
    let good = program(vec![AttrValue::StrRef(Some("/src".to_string()))]);
    let units = vec![UnitInput { entries: UnitEntries { offset: 0, encoding: ENC, root: unit() }, lines: Some(good), comp_dir: None }];
    assert!(matches!(cli_dwarf_scan(&units), Scan::Done(())));
    assert!(cli_dwarf_readable(&units));
    let info = transform_dwarf(units).ok().unwrap();
    assert_eq!(info.subroutine.subroutines.len(), 2);
    assert_eq!(info.sourcemap.find_line_info(6).unwrap().line, Some(3));
    let odd = die(0, 0x11, vec![], vec![die(1, 0x2e, vec![(0x11, AttrValue::Addr(0)), (0x12, AttrValue::Data2(3))], vec![])]);
    let crash = vec![UnitInput { entries: UnitEntries { offset: 0, encoding: ENC, root: odd }, lines: Some(program(vec![])), comp_dir: None }];
    assert!(matches!(cli_dwarf_scan(&crash), Scan::Crash));
    assert!(!cli_dwarf_readable(&crash));
}
