use wasminspect::cli::commands::list::current_line_info;
use wasminspect::cli::commands::sourcemap::ColumnType;
use wasminspect::cli::dwarf::DwarfSourceMap;
use wasminspect::debugger::dwarf::{DwarfUnitSourceMap, LineRow};
use wasminspect::debugger::process::{
    dispatch_target, extract_command_name, is_whitespace, line_to_run, split_whitespace, trim_str, Dispatch,
};
use wasminspect::vm::instruction::{InstKind, Instruction};
use wasminspect::vm::module::{DefinedModuleError, HostModuleError};
use wasminspect::vm::table::Error as TableError;

#[test]
fn command_names_and_words() {
    assert_eq!(extract_command_name("  thread step-in  "), "thread");
    assert_eq!(extract_command_name("run"), "run");
    assert_eq!(extract_command_name("   "), "");
    assert_eq!(extract_command_name("memory\tread 0x10"), "memory");
    assert_eq!(trim_str("\u{3000} x y \n"), "x y");
    assert_eq!(split_whitespace("  memory  read 0x10 "), vec!["memory", "read", "0x10"]);
    assert!(split_whitespace(" \t ").is_empty());
    assert!(is_whitespace('\u{85}'));
    assert!(!is_whitespace('x'));
}

#[test]
fn lines_dispatch_to_commands() {
    let commands = vec!["run", "thread", "run"];
    let aliases = vec!["bt"];
    assert_eq!(dispatch_target("run", &commands, &aliases, false), Dispatch::Command(2));
    assert_eq!(dispatch_target("thread", &commands, &aliases, false), Dispatch::Command(1));
    assert_eq!(dispatch_target("bt", &commands, &aliases, false), Dispatch::Alias(0));
    assert_eq!(dispatch_target("help", &commands, &aliases, false), Dispatch::Help);
    assert_eq!(dispatch_target("start-server", &commands, &aliases, true), Dispatch::StartServer);
    assert_eq!(dispatch_target("start-server", &commands, &aliases, false), Dispatch::Invalid);
    assert_eq!(dispatch_target("nope", &commands, &aliases, true), Dispatch::Invalid);
}

#[test]
fn blank_lines_repeat_the_last() {
    assert_eq!(line_to_run("run", None), (Some("run".to_string()), Some("run".to_string())));
    assert_eq!(line_to_run("  ", Some("next".to_string())), (Some("next".to_string()), Some("next".to_string())));
    assert_eq!(line_to_run("", None), (None, None));
}

#[test]
fn error_messages() {
    assert_eq!(
        TableError::AccessOutOfBounds(Some(12), 4).message(),
        "undefined element, try to access 12 but size of memory is 4"
    );
    assert_eq!(
        TableError::AccessOutOfBounds(None, 4).message(),
        "undefined element, try to access over size of usize but size of memory is 4"
    );
    assert_eq!(TableError::UninitializedElement(3).message(), "uninitialized element, try to access 3");
    assert_eq!(
        DefinedModuleError::TypeMismatch("memory", "function".to_string()).message(),
        "incompatible import type, expected memory but actual function"
    );
    assert_eq!(
        HostModuleError::TypeMismatch("global", "table".to_string()).message(),
        "incompatible import type, expected global but actual table"
    );
}

#[test]
fn current_source_line() {
    let unit = DwarfUnitSourceMap {
        address_sorted_rows: vec![(100, LineRow { file_index: 0, line: Some(9), column: ColumnType::Column(2) })],
        paths: vec!["m.c".to_string()],
        sequence_base_index: 0,
    };
    let map = DwarfSourceMap::new(vec![unit]);
    let insts = vec![
        Instruction { kind: InstKind::Nop, offset: 90 },
        Instruction { kind: InstKind::Nop, offset: 104 },
    ];
    assert!(current_line_info(&insts, 0, &map).is_none());
    assert!(current_line_info(&insts, 1, &map).is_none());
    assert_eq!(current_line_info(&insts, 2, &map).unwrap().line, Some(9));
}
