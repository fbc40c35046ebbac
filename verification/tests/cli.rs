use std::collections::HashMap;
use wasminspect::cli::commands::disassemble::display_asm;
use wasminspect::cli::commands::expression::{frame_base_value, FrameBaseError};
use wasminspect::cli::commands::global::read_global;
use wasminspect::cli::commands::list::display_source_line;
use wasminspect::cli::commands::memory::read_memory;
use wasminspect::cli::commands::sourcemap::{ColumnType, SourceMap};
use wasminspect::cli::commands::symbol::{demangle_symbol, is_swift_symbol};
use wasminspect::cli::dwarf::format::{format_object, type_name_of, FormatError};
use wasminspect::cli::dwarf::types::{
    find_type, BaseTypeInfo, EnumerationTypeInfo, Enumerator, Member, MemberLocation, ModifiedTypeInfo, ModifierKind,
    StructTypeInfo, TypeDef, TypeInfo,
};
use wasminspect::cli::dwarf::DwarfSourceMap;
use wasminspect::debugger::die::DwarfEncoding;
use wasminspect::debugger::dwarf::{DwarfUnitSourceMap, LineRow, WasmLoc};
use wasminspect::vm::address::ModuleIndex;
use wasminspect::vm::global::{DefinedGlobalInstance, GlobalType};
use wasminspect::vm::module::{DefinedModuleInstance, ModuleInstance};
use wasminspect::vm::store::{ModuleParts, Store};
use wasminspect::vm::value::{Value, ValueType};

const ENC: DwarfEncoding = DwarfEncoding { address_size: 4, format64: false, version: 4 };

fn base(name: &str, size: u64) -> TypeInfo {
    TypeInfo::BaseType(BaseTypeInfo { name: name.to_string(), byte_size: size })
}

fn modified(inner: Option<usize>, kind: ModifierKind) -> TypeInfo {
    TypeInfo::ModifiedType(ModifiedTypeInfo { content_ty_offset: inner, kind })
}

fn member(name: &str, ty: usize, offset: u64) -> Member {
    Member { name: Some(name.to_string()), ty, location: MemberLocation::ConstOffset(offset) }
}

fn table() -> HashMap<usize, TypeInfo> {
    HashMap::from([
        (1, base("int", 4)),
        (2, base("char", 1)),
        (3, base("long unsigned int", 4)),
        (4, modified(Some(1), ModifierKind::Pointer)),
        (5, modified(Some(4), ModifierKind::Const)),
        (6, modified(None, ModifierKind::Pointer)),
        (
            7,
            TypeInfo::StructType(StructTypeInfo {
                name: Some("point".to_string()),
                members: vec![member("x", 1, 0), member("y", 1, 4)],
                byte_size: 8,
                declaration: false,
            }),
        ),
        (
            8,
            TypeInfo::EnumerationType(EnumerationTypeInfo {
                name: Some("color".to_string()),
                ty: Some(1),
                enumerators: vec![
                    Enumerator { name: Some("red".to_string()), value: Some(0) },
                    Enumerator { name: Some("green".to_string()), value: Some(1) },
                ],
            }),
        ),
        (9, TypeInfo::TypeDef(TypeDef { name: Some("size".to_string()), ty: Some(3) })),
        (10, base("float", 4)),
        (
            11,
            TypeInfo::EnumerationType(EnumerationTypeInfo {
                name: Some("e".to_string()),
                ty: Some(3),
                enumerators: vec![],
            }),
        ),
        (12, modified(Some(2), ModifierKind::Atomic)),
        (
            13,
            TypeInfo::StructType(StructTypeInfo {
                name: Some("pair".to_string()),
                members: vec![
                    member("a", 2, 0),
                    Member {
                        name: Some("b".to_string()),
                        ty: 2,
                        location: MemberLocation::LocationDescription(vec![0x23, 0x01]),
                    },
                ],
                byte_size: 2,
                declaration: false,
            }),
        ),
    ])
}

#[test]
fn type_names_follow_modifiers() {
    let t = table();
    assert_eq!(type_name_of(None, &t).ok().unwrap(), "void");
    assert_eq!(type_name_of(Some(1), &t).ok().unwrap(), "int");
    assert_eq!(type_name_of(Some(4), &t).ok().unwrap(), "int*");
    assert_eq!(type_name_of(Some(5), &t).ok().unwrap(), "const int*");
    assert_eq!(type_name_of(Some(6), &t).ok().unwrap(), "void*");
    assert_eq!(type_name_of(Some(12), &t).ok().unwrap(), "std::atomic<char>");
    assert_eq!(type_name_of(Some(7), &t).ok().unwrap(), "point");
    assert!(matches!(type_name_of(Some(99), &t), Err(FormatError::TypeNotFound(99))));
    assert!(matches!(find_type(&t, 9), Some(TypeInfo::TypeDef(_))));
    assert!(find_type(&t, 0).is_none());
}

#[test]
fn formats_base_values() {
    let t = table();
    assert_eq!(format_object(1, &[0xff, 0xff, 0xff, 0xff], ENC, &t).ok().unwrap(), "int(-1)");
    assert_eq!(format_object(3, &[0x10, 0x00, 0x00, 0x00], ENC, &t).ok().unwrap(), "long unsigned int(16)");
    assert_eq!(format_object(2, &[0x41], ENC, &t).ok().unwrap(), "A");
    assert_eq!(format_object(2, &[0xc3], ENC, &t).ok().unwrap(), "<<invalid utf8 char>>");
    assert!(matches!(format_object(42, &[0], ENC, &t), Err(FormatError::TypeNotFound(42))));
}

#[test]
fn formats_structs_enums_and_typedefs() {
    let t = table();
    let mem = [1, 0, 0, 0, 2, 0, 0, 0];
    assert_eq!(format_object(7, &mem, ENC, &t).ok().unwrap(), "point {\nx: int(1),\ny: int(2)\n}");
    assert_eq!(format_object(8, &[1, 0, 0, 0], ENC, &t).ok().unwrap(), "color (green)");
    assert!(matches!(format_object(8, &[5, 0, 0, 0], ENC, &t), Err(FormatError::NoEnumerator)));
    assert!(matches!(format_object(11, &[0, 0, 0, 0], ENC, &t), Err(FormatError::UnsupportedEnumType(n)) if n == "long unsigned int"));
    assert_eq!(format_object(9, &[7, 0, 0, 0], ENC, &t).ok().unwrap(), "typedef size long unsigned int(7)");
    assert_eq!(format_object(4, &[0x10, 0x20, 0, 0], ENC, &t).ok().unwrap(), "int* (0x2010)");
    assert_eq!(format_object(13, &[0x41, 0x42], ENC, &t).ok().unwrap(), "pair {\na: A,\nb: B\n}");
}

#[test]
fn source_lines_mark_the_current_one() {
    assert_eq!(display_source_line(7, "int x;", None, ColumnType::LeftEdge), "   7    int x;");
    assert_eq!(display_source_line(7, "int x;", Some(7), ColumnType::LeftEdge), "-> 7    int x;");
    assert_eq!(
        display_source_line(12, "ab", Some(12), ColumnType::Column(2)),
        "-> 12   a\u{1b}[4mb\u{1b}[0m"
    );
    assert_eq!(display_source_line(12345, "x", None, ColumnType::LeftEdge), "   12345 x");
}

#[test]
fn disassembly_marks_last_executed() {
    assert_eq!(display_asm(3, 2), vec![false, true, false]);
    assert_eq!(display_asm(2, 0), vec![false, false]);
}

#[test]
fn swift_symbols() {
    assert!(is_swift_symbol("$sSi"));
    assert!(!is_swift_symbol("main"));
    assert_eq!(demangle_symbol("$sSi"), "$sSi");
    assert_eq!(demangle_symbol("main"), "main");
}

fn store_with_global(v: Value) -> Store {
    let mut store = Store::new();
    let module = DefinedModuleInstance::new_from_parity_module(vec![], None, ModuleIndex(0), vec![]);
    store
        .add_module(ModuleParts {
            module: ModuleInstance::Defined(module),
            funcs: vec![],
            globals: vec![DefinedGlobalInstance::new(v, GlobalType { content_type: ValueType::I32, mutable: true })],
            memories: vec![],
            tables: vec![],
        })
        .unwrap();
    store
}

#[test]
fn globals_and_frame_bases() {
    let store = store_with_global(Value::I32(-8));
    assert_eq!(read_global(&store, ModuleIndex(0), 0), Value::I32(-8));
    let locals = vec![Value::I64(64), Value::F32(0)];
    let stack = vec![];
    assert_eq!(frame_base_value(WasmLoc::Global(0), &store, ModuleIndex(0), &locals, &stack), Ok((-8i64) as u64));
    assert_eq!(frame_base_value(WasmLoc::Local(0), &store, ModuleIndex(0), &locals, &stack), Ok(64));
    assert_eq!(frame_base_value(WasmLoc::Local(1), &store, ModuleIndex(0), &locals, &stack), Err(FrameBaseError::NotAnInteger));
    assert_eq!(frame_base_value(WasmLoc::Stack(0), &store, ModuleIndex(0), &locals, &stack), Err(FrameBaseError::Missing));
}

#[test]
fn memory_dump_rows() {
    let mem: Vec<u8> = (0..40u8).collect();
    let rows = read_memory(&mem, 0, 33);
    assert_eq!(rows.len(), 3);
    assert_eq!(rows[2].address, 32);
    assert_eq!(rows[2].bytes, vec![32]);
    assert_eq!(rows[2].text, " ");
}

#[test]
fn cli_source_map_finds_rows() {
    let unit = DwarfUnitSourceMap {
        address_sorted_rows: vec![
            (8, LineRow { file_index: 0, line: Some(2), column: ColumnType::LeftEdge }),
            (16, LineRow { file_index: 0, line: Some(3), column: ColumnType::Column(5) }),
        ],
        paths: vec!["main.c".to_string()],
        sequence_base_index: 0,
    };
    let m = DwarfSourceMap::new(vec![unit]);
    assert!(m.find_line_info(7).is_none());
    let li = m.find_line_info(20).unwrap();
    assert_eq!(li.filepath, "main.c");
    assert_eq!(li.line, Some(3));
    assert_eq!(li.column, ColumnType::Column(5));
}
