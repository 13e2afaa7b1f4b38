use swiftpp::debugger::symbols::{
    AttributeValue, DebugEntry, DebugSymbols, FileEntry, LocalVariable, SourceLocation, SymbolError,
};

fn entry(name: &str, low: u64, high: AttributeValue) -> DebugEntry {
    DebugEntry {
        name: Some(name.to_string()),
        low_pc: AttributeValue::Address(low),
        high_pc: high,
        decl_file: AttributeValue::Absent,
        decl_line: AttributeValue::Absent,
        decl_column: AttributeValue::Absent,
        file_entry: None,
    }
}

fn located(name: &str, low: u64, size: u64, dir: &str, file: &str, line: u64) -> DebugEntry {
    DebugEntry {
        name: Some(name.to_string()),
        low_pc: AttributeValue::Address(low),
        high_pc: AttributeValue::Unsigned(size),
        decl_file: AttributeValue::FileIndex(1),
        decl_line: AttributeValue::Unsigned(line),
        decl_column: AttributeValue::Absent,
        file_entry: Some(FileEntry {
            directory: Some(dir.to_string()),
            path_name: Some(file.to_string()),
        }),
    }
}

fn sample() -> DebugSymbols {
    let entries = vec![
        located("start", 0, 0x40, "/src", "main.spp", 2),
        entry("helper", 0x40, AttributeValue::Address(0x60)),
        entry("tail", 0x100, AttributeValue::Absent),
    ];
    DebugSymbols::new(Some(&entries)).expect("Failed to load debug symbols")
}

#[test]
fn test_load_debug_symbols() {
    let symbols = sample();
    assert!(!symbols.get_symbol_at_address(0).is_none(), "No symbols found");
}

#[test]
fn test_find_symbol_by_address() {
    let symbols = sample();
    let first_symbol = symbols.get_symbol_at_address(0).expect("No symbols found");
    let found_symbol = symbols
        .find_symbol_containing_address(first_symbol.address + 1)
        .expect("Failed to find symbol by address");
    assert_eq!(first_symbol.name, found_symbol.name);
}

#[test]
fn test_source_location() {
    let mut symbols = sample();
    let location = symbols
        .get_symbol_at_address(0)
        .expect("No symbols found")
        .location
        .clone();
    if let Some(location) = &location {
        symbols
            .load_source_file(&location.file, Some("fn start() {\n    return 1;\n}\n".to_string()))
            .expect("Failed to load source file");
        let source_line = symbols.get_source_line(location).expect("Failed to get source line");
        assert!(!source_line.is_empty(), "Empty source line");
        assert_eq!(source_line, "    return 1;");
    } else {
        panic!("the symbol has a location");
    }
}

#[test]
fn test_local_variables() {
    let mut symbols = sample();
    let address = symbols.get_symbol_at_address(0).expect("No symbols found").address;
    symbols.set_local_variables(
        address,
        vec![LocalVariable {
            name: "x".to_string(),
            type_label: "i32".to_string(),
            location_expression: vec![0x91, 0x7c],
        }],
    );
    let variables = symbols.get_local_variables(address);
    assert!(variables.is_some(), "No local variables found");
    assert_eq!(variables.unwrap()[0].name, "x");
    assert!(symbols.get_local_variables(address + 1).is_none());
}

#[test]
fn unopened_binary_is_fatal() {
    assert_eq!(DebugSymbols::new(None).err(), Some(SymbolError::OpenFailed));
}

#[test]
fn entries_without_name_or_address_are_passed_over() {
    let mut nameless = entry("x", 0x10, AttributeValue::Unsigned(4));
    nameless.name = None;
    let mut no_address = entry("y", 0x20, AttributeValue::Unsigned(4));
    no_address.low_pc = AttributeValue::Unsigned(0x20);
    let backwards = entry("z", 0x30, AttributeValue::Address(0x2f));
    let good = entry("w", 0x40, AttributeValue::Address(0x48));
    let symbols = DebugSymbols::new(Some(&vec![nameless, no_address, backwards, good])).unwrap();
    assert_eq!(symbols.symbols.len(), 1);
    assert_eq!(symbols.symbols[0].name, "w");
    assert_eq!(symbols.symbols[0].size, 8);
}

#[test]
fn later_symbol_at_one_address_stays() {
    let entries = vec![
        entry("old", 0x10, AttributeValue::Unsigned(4)),
        entry("other", 0x20, AttributeValue::Unsigned(4)),
        entry("new", 0x10, AttributeValue::Unsigned(8)),
    ];
    let symbols = DebugSymbols::new(Some(&entries)).unwrap();
    assert_eq!(symbols.symbols.len(), 2);
    let at = symbols.get_symbol_at_address(0x10).unwrap();
    assert_eq!(at.name, "new");
    assert_eq!(at.size, 8);
    assert_eq!(symbols.symbols[0].name, "new");
    assert_eq!(symbols.symbols[1].name, "other");
}

#[test]
fn containing_symbol_is_unique_or_absent() {
    let symbols = sample();
    assert_eq!(symbols.find_symbol_containing_address(0x3f).unwrap().name, "start");
    assert_eq!(symbols.find_symbol_containing_address(0x40).unwrap().name, "helper");
    assert_eq!(symbols.find_symbol_containing_address(0x5f).unwrap().name, "helper");
    assert!(symbols.find_symbol_containing_address(0x60).is_none());
    // a symbol of size 0 contains nothing, not even its own address
    assert!(symbols.find_symbol_containing_address(0x100).is_none());
    assert!(symbols.get_symbol_at_address(0x100).is_some());
    assert!(symbols.get_symbol_at_address(0x41).is_none());
}

#[test]
fn first_of_overlapping_symbols_wins() {
    let entries = vec![
        entry("outer", 0x10, AttributeValue::Unsigned(0x100)),
        entry("inner", 0x20, AttributeValue::Unsigned(0x10)),
    ];
    let symbols = DebugSymbols::new(Some(&entries)).unwrap();
    assert_eq!(symbols.find_symbol_containing_address(0x25).unwrap().name, "outer");
}

#[test]
fn range_at_the_top_of_the_address_space() {
    let entries = vec![entry("top", u64::MAX - 1, AttributeValue::Unsigned(8))];
    let symbols = DebugSymbols::new(Some(&entries)).unwrap();
    assert_eq!(symbols.find_symbol_containing_address(u64::MAX).unwrap().name, "top");
    assert!(symbols.find_symbol_containing_address(u64::MAX - 2).is_none());
}

#[test]
fn declaration_places() {
    let symbols = sample();
    let location = symbols.get_symbol_at_address(0).unwrap().location.clone().unwrap();
    assert_eq!(location.file, "/src/main.spp");
    assert_eq!(location.line, 2);
    assert_eq!(location.column, 0);
    assert!(symbols.get_symbol_at_address(0x40).unwrap().location.is_none());

    let mut with_column = located("c", 0x200, 4, "/src/", "/abs/other.spp", 7);
    with_column.decl_column = AttributeValue::Unsigned(9);
    let mut wide_line = located("d", 0x300, 4, "dir", "f.spp", u32::MAX as u64 + 1);
    wide_line.decl_column = AttributeValue::Unsigned(1);
    let mut no_file = located("e", 0x400, 4, "dir", "f.spp", 1);
    no_file.file_entry = None;
    let mut relative = located("f", 0x500, 4, "dir/", "f.spp", 1);
    relative.decl_column = AttributeValue::Unsigned(u32::MAX as u64 + 1);
    let symbols = DebugSymbols::new(Some(&vec![with_column, wide_line, no_file, relative])).unwrap();
    let c = symbols.get_symbol_at_address(0x200).unwrap().location.clone().unwrap();
    assert_eq!((c.file.as_str(), c.line, c.column), ("/abs/other.spp", 7, 9));
    assert!(symbols.get_symbol_at_address(0x300).unwrap().location.is_none());
    assert!(symbols.get_symbol_at_address(0x400).unwrap().location.is_none());
    let f = symbols.get_symbol_at_address(0x500).unwrap().location.clone().unwrap();
    assert_eq!((f.file.as_str(), f.line, f.column), ("dir/f.spp", 1, 0));
}

#[test]
fn address_for_location() {
    let symbols = sample();
    assert_eq!(symbols.find_address_for_location(&"/src/main.spp".to_string(), 2), Some(0));
    assert_eq!(symbols.find_address_for_location(&"/src/main.spp".to_string(), 3), None);
    assert_eq!(symbols.find_address_for_location(&"main.spp".to_string(), 2), None);
}

#[test]
fn source_lines() {
    let mut symbols = sample();
    let path = "a.spp".to_string();
    let at = |line: u32| SourceLocation { file: "a.spp".to_string(), line, column: 0 };
    assert_eq!(symbols.get_source_line(&at(1)), None);
    assert!(!symbols.is_loaded(&path));
    assert_eq!(symbols.load_source_file(&path, None), Err(SymbolError::OpenFailed));
    assert_eq!(symbols.load_source_file(&path, Some("one\r\ntwo\n\nfour\r".to_string())), Ok(()));
    assert!(symbols.is_loaded(&path));
    // a second load keeps the first text
    assert_eq!(symbols.load_source_file(&path, Some("other".to_string())), Ok(()));
    assert_eq!(symbols.load_source_file(&path, None), Ok(()));
    assert_eq!(symbols.get_source_line(&at(0)), None);
    assert_eq!(symbols.get_source_line(&at(1)), Some("one".to_string()));
    assert_eq!(symbols.get_source_line(&at(2)), Some("two".to_string()));
    assert_eq!(symbols.get_source_line(&at(3)), Some("".to_string()));
    assert_eq!(symbols.get_source_line(&at(4)), Some("four\r".to_string()));
    assert_eq!(symbols.get_source_line(&at(5)), None);
    assert_eq!(symbols.get_source_line(&at(u32::MAX)), None);
    let other = SourceLocation { file: "b.spp".to_string(), line: 1, column: 0 };
    assert_eq!(symbols.get_source_line(&other), None);
    assert_eq!(symbols.load_source_file(&"b.spp".to_string(), Some("x\n".to_string())), Ok(()));
    assert_eq!(symbols.get_source_line(&other), Some("x".to_string()));
    assert_eq!(symbols.get_source_line(&SourceLocation { file: "b.spp".to_string(), line: 2, column: 0 }), None);
}

#[test]
fn source_line_loads_on_first_access() {
    let mut symbols = sample();
    let at = |line: u32| SourceLocation { file: "a.spp".to_string(), line, column: 0 };
    // unreadable and not loaded
    assert_eq!(symbols.source_line(&at(1), None), None);
    assert!(!symbols.is_loaded(&"a.spp".to_string()));
    assert_eq!(symbols.source_line(&at(2), Some("one\ntwo\n".to_string())), Some("two".to_string()));
    assert!(symbols.is_loaded(&"a.spp".to_string()));
    // the loaded text is kept
    assert_eq!(symbols.source_line(&at(1), Some("other".to_string())), Some("one".to_string()));
    assert_eq!(symbols.source_line(&at(1), None), Some("one".to_string()));
    assert_eq!(symbols.source_line(&at(3), None), None);
    assert_eq!(symbols.source_line(&at(0), None), None);
    // a line that is out of range loads the file all the same
    let other = SourceLocation { file: "b.spp".to_string(), line: 9, column: 0 };
    assert_eq!(symbols.source_line(&other, Some("x".to_string())), None);
    assert!(symbols.is_loaded(&"b.spp".to_string()));
}
