use swiftpp::formatter::Formatter;
use swiftpp::lsp::{get_completion_items, position_to_index, validate_document};
use swiftpp::runtime::memory::Arena;
use swiftpp::runtime::RuntimeError;
use swiftpp::stdlib::collections::Vector;

#[test]
fn format_lays_out_a_program() {
    let mut formatter = Formatter::new();
    let source = "fn add(a:i32,b:i32)->i32{let c:i32=a+b;if c<=0{return 0;}else{while c>9{c-1;}}return f(c,1);} struct P{x:i32,y:T} let s = \"hi\";";
    let expected = "\
fn add(a: i32, b: i32) -> i32 {
    let c: i32 = a + b;
    if c <= 0 {
        return 0;
    }
    else {
        while c > 9 {
            c - 1;
        }
    }
    return f(c, 1);
}

struct P {
    x: i32,
    y: T,
}

let s = \"hi\";

";
    assert_eq!(formatter.format(source), Ok(expected.to_string()));
    // formatting again starts afresh
    assert_eq!(formatter.format("return;"), Ok("return;\n\n".to_string()));
    assert_eq!(formatter.format(""), Ok("".to_string()));
    assert_eq!(formatter.format("fn f() { }"), Ok("fn f() {\n}\n\n".to_string()));
    assert_eq!(formatter.format("let x = ;"), Err("Expected expression".to_string()));
}

#[test]
fn formatted_text_is_a_fixed_point() {
    let mut formatter = Formatter::new();
    let once = formatter.format("fn f(a:i32){let b=a*2+1; return g(b , true);}").unwrap();
    let twice = formatter.format(&once).unwrap();
    assert_eq!(once, twice);
    assert_eq!(once, "fn f(a: i32) {\n    let b = a * 2 + 1;\n    return g(b, true);\n}\n\n");
}

#[test]
fn vector_doubles_its_capacity() {
    let mut v: Vector<u32> = Vector::new();
    assert_eq!((v.len(), v.capacity(), v.is_empty()), (0, 0, true));
    assert_eq!(v.pop(), None);
    let mut capacities = Vec::new();
    for i in 0..9 {
        v.push(i);
        capacities.push(v.capacity());
    }
    assert_eq!(capacities, vec![1, 2, 4, 4, 8, 8, 8, 8, 16]);
    assert_eq!(v.len(), 9);
    assert!(!v.is_empty());
    assert_eq!(v.get(3), Some(&3));
    assert_eq!(v.get(9), None);
    assert_eq!(v.as_slice(), &[0, 1, 2, 3, 4, 5, 6, 7, 8]);
    assert_eq!(v.pop(), Some(8));
    assert_eq!(v.pop(), Some(7));
    assert_eq!((v.len(), v.capacity()), (7, 16));
    let mut w: Vector<u8> = Vector::with_capacity(3);
    assert_eq!((w.len(), w.capacity()), (0, 3));
    w.push(1);
    w.push(2);
    w.push(3);
    assert_eq!(w.capacity(), 3);
    w.push(4);
    assert_eq!(w.capacity(), 6);
    let mut z: Vector<u8> = Vector::with_capacity(0);
    z.push(1);
    assert_eq!(z.capacity(), 1);
}

#[test]
fn arena_hands_out_aligned_ranges() {
    let mut arena = Arena::new(64);
    assert_eq!(arena.allocate(3, 1), Some(0));
    assert_eq!(arena.allocate(4, 4), Some(4));
    assert_eq!(arena.allocate(1, 8), Some(8));
    assert_eq!(arena.allocate(8, 8), Some(16));
    assert_eq!(arena.used, 24);
    assert_eq!(arena.allocate(0, 16), Some(32));
    assert_eq!(arena.used, 32);
    // what does not fit takes nothing
    assert_eq!(arena.allocate(33, 1), None);
    assert_eq!(arena.allocate(1, 0), None);
    assert_eq!(arena.allocate(usize::MAX, 1), None);
    assert_eq!(arena.allocate(1, usize::MAX), None);
    assert_eq!(arena.used, 32);
    assert_eq!(arena.allocate(32, 32), Some(32));
    assert_eq!(arena.allocate(0, 1), Some(64));
    assert_eq!(arena.allocate(1, 1), None);
    // an alignment that is no power of two: the next multiple
    let mut arena = Arena::new(100);
    assert_eq!(arena.allocate(1, 1), Some(0));
    assert_eq!(arena.allocate(5, 3), Some(3));
    assert_eq!(arena.allocate(1, 10), Some(10));
    assert_eq!((arena.size, arena.used), (100, 11));
}

#[test]
fn runtime_error_texts() {
    assert_eq!(RuntimeError::MemoryAllocationError.message(), "Memory allocation failed");
    assert_eq!(
        RuntimeError::ThreadPoolError("down".to_string()).message(),
        "Thread pool error: down"
    );
    assert_eq!(RuntimeError::SIMDError("lanes".to_string()).message(), "SIMD operation error: lanes");
    assert_eq!(
        RuntimeError::IndexOutOfBounds { index: 12, len: 0 }.message(),
        "Index 12 out of bounds for length 0"
    );
}

#[test]
fn positions_in_a_document() {
    let text = "ab\ncd\n\nefg";
    assert_eq!(position_to_index(text, 0, 0), 0);
    assert_eq!(position_to_index(text, 0, 1), 1);
    // the line feed stands at the end of its line
    assert_eq!(position_to_index(text, 0, 2), 2);
    assert_eq!(position_to_index(text, 1, 0), 3);
    assert_eq!(position_to_index(text, 1, 1), 4);
    assert_eq!(position_to_index(text, 2, 0), 6);
    assert_eq!(position_to_index(text, 3, 2), 9);
    // no character stands there
    assert_eq!(position_to_index(text, 3, 3), 10);
    assert_eq!(position_to_index(text, 0, 3), 10);
    assert_eq!(position_to_index(text, 9, 0), 10);
    assert_eq!(position_to_index(text, u32::MAX, u32::MAX), 10);
    assert_eq!(position_to_index("", 0, 0), 1);
    assert_eq!(position_to_index("x", 0, 0), 0);
    assert_eq!(position_to_index("x", 0, 1), 1);
}

#[test]
fn diagnostics_of_a_document() {
    assert!(validate_document("let x: i32 = 1;").is_empty());
    assert_eq!(validate_document("let x: i32 = y;"), vec!["Undefined variable: y".to_string()]);
    assert_eq!(validate_document("let x = ;"), vec!["Expected expression".to_string()]);
    assert_eq!(
        validate_document("fn f() { let a: bool = 1; let b: i32 = true; }"),
        vec![
            "Type mismatch: expected bool, found i32".to_string(),
            "Type mismatch: expected i32, found bool".to_string()
        ]
    );
    assert_eq!(
        get_completion_items(),
        vec![
            ("fn".to_string(), "Function declaration".to_string()),
            ("let".to_string(), "Variable declaration".to_string())
        ]
    );
}
