use std::collections::HashMap;
use swiftpp::debugger::breakpoint::{
    BreakpointError, BreakpointManager, BreakpointType, MemoryPatch, TRAP_INSTRUCTION,
};
use swiftpp::debugger::evaluator::{evaluate_text, EvalError};
use swiftpp::debugger::logpoint::{expand_template, placeholder_expressions, TemplateError};
use swiftpp::debugger::memory::MemoryError;

/// A debuggee's memory for the tests: the bytes that can be read, and
/// the addresses that cannot be written.
struct Memory {
    bytes: HashMap<usize, u8>,
    locked: Vec<usize>,
}

impl Memory {
    fn with(bytes: HashMap<usize, u8>) -> Memory {
        Memory { bytes, locked: Vec::new() }
    }

    fn read(&self, address: usize) -> Result<u8, MemoryError> {
        self.bytes.get(&address).copied().ok_or(MemoryError::ReadError { address })
    }

    fn apply(&mut self, patch: MemoryPatch) -> bool {
        if self.locked.contains(&patch.address) {
            return false;
        }
        self.bytes.insert(patch.address, patch.byte);
        true
    }
}

/// Reads the byte, writes the trap where the plan allows it, and adds the
/// breakpoint with what both gave.
fn add(manager: &mut BreakpointManager, memory: &mut Memory, address: usize, kind: BreakpointType) -> Result<usize, BreakpointError> {
    let mut original = memory.read(address);
    if let Ok(patch) = manager.plan_breakpoint(address, original) {
        assert_eq!(patch, BreakpointManager::arming_patch(address));
        if !memory.apply(patch) {
            original = Err(MemoryError::WriteError { address });
        }
    }
    manager.add_breakpoint(address, 1, "main.spp".to_string(), kind, original)
}

/// Writes the saved byte back and removes the breakpoint with what that
/// gave.
fn remove(manager: &mut BreakpointManager, memory: &mut Memory, id: usize) -> Result<MemoryPatch, BreakpointError> {
    let restored = match manager.restoring_patch(id) {
        Ok(patch) => memory.apply(patch),
        Err(_) => false,
    };
    manager.remove_breakpoint(id, restored)
}

#[test]
fn failed_trap_write_adds_nothing() {
    let mut memory = Memory::with(HashMap::new());
    memory.bytes.insert(0x10, 0x90);
    memory.bytes.insert(0x20, 0x91);
    memory.locked.push(0x10);
    let mut manager = BreakpointManager::new();
    assert_eq!(
        add(&mut manager, &mut memory, 0x10, BreakpointType::Normal),
        Err(BreakpointError::AddressUnwritable)
    );
    assert!(manager.breakpoints.is_empty());
    assert_eq!(manager.next_id, 1);
    assert_eq!(memory.bytes[&0x10], 0x90);
    // the id was not spent
    assert_eq!(add(&mut manager, &mut memory, 0x20, BreakpointType::Normal), Ok(1));
}

#[test]
fn plan_changes_nothing_and_names_each_refusal() {
    let mut manager = BreakpointManager::new();
    assert_eq!(manager.plan_breakpoint(0x10, Ok(0x90)), Ok(MemoryPatch { address: 0x10, byte: 0xCC }));
    assert!(manager.breakpoints.is_empty());
    assert_eq!(manager.next_id, 1);
    assert_eq!(
        manager.plan_breakpoint(0x10, Err(MemoryError::ReadError { address: 0x10 })),
        Err(BreakpointError::AddressUnreadable)
    );
    manager.add_breakpoint(0x10, 1, "a".to_string(), BreakpointType::Normal, Ok(0x90)).unwrap();
    assert_eq!(manager.plan_breakpoint(0x10, Ok(0xCC)), Err(BreakpointError::DuplicateAddress));
    manager.next_id = usize::MAX;
    assert_eq!(manager.plan_breakpoint(0x20, Ok(0x90)), Err(BreakpointError::IdsExhausted));
}

#[test]
fn failed_restore_keeps_the_breakpoint() {
    let mut memory = Memory::with(HashMap::new());
    memory.bytes.insert(0x10, 0x90);
    let mut manager = BreakpointManager::new();
    let id = add(&mut manager, &mut memory, 0x10, BreakpointType::Normal).unwrap();
    memory.locked.push(0x10);
    assert_eq!(manager.restoring_patch(id), Ok(MemoryPatch { address: 0x10, byte: 0x90 }));
    assert_eq!(remove(&mut manager, &mut memory, id), Err(BreakpointError::AddressUnwritable));
    assert_eq!(manager.breakpoints.len(), 1);
    assert_eq!(manager.get_breakpoint(id).unwrap().original_byte, 0x90);
    assert_eq!(memory.bytes[&0x10], TRAP_INSTRUCTION);
    memory.locked.clear();
    assert_eq!(remove(&mut manager, &mut memory, id), Ok(MemoryPatch { address: 0x10, byte: 0x90 }));
    assert!(manager.breakpoints.is_empty());
    assert_eq!(memory.bytes[&0x10], 0x90);
    assert_eq!(manager.restoring_patch(id), Err(BreakpointError::UnknownId));
}

#[test]
fn add_then_remove_restores_every_byte() {
    for byte in 0u8..=255 {
        for &address in &[0usize, 1, 0x1000, usize::MAX] {
            let mut memory = Memory::with(HashMap::new());
            memory.bytes.insert(address, byte);
            memory.bytes.insert(address ^ 1, 0x55);
            let before = memory.bytes.clone();
            let mut manager = BreakpointManager::new();
            let id = add(&mut manager, &mut memory, address, BreakpointType::Normal).unwrap();
            assert_eq!(memory.bytes[&address], TRAP_INSTRUCTION);
            assert_eq!(manager.get_breakpoint(id).unwrap().original_byte, byte);
            let patch = remove(&mut manager, &mut memory, id).unwrap();
            assert_eq!(patch, MemoryPatch { address, byte });
            assert_eq!(memory.bytes, before);
            assert!(manager.breakpoints.is_empty());
        }
    }
}

#[test]
fn ids_rise_and_are_not_reused() {
    let mut memory = Memory::with((0..8).map(|a| (a, a as u8)).collect());
    let mut manager = BreakpointManager::new();
    assert_eq!(add(&mut manager, &mut memory, 0, BreakpointType::Normal), Ok(1));
    assert_eq!(add(&mut manager, &mut memory, 1, BreakpointType::Normal), Ok(2));
    assert!(remove(&mut manager, &mut memory, 2).is_ok());
    assert_eq!(add(&mut manager, &mut memory, 1, BreakpointType::Normal), Ok(3));
    assert_eq!(manager.next_id, 4);
}

#[test]
fn second_breakpoint_at_an_armed_address_is_rejected() {
    let mut memory = Memory::with(HashMap::new());
    memory.bytes.insert(0x10, 0x90);
    let mut manager = BreakpointManager::new();
    let id = add(&mut manager, &mut memory, 0x10, BreakpointType::Normal).unwrap();
    // the byte that is read now is the trap instruction
    assert_eq!(memory.read(0x10), Ok(TRAP_INSTRUCTION));
    assert_eq!(
        add(&mut manager, &mut memory, 0x10, BreakpointType::Normal),
        Err(BreakpointError::DuplicateAddress)
    );
    assert_eq!(manager.breakpoints.len(), 1);
    assert_eq!(manager.next_id, 2);
    assert_eq!(remove(&mut manager, &mut memory, id), Ok(MemoryPatch { address: 0x10, byte: 0x90 }));
    assert!(!manager.is_armed(0x10));
}

#[test]
fn errors_of_add_and_remove() {
    let mut manager = BreakpointManager::new();
    assert_eq!(
        manager.add_breakpoint(
            0x10,
            1,
            "a".to_string(),
            BreakpointType::Normal,
            Err(MemoryError::ReadError { address: 0x10 })
        ),
        Err(BreakpointError::AddressUnreadable)
    );
    assert!(manager.breakpoints.is_empty());
    assert_eq!(manager.remove_breakpoint(1, true), Err(BreakpointError::UnknownId));
    assert_eq!(manager.remove_breakpoint(1, false), Err(BreakpointError::UnknownId));
    assert_eq!(manager.should_break(1, None), Err(BreakpointError::UnknownId));
    manager.next_id = usize::MAX;
    assert_eq!(
        manager.add_breakpoint(0x10, 1, "a".to_string(), BreakpointType::Normal, Ok(1)),
        Err(BreakpointError::IdsExhausted)
    );
    // a duplicate comes before an unreadable byte
    let mut manager = BreakpointManager::new();
    manager.add_breakpoint(0x10, 1, "a".to_string(), BreakpointType::Normal, Ok(1)).unwrap();
    assert_eq!(
        manager.add_breakpoint(
            0x10,
            1,
            "a".to_string(),
            BreakpointType::Normal,
            Err(MemoryError::ReadError { address: 0x10 })
        ),
        Err(BreakpointError::DuplicateAddress)
    );
}

#[test]
fn lookup_by_address_and_id() {
    let mut manager = BreakpointManager::new();
    let a = manager.add_breakpoint(0x10, 3, "a".to_string(), BreakpointType::Normal, Ok(1)).unwrap();
    let b = manager.add_breakpoint(0x20, 4, "b".to_string(), BreakpointType::Normal, Ok(2)).unwrap();
    assert_eq!(manager.handle_breakpoint(0x20).unwrap().id, b);
    assert_eq!(manager.handle_breakpoint(0x10).unwrap().line, 3);
    assert!(manager.handle_breakpoint(0x30).is_none());
    manager.breakpoints[0].enabled = false;
    assert!(manager.handle_breakpoint(0x10).is_none());
    assert_eq!(manager.get_breakpoint(a).unwrap().file, "a");
    assert!(manager.get_breakpoint(99).is_none());
    assert_eq!(
        manager.restore_all(),
        vec![MemoryPatch { address: 0x10, byte: 1 }, MemoryPatch { address: 0x20, byte: 2 }]
    );
}

#[test]
fn counter_stops_from_its_limit_on_and_counts_every_pass() {
    for limit in 0usize..5 {
        let mut manager = BreakpointManager::new();
        let id = manager
            .add_breakpoint(
                0x10,
                1,
                "a".to_string(),
                BreakpointType::Counter { count: limit, hit_count: 0 },
                Ok(0x90),
            )
            .unwrap();
        for pass in 0usize..8 {
            assert_eq!(manager.should_break(id, None), Ok(pass >= limit));
            match manager.get_breakpoint(id).unwrap().breakpoint_type {
                BreakpointType::Counter { count, hit_count } => {
                    assert_eq!(count, limit);
                    assert_eq!(hit_count, pass + 1);
                }
                _ => panic!("the breakpoint is a counter"),
            }
        }
    }
}

#[test]
fn counter_stays_at_the_largest_count() {
    let mut manager = BreakpointManager::new();
    let id = manager
        .add_breakpoint(
            0x10,
            1,
            "a".to_string(),
            BreakpointType::Counter { count: usize::MAX, hit_count: usize::MAX - 1 },
            Ok(0x90),
        )
        .unwrap();
    assert_eq!(manager.should_break(id, None), Ok(false));
    assert_eq!(manager.should_break(id, None), Ok(true));
    assert_eq!(manager.should_break(id, None), Ok(true));
    assert!(matches!(
        manager.get_breakpoint(id).unwrap().breakpoint_type,
        BreakpointType::Counter { hit_count: usize::MAX, .. }
    ));
}

#[test]
fn decisions_by_kind() {
    let mut manager = BreakpointManager::new();
    let normal = manager.add_breakpoint(1, 1, "a".to_string(), BreakpointType::Normal, Ok(0)).unwrap();
    let conditional = manager
        .add_breakpoint(2, 1, "a".to_string(), BreakpointType::Conditional("x == 1".to_string()), Ok(0))
        .unwrap();
    let log = manager
        .add_breakpoint(3, 1, "a".to_string(), BreakpointType::LogPoint("x is {x}".to_string()), Ok(0))
        .unwrap();
    for condition in [None, Some(false), Some(true)] {
        assert_eq!(manager.should_break(normal, condition), Ok(true));
        assert_eq!(manager.should_break(conditional, condition), Ok(condition == Some(true)));
        assert_eq!(manager.should_break(log, condition), Ok(false));
    }
    assert_eq!(manager.breakpoints.len(), 3);
    assert_eq!(manager.breakpoints[1].id, conditional);
}

fn variables() -> Vec<(String, i64)> {
    vec![("x".to_string(), 2), ("y".to_string(), 3), ("x".to_string(), 99)]
}

#[test]
fn conditions() {
    let manager = BreakpointManager::new();
    let vars = variables();
    assert_eq!(manager.evaluate_condition("x == 2", &vars), Ok(true));
    assert_eq!(manager.evaluate_condition("x + y > 5", &vars), Ok(false));
    assert_eq!(manager.evaluate_condition("x + y >= 5", &vars), Ok(true));
    assert_eq!(manager.evaluate_condition("0", &vars), Ok(false));
    assert_eq!(manager.evaluate_condition("true", &vars), Ok(true));
    assert_eq!(manager.evaluate_condition("z", &vars), Err(EvalError::UnknownName));
    assert_eq!(manager.evaluate_condition("x ==", &vars), Err(EvalError::Syntax));
    assert_eq!(manager.evaluate_condition("x y", &vars), Err(EvalError::Syntax));
    assert_eq!(manager.evaluate_condition("", &vars), Err(EvalError::Syntax));
    assert_eq!(manager.evaluate_condition("\"a\"", &vars), Err(EvalError::Unsupported));
    assert_eq!(manager.evaluate_condition("1 / 0", &vars), Err(EvalError::Arithmetic));
}

#[test]
fn expression_values() {
    let vars = variables();
    assert_eq!(evaluate_text("1 + 2 * 3", &vars), Ok(9));
    assert_eq!(evaluate_text("(1 + 2) * (y - 5)", &vars), Ok(-6));
    assert_eq!(evaluate_text("0 - 7 / 2", &vars), Ok(-3));
    assert_eq!(evaluate_text("9223372036854775807 + 1", &vars), Err(EvalError::Arithmetic));
    assert_eq!(evaluate_text("9223372036854775807 * 2", &vars), Err(EvalError::Arithmetic));
    assert_eq!(evaluate_text("0 - 9223372036854775807 - 2", &vars), Err(EvalError::Arithmetic));
    assert_eq!(evaluate_text("x != y", &vars), Ok(1));
    assert_eq!(evaluate_text("x < y", &vars), Ok(1));
    assert_eq!(evaluate_text("x <= 1", &vars), Ok(0));
    assert_eq!(evaluate_text("f(1)", &vars), Err(EvalError::Unsupported));
    assert_eq!(evaluate_text("1.5", &vars), Err(EvalError::Unsupported));
    // the failure of the left operand comes first
    assert_eq!(evaluate_text("q + 1 / 0", &vars), Err(EvalError::UnknownName));
    assert_eq!(evaluate_text("1 / 0 + q", &vars), Err(EvalError::Arithmetic));
}

#[test]
fn log_point_expands_every_placeholder() {
    let manager = BreakpointManager::new();
    let vars = vec![("x".to_string(), 1), ("y".to_string(), 2), ("z".to_string(), 3)];
    assert_eq!(
        manager.format_log_message("{x} + {y} = {z}", &vars),
        Ok("1 + 2 = 3".to_string())
    );
    // a placeholder that cannot be evaluated stays as it was written
    let vars = vec![("x".to_string(), 1), ("z".to_string(), -3)];
    assert_eq!(
        manager.format_log_message("{x} + {y} = {z}", &vars),
        Ok("1 + y = -3".to_string())
    );
    assert_eq!(manager.format_log_message("{x} + {y} = {z}", &vec![]), Ok("x + y = z".to_string()));
    assert_eq!(manager.format_log_message("{x + 1}{x+x}", &vars), Ok("22".to_string()));
    assert_eq!(manager.format_log_message("plain", &vars), Ok("plain".to_string()));
    assert_eq!(manager.format_log_message("", &vars), Ok("".to_string()));
    assert_eq!(manager.format_log_message("{}", &vars), Ok("".to_string()));
    assert_eq!(manager.format_log_message("a } b {x}", &vars), Ok("a } b 1".to_string()));
    assert_eq!(manager.format_log_message("{{x}", &vars), Ok("{x".to_string()));
    for template in ["{x", "{", "a {x} b {y", "{x} {"] {
        assert_eq!(
            manager.format_log_message(template, &vars),
            Err(TemplateError::UnterminatedPlaceholder)
        );
    }
    assert_eq!(manager.evaluate_expression_for_log(&"x + 41".to_string(), &vars), "42");
    assert_eq!(manager.evaluate_expression_for_log(&"nope".to_string(), &vars), "nope");
}

#[test]
fn templates() {
    assert_eq!(
        placeholder_expressions("a {x} b { y + 1 } c"),
        Ok(vec!["x".to_string(), " y + 1 ".to_string()])
    );
    assert_eq!(placeholder_expressions("none"), Ok(vec![]));
    assert_eq!(placeholder_expressions("{a{b}"), Ok(vec!["a{b".to_string()]));
    assert_eq!(placeholder_expressions("{a"), Err(TemplateError::UnterminatedPlaceholder));
    let values = vec!["1".to_string(), "two".to_string()];
    assert_eq!(expand_template("a {x} b {y} c", &values), Ok("a 1 b two c".to_string()));
    assert_eq!(expand_template("{x}{y}", &values), Ok("1two".to_string()));
    // where the values run out, the rest stays as it is
    assert_eq!(expand_template("{x}{y}{z} end", &values), Ok("1two{z} end".to_string()));
    assert_eq!(expand_template("{x}", &vec![]), Ok("{x}".to_string()));
    assert_eq!(expand_template("{x} {y", &values), Err(TemplateError::UnterminatedPlaceholder));
    assert_eq!(expand_template("{x}{y}{z}{", &values), Err(TemplateError::UnterminatedPlaceholder));
    assert_eq!(expand_template("no braces", &values), Ok("no braces".to_string()));
}
