use swiftpp::debugger::breakpoint::{BreakpointError, BreakpointManager, BreakpointType, MemoryPatch};
use swiftpp::debugger::evaluator::EvalError;
use swiftpp::debugger::logpoint::TemplateError;
use swiftpp::debugger::memory::MemoryError;
use swiftpp::debugger::process::{
    DebuggedProcess, Notification, ProcessError, ProcessState, ResumeAction, StopCause,
    EXCEPTION_BREAKPOINT, EXCEPTION_SINGLE_STEP,
};
use swiftpp::debugger::stack::{
    decode_c_string, decode_module_name, enter_names, FrameLookups, FrameNames, StackFrame,
    StackUnwinder, WalkedFrame,
};
use swiftpp::debugger::symbols::{AttributeValue, DebugEntry, FileEntry};
use swiftpp::debugger::watchpoint::{
    ProtectionChange, WatchType, WatchpointError, WatchpointManager, PAGE_READONLY, PAGE_READWRITE,
};
use swiftpp::debugger::{DebugEvent, Debugger, DebuggerError, HitResolution, LoopStep};

fn no_lookups() -> FrameLookups {
    FrameLookups { module_name: None, function_name: None, source: None }
}

fn walked(ip: usize, sp: usize, fp: usize) -> WalkedFrame {
    WalkedFrame { instruction_pointer: ip, stack_pointer: sp, frame_pointer: fp, lookups: no_lookups() }
}

#[test]
fn unwind_returns_the_chain_innermost_first() {
    let unwinder = StackUnwinder::new(1, 2);
    for depth in 1usize..6 {
        // the return addresses that the chain records, innermost first
        let chain: Vec<usize> = (0..depth).map(|i| 0x4000 + 0x10 * i).collect();
        let context = walked(chain[0], 0x7000, 0x7008);
        let rest: Vec<WalkedFrame> =
            chain[1..].iter().enumerate().map(|(i, &ip)| walked(ip, 0x7100 + i, 0x7200 + i)).collect();
        let frames = unwinder.unwind_stack(Some(&context), &rest);
        assert_eq!(frames.len(), depth);
        for (frame, &ip) in frames.iter().zip(chain.iter()) {
            assert_eq!(frame.instruction_pointer, ip);
        }
        assert_eq!(frames[0].stack_pointer, 0x7000);
        assert_eq!(frames[0].frame_pointer, 0x7008);
    }
}

#[test]
fn unwind_ends_before_a_zero_instruction_pointer() {
    let unwinder = StackUnwinder::new(1, 2);
    let context = walked(0x10, 1, 2);
    let rest = vec![walked(0x20, 3, 4), walked(0, 5, 6), walked(0x30, 7, 8)];
    let frames = unwinder.unwind_stack(Some(&context), &rest);
    assert_eq!(frames.len(), 2);
    assert_eq!(frames[1].instruction_pointer, 0x20);
    assert_eq!(frames[1].stack_pointer, 3);
    assert_eq!(frames[1].frame_pointer, 4);
    // without a register context there is no frame at all
    assert!(unwinder.unwind_stack(None, &rest).is_empty());
    // the frame of the context stands even with a zero instruction pointer
    assert_eq!(unwinder.unwind_stack(Some(&walked(0, 1, 2)), &vec![]).len(), 1);
    // each call stands for itself
    assert_eq!(unwinder.unwind_stack(Some(&context), &rest).len(), 2);
}

#[test]
fn lookups_are_independent() {
    let unwinder = StackUnwinder::new(1, 2);
    let mut frame = StackFrame {
        instruction_pointer: 0x10,
        stack_pointer: 0x20,
        frame_pointer: 0x30,
        module_name: "old".to_string(),
        function_name: Some("f".to_string()),
        source_file: None,
        line_number: None,
    };
    unwinder.populate_frame_info(&mut frame, &no_lookups());
    assert_eq!(frame.module_name, "old");
    assert_eq!(frame.function_name, Some("f".to_string()));
    assert_eq!(frame.source_file, None);

    let lookups = FrameLookups {
        module_name: Some(b"app.exe\0\0\0junk".to_vec()),
        function_name: None,
        source: Some((b"main.spp\0".to_vec(), 12)),
    };
    unwinder.populate_frame_info(&mut frame, &lookups);
    assert_eq!(frame.module_name, "app.exe");
    assert_eq!(frame.function_name, Some("f".to_string()));
    assert_eq!(frame.source_file, Some("main.spp".to_string()));
    assert_eq!(frame.line_number, Some(12));
    assert_eq!((frame.instruction_pointer, frame.stack_pointer, frame.frame_pointer), (0x10, 0x20, 0x30));

    // a name that is not UTF-8 is entered with replacement characters
    let lookups = FrameLookups {
        module_name: Some(vec![0xff, 0x00]),
        function_name: Some(b"main".to_vec()),
        source: Some((vec![0xc3, 0x28, 0x00], 99)),
    };
    unwinder.populate_frame_info(&mut frame, &lookups);
    assert_eq!(frame.module_name, "\u{fffd}");
    assert_eq!(frame.function_name, Some("main".to_string()));
    assert_eq!(frame.source_file, Some("\u{fffd}(".to_string()));
    assert_eq!(frame.line_number, Some(99));

    let frame = unwinder.frame_for(&WalkedFrame {
        instruction_pointer: 1,
        stack_pointer: 2,
        frame_pointer: 3,
        lookups: FrameLookups {
            module_name: None,
            function_name: Some(b"g\0".to_vec()),
            source: None,
        },
    });
    assert_eq!(frame.module_name, "");
    assert_eq!(frame.function_name, Some("g".to_string()));
    assert_eq!(decode_c_string(&b"\0x".to_vec()), "");
    assert_eq!(decode_c_string(&b"no end".to_vec()), "no end");
    assert_eq!(decode_c_string(&"gr\u{fc}n\0".as_bytes().to_vec()), "gr\u{fc}n");
    // bytes that are no UTF-8 are shown by the replacement character
    assert_eq!(decode_c_string(&vec![0x80]), "\u{fffd}");
    assert_eq!(decode_c_string(&vec![b'a', 0xff, b'b', 0, b'c']), "a\u{fffd}b");
}

#[test]
fn names_that_are_no_utf8_are_kept_and_a_module_name_needs_its_end() {
    let unwinder = StackUnwinder::new(1, 2);
    let frame = unwinder.frame_for(&WalkedFrame {
        instruction_pointer: 1,
        stack_pointer: 2,
        frame_pointer: 3,
        lookups: FrameLookups {
            module_name: Some(vec![b'm', 0xfe, 0]),
            function_name: Some(vec![0xc3, 0x28]),
            source: Some((vec![b'a', 0x80, b'.', b's', 0, b'x'], 7)),
        },
    });
    assert_eq!(frame.module_name, "m\u{fffd}");
    assert_eq!(frame.function_name, Some("\u{fffd}(".to_string()));
    assert_eq!(frame.source_file, Some("a\u{fffd}.s".to_string()));
    assert_eq!(frame.line_number, Some(7));
    // a module name whose buffer holds no zero byte is empty
    assert_eq!(decode_module_name(&b"app.exe".to_vec()), "");
    assert_eq!(decode_module_name(&b"app.exe\0rest".to_vec()), "app.exe");
    let mut named = frame.clone();
    unwinder.populate_frame_info(
        &mut named,
        &FrameLookups { module_name: Some(b"kernel32".to_vec()), function_name: None, source: None },
    );
    assert_eq!(named.module_name, "");
    assert_eq!(named.function_name, Some("\u{fffd}(".to_string()));
    let mut frame = frame;
    enter_names(
        &mut frame,
        FrameNames { module_name: None, function_name: Some("f".to_string()), source: None },
    );
    assert_eq!(frame.module_name, "m\u{fffd}");
    assert_eq!(frame.function_name, Some("f".to_string()));
    assert_eq!(frame.line_number, Some(7));
}

#[test]
fn watchpoint_add_then_remove_restores_the_protection() {
    for watch_type in [WatchType::Read, WatchType::Write, WatchType::ReadWrite] {
        for previous in [0u32, 1, 2, 4, 0x20, 0x40, u32::MAX] {
            // the protection of the watched range, as the operating system keeps it
            let mut protection = previous;
            let mut manager = WatchpointManager::new(5);
            let change = WatchpointManager::plan_watchpoint(0x5000, 8, watch_type);
            assert_eq!(change.protection, WatchpointManager::protection_for(watch_type));
            let old = protection;
            protection = change.protection;
            assert_eq!(protection, WatchpointManager::protection_for(watch_type));
            assert_eq!(manager.add_watchpoint(0x5000, 8, watch_type, Some(old), vec![0; 8]), Ok(()));
            let restore = manager.remove_watchpoint(0x5000).expect("the watchpoint was set");
            assert_eq!(restore, ProtectionChange { address: 0x5000, size: 8, protection: previous });
            protection = restore.protection;
            assert_eq!(protection, previous);
            assert!(manager.watchpoints.is_empty());
        }
    }
}

#[test]
fn watchpoint_table() {
    assert_eq!(WatchpointManager::protection_for(WatchType::Read), PAGE_READONLY);
    assert_eq!(WatchpointManager::protection_for(WatchType::Write), PAGE_READWRITE);
    assert_eq!(WatchpointManager::protection_for(WatchType::ReadWrite), PAGE_READWRITE);
    let mut manager = WatchpointManager::new(5);
    assert_eq!(
        manager.add_watchpoint(0x10, 4, WatchType::Write, None, vec![]),
        Err(WatchpointError::ProtectionChangeFailed)
    );
    assert!(manager.watchpoints.is_empty());
    // a missing key is a no-op
    assert_eq!(manager.remove_watchpoint(0x10), None);
    manager.add_watchpoint(0x10, 4, WatchType::Write, Some(0x20), vec![1, 2, 3, 4]).unwrap();
    manager.add_watchpoint(0x12, 8, WatchType::Read, Some(0x40), vec![0; 8]).unwrap();
    assert_eq!(manager.handle_exception(0x10, 0).unwrap().address, 0x10);
    assert_eq!(manager.handle_exception(0x13, 0).unwrap().address, 0x10);
    assert_eq!(manager.handle_exception(0x14, 0).unwrap().address, 0x12);
    assert_eq!(manager.handle_exception(0x19, 0).unwrap().address, 0x12);
    assert!(manager.handle_exception(0x1a, 0).is_none());
    assert!(manager.handle_exception(0x0f, 0).is_none());
    // a watchpoint at the same address takes the place of the first one
    manager.add_watchpoint(0x10, 2, WatchType::Read, Some(0x02), vec![9, 9]).unwrap();
    assert_eq!(manager.watchpoints.len(), 2);
    assert_eq!(manager.watchpoints[0].size, 2);
    assert_eq!(
        manager.remove_watchpoint(0x10),
        Some(ProtectionChange { address: 0x10, size: 2, protection: 0x02 })
    );
    assert_eq!(manager.watchpoints.len(), 1);
    assert_eq!(WatchpointManager::confirm_restore(Some(1)), Ok(()));
    assert_eq!(WatchpointManager::confirm_restore(None), Err(WatchpointError::ProtectionChangeFailed));
    // a range at the top of the address space
    manager.add_watchpoint(usize::MAX - 1, 8, WatchType::Read, Some(1), vec![]).unwrap();
    assert_eq!(manager.handle_exception(usize::MAX, 0).unwrap().address, usize::MAX - 1);
}

#[test]
fn watchpoint_hit_reports_old_and_new_bytes() {
    let mut manager = WatchpointManager::new(5);
    manager.add_watchpoint(0x10, 2, WatchType::Write, Some(4), vec![1, 2]).unwrap();
    manager.add_watchpoint(0x20, 1, WatchType::Write, Some(4), vec![7]).unwrap();
    match manager.notify_watchpoint(0x10, &[3, 4, 5]) {
        Ok(DebugEvent::WatchpointHit { address, old_value, new_value }) => {
            assert_eq!(address, 0x10);
            assert_eq!(old_value, vec![1, 2]);
            assert_eq!(new_value, vec![3, 4]);
        }
        other => panic!("unexpected: {:?}", other),
    }
    match manager.notify_watchpoint(0x10, &[5, 6]) {
        Ok(DebugEvent::WatchpointHit { old_value, new_value, .. }) => {
            assert_eq!(old_value, vec![3, 4]);
            assert_eq!(new_value, vec![5, 6]);
        }
        other => panic!("unexpected: {:?}", other),
    }
    assert!(matches!(
        manager.notify_watchpoint(0x10, &[5]),
        Err(MemoryError::ReadError { address: 0x10 })
    ));
    assert!(matches!(
        manager.notify_watchpoint(0x11, &[5, 6]),
        Err(MemoryError::ReadError { address: 0x11 })
    ));
    assert_eq!(manager.watchpoints[0].address, 0x10);
    assert_eq!(manager.watchpoints[0].last_value, vec![5, 6]);
    assert_eq!(manager.watchpoints[0].original_protection, 4);
    assert_eq!(manager.watchpoints[1].last_value, vec![7]);
}

#[test]
fn process_states() {
    assert_eq!(DebuggedProcess::launch(None), Err(ProcessError::LaunchFailed));
    let mut process = DebuggedProcess::launch(Some((10, 11))).unwrap();
    assert_eq!(process.state, ProcessState::Running);
    // while the debuggee runs, resuming is a no-op
    assert_eq!(process.resume_plan(ResumeAction::Continue), ResumeAction::Nothing);
    assert_eq!(process.continue_execution(true), Ok(ResumeAction::Nothing));
    assert_eq!(process.continue_execution(false), Ok(ResumeAction::Nothing));
    assert_eq!(process.step(true), Ok(ResumeAction::Nothing));
    assert_eq!(process.state, ProcessState::Running);
    assert_eq!(process.wait_for_event(None), Err(ProcessError::EventWaitFailed));
    assert_eq!(process.state, ProcessState::Running);
    let trap = Notification::Exception { code: EXCEPTION_BREAKPOINT, address: 0x10, thread_id: 11 };
    assert_eq!(
        process.wait_for_event(Some(trap)),
        Ok(ProcessState::Suspended(StopCause::Breakpoint { address: 0x10 }))
    );
    assert!(process.is_suspended());
    // a resume that the operating system refused leaves the debuggee suspended
    assert_eq!(process.resume_plan(ResumeAction::SingleStep), ResumeAction::SingleStep);
    assert_eq!(process.step(false), Err(ProcessError::ResumeFailed));
    assert_eq!(process.continue_execution(false), Err(ProcessError::ResumeFailed));
    assert_eq!(process.state, ProcessState::Suspended(StopCause::Breakpoint { address: 0x10 }));
    assert_eq!(process.step(true), Ok(ResumeAction::SingleStep));
    assert_eq!(process.state, ProcessState::Running);
    let stepped = Notification::Exception { code: EXCEPTION_SINGLE_STEP, address: 0x11, thread_id: 11 };
    assert_eq!(
        process.wait_for_event(Some(stepped)),
        Ok(ProcessState::Suspended(StopCause::StepComplete))
    );
    assert_eq!(process.resume_plan(ResumeAction::Continue), ResumeAction::Continue);
    assert_eq!(process.continue_execution(true), Ok(ResumeAction::Continue));
    let fault = Notification::Exception { code: 0xC000_0005, address: 0x12, thread_id: 11 };
    assert_eq!(
        process.wait_for_event(Some(fault)),
        Ok(ProcessState::Suspended(StopCause::Exception { code: 0xC000_0005, address: 0x12 }))
    );
    assert_eq!(
        process.wait_for_event(Some(Notification::ThreadCreated { thread_id: 12 })),
        Ok(ProcessState::Suspended(StopCause::Notification))
    );
    assert_eq!(
        process.wait_for_event(Some(Notification::ProcessExited { exit_code: 3 })),
        Ok(ProcessState::Exited(3))
    );
    assert_eq!(process.continue_execution(true), Ok(ResumeAction::Nothing));
    assert_eq!(process.state, ProcessState::Exited(3));
    assert_eq!((process.pid, process.thread_id), (10, 11));
}

fn entries() -> Vec<DebugEntry> {
    vec![DebugEntry {
        name: Some("main".to_string()),
        low_pc: AttributeValue::Address(0x401000),
        high_pc: AttributeValue::Unsigned(0x40),
        decl_file: AttributeValue::FileIndex(1),
        decl_line: AttributeValue::Unsigned(3),
        decl_column: AttributeValue::Absent,
        file_entry: Some(FileEntry { directory: None, path_name: Some("x.spp".to_string()) }),
    }]
}

fn launched() -> Debugger {
    let mut debugger = Debugger::new();
    let event = debugger.launch(Some((100, 101)), 7, 8, Some(&entries())).unwrap();
    assert!(matches!(event, DebugEvent::ProcessStarted { pid: 100 }));
    debugger
}

#[test]
fn components_fail_before_launch() {
    let mut debugger = Debugger::new();
    assert_eq!(debugger.resume_plan(ResumeAction::Continue), Err(ProcessError::NoActiveProcess));
    assert_eq!(debugger.continue_execution(true), Err(ProcessError::NoActiveProcess));
    assert_eq!(debugger.step_into(true), Err(ProcessError::NoActiveProcess));
    assert_eq!(debugger.step_over(true), Err(ProcessError::NoActiveProcess));
    assert!(matches!(debugger.get_backtrace(None, &vec![]), Err(ProcessError::NoActiveProcess)));
    assert_eq!(
        debugger.read_memory(0, 1, &[1]),
        Err(DebuggerError::Process(ProcessError::NoActiveProcess))
    );
    assert_eq!(
        debugger.write_memory(0, &[1], 1),
        Err(DebuggerError::Process(ProcessError::NoActiveProcess))
    );
    assert_eq!(
        debugger.set_breakpoint("x.spp".to_string(), 3, None, None, Ok(0x90)),
        Err(DebuggerError::Process(ProcessError::NoActiveProcess))
    );
    assert_eq!(
        debugger.set_watchpoint(0x10, 4, WatchType::Read, Some(4), vec![]),
        Err(DebuggerError::Process(ProcessError::NoActiveProcess))
    );
    assert!(debugger.watchpoint_manager.watchpoints.is_empty());
    assert!(matches!(
        debugger.handle_notification(Some(Notification::Other { code: 1 })),
        Err(ProcessError::NoActiveProcess)
    ));
    assert!(matches!(
        debugger.launch(None, 7, 8, Some(&entries())),
        Err(ProcessError::LaunchFailed)
    ));
    assert!(matches!(debugger.launch(Some((1, 2)), 7, 8, None), Err(ProcessError::LaunchFailed)));
    assert!(debugger.process.is_none());
}

#[test]
fn breakpoint_hit_and_continue() {
    let mut debugger = launched();
    assert_eq!(debugger.process.unwrap().state, ProcessState::Running);
    assert_eq!(debugger.memory_inspector.process_handle, 7);
    assert_eq!(debugger.stack_unwinder.thread_handle, 8);
    let address = debugger.breakpoint_address(&"x.spp".to_string(), 3).unwrap();
    assert_eq!(address, 0x401000);
    let id = debugger.set_breakpoint("x.spp".to_string(), 3, None, None, Ok(0x55)).unwrap();
    assert_eq!(BreakpointManager::arming_patch(address), MemoryPatch { address, byte: 0xCC });
    // the debuggee runs into the trap
    let trap = Notification::Exception { code: EXCEPTION_BREAKPOINT, address, thread_id: 101 };
    let event = debugger.handle_notification(Some(trap)).unwrap();
    match event {
        DebugEvent::BreakpointHit { id: hit, thread_id } => {
            assert_eq!(hit, id);
            assert_eq!(thread_id, 101);
        }
        other => panic!("unexpected: {:?}", other),
    }
    assert_eq!(
        debugger.process.unwrap().state,
        ProcessState::Suspended(StopCause::Breakpoint { address })
    );
    let (resolution, output) = debugger.handle_debug_event(&event, &vec![]);
    assert_eq!(resolution, HitResolution::Stopped);
    assert!(output.is_none());
    assert!(debugger.process.unwrap().is_suspended());
    assert_eq!(debugger.resume_plan(ResumeAction::Continue), Ok(ResumeAction::Continue));
    assert_eq!(debugger.continue_execution(false), Err(ProcessError::ResumeFailed));
    assert!(debugger.process.unwrap().is_suspended());
    assert_eq!(debugger.continue_execution(true), Ok(ResumeAction::Continue));
    assert_eq!(debugger.process.unwrap().state, ProcessState::Running);
    assert_eq!(debugger.resume_plan(ResumeAction::Continue), Ok(ResumeAction::Nothing));
    assert_eq!(debugger.continue_execution(true), Ok(ResumeAction::Nothing));
}

#[test]
fn notifications_become_events() {
    let mut debugger = launched();
    let trap = Notification::Exception { code: EXCEPTION_BREAKPOINT, address: 0x999, thread_id: 1 };
    assert!(matches!(
        debugger.handle_notification(Some(trap)),
        Ok(DebugEvent::Exception { code: EXCEPTION_BREAKPOINT, address: 0x999 })
    ));
    assert!(matches!(
        debugger.handle_notification(Some(Notification::ThreadCreated { thread_id: 5 })),
        Ok(DebugEvent::ThreadCreated { thread_id: 5 })
    ));
    assert!(matches!(
        debugger.handle_notification(Some(Notification::ThreadExited { thread_id: 5 })),
        Ok(DebugEvent::ThreadExited { thread_id: 5 })
    ));
    assert!(matches!(
        debugger.handle_notification(Some(Notification::Other { code: 9 })),
        Ok(DebugEvent::Exception { code: 9, address: 0 })
    ));
    assert!(matches!(debugger.handle_notification(None), Err(ProcessError::EventWaitFailed)));
    assert!(debugger.process.unwrap().is_suspended());
    assert!(matches!(
        debugger.handle_notification(Some(Notification::ProcessExited { exit_code: 2 })),
        Ok(DebugEvent::ProcessExited { exit_code: 2 })
    ));
    assert_eq!(debugger.process.unwrap().state, ProcessState::Exited(2));
}

fn suspend(debugger: &mut Debugger, address: usize) -> DebugEvent {
    let trap = Notification::Exception { code: EXCEPTION_BREAKPOINT, address, thread_id: 101 };
    debugger.handle_notification(Some(trap)).unwrap()
}

#[test]
fn hits_of_conditional_breakpoints_and_log_points() {
    let mut debugger = launched();
    let vars = vec![("x".to_string(), 1)];
    let conditional = debugger
        .breakpoint_manager
        .add_breakpoint(0x10, 1, "x.spp".to_string(), BreakpointType::Conditional("x == 1".to_string()), Ok(0))
        .unwrap();
    let broken = debugger
        .breakpoint_manager
        .add_breakpoint(0x20, 1, "x.spp".to_string(), BreakpointType::Conditional("y ==".to_string()), Ok(0))
        .unwrap();
    let log = debugger
        .breakpoint_manager
        .add_breakpoint(0x30, 1, "x.spp".to_string(), BreakpointType::LogPoint("x is {x}, y is {y}".to_string()), Ok(0))
        .unwrap();
    let open = debugger
        .breakpoint_manager
        .add_breakpoint(0x40, 1, "x.spp".to_string(), BreakpointType::LogPoint("x is {x".to_string()), Ok(0))
        .unwrap();
    assert_eq!((conditional, broken, log, open), (1, 2, 3, 4));

    let event = suspend(&mut debugger, 0x10);
    assert_eq!(debugger.handle_debug_event(&event, &vars).0, HitResolution::Stopped);
    assert!(debugger.process.unwrap().is_suspended());
    let (resolution, output) = debugger.handle_debug_event(&event, &vec![("x".to_string(), 2)]);
    assert_eq!(resolution, HitResolution::Resumed(ResumeAction::Continue));
    assert!(output.is_none());
    // the debuggee runs once the resume has been carried out
    assert!(debugger.process.unwrap().is_suspended());
    assert_eq!(debugger.continue_execution(true), Ok(ResumeAction::Continue));
    assert_eq!(debugger.process.unwrap().state, ProcessState::Running);

    // a condition that cannot be evaluated does not stop, and warns
    let event = suspend(&mut debugger, 0x20);
    let (resolution, output) = debugger.handle_debug_event(&event, &vars);
    assert_eq!(resolution, HitResolution::Resumed(ResumeAction::Continue));
    assert!(matches!(output, Some(DebugEvent::Output { .. })));

    // a log point never stops, whether or not its placeholders can be evaluated
    let event = suspend(&mut debugger, 0x30);
    let (resolution, output) = debugger.handle_debug_event(&event, &vars);
    assert_eq!(resolution, HitResolution::Resumed(ResumeAction::Continue));
    match output {
        Some(DebugEvent::Output { message }) => assert_eq!(message, "x is 1, y is y"),
        other => panic!("unexpected: {:?}", other),
    }
    let event = suspend(&mut debugger, 0x40);
    let (resolution, output) = debugger.handle_debug_event(&event, &vars);
    assert_eq!(resolution, HitResolution::Resumed(ResumeAction::Continue));
    assert!(matches!(output, Some(DebugEvent::Output { .. })));
    assert_eq!(Debugger::loop_step(resolution), LoopStep::Resume(ResumeAction::Continue));
    assert_eq!(debugger.continue_execution(true), Ok(ResumeAction::Continue));
    assert_eq!(debugger.process.unwrap().state, ProcessState::Running);

    // an unknown id and any other event change nothing
    suspend(&mut debugger, 0x999);
    let unknown = DebugEvent::BreakpointHit { id: 77, thread_id: 1 };
    let (resolution, output) = debugger.handle_debug_event(&unknown, &vars);
    assert_eq!(resolution, HitResolution::Ignored);
    assert!(output.is_none());
    let other = DebugEvent::ThreadCreated { thread_id: 1 };
    assert_eq!(debugger.handle_debug_event(&other, &vars).0, HitResolution::Ignored);
    assert!(debugger.process.unwrap().is_suspended());
    assert_eq!(debugger.resolve_hit(conditional, Some(true)), HitResolution::Stopped);
    assert_eq!(debugger.resolve_hit(conditional, None), HitResolution::Resumed(ResumeAction::Continue));
    assert_eq!(debugger.continue_execution(true), Ok(ResumeAction::Continue));
    assert_eq!(debugger.resolve_hit(conditional, None), HitResolution::Resumed(ResumeAction::Nothing));
}

#[test]
fn session_operations() {
    let mut debugger = launched();
    assert_eq!(
        debugger.set_breakpoint("x.spp".to_string(), 4, None, None, Ok(0)),
        Err(DebuggerError::LocationNotFound)
    );
    assert_eq!(
        debugger.set_breakpoint(
            "x.spp".to_string(),
            3,
            None,
            None,
            Err(MemoryError::ReadError { address: 0x401000 })
        ),
        Err(DebuggerError::Breakpoint(BreakpointError::AddressUnreadable))
    );
    let id = debugger
        .set_breakpoint("x.spp".to_string(), 3, Some("c".to_string()), Some("m".to_string()), Ok(1))
        .unwrap();
    assert!(matches!(
        debugger.breakpoint_manager.get_breakpoint(id).unwrap().breakpoint_type,
        BreakpointType::Conditional(_)
    ));
    assert_eq!(
        debugger.set_breakpoint("x.spp".to_string(), 3, None, None, Ok(0xCC)),
        Err(DebuggerError::Breakpoint(BreakpointError::DuplicateAddress))
    );
    assert_eq!(
        debugger.set_breakpoint(
            "x.spp".to_string(),
            3,
            None,
            None,
            Err(MemoryError::WriteError { address: 0x401000 })
        ),
        Err(DebuggerError::Breakpoint(BreakpointError::DuplicateAddress))
    );
    debugger.breakpoint_manager.remove_breakpoint(id, true).unwrap();
    assert_eq!(
        debugger.plan_breakpoint(&"x.spp".to_string(), 3, Ok(1)),
        Ok(MemoryPatch { address: 0x401000, byte: 0xCC })
    );
    assert_eq!(
        debugger.plan_breakpoint(&"x.spp".to_string(), 4, Ok(1)),
        Err(DebuggerError::LocationNotFound)
    );
    assert_eq!(
        debugger.set_breakpoint(
            "x.spp".to_string(),
            3,
            None,
            None,
            Err(MemoryError::WriteError { address: 0x401000 })
        ),
        Err(DebuggerError::Breakpoint(BreakpointError::AddressUnwritable))
    );
    assert!(debugger.breakpoint_manager.breakpoints.is_empty());
    let id = debugger.set_breakpoint("x.spp".to_string(), 3, None, Some("m".to_string()), Ok(1)).unwrap();
    assert!(matches!(
        debugger.breakpoint_manager.get_breakpoint(id).unwrap().breakpoint_type,
        BreakpointType::LogPoint(_)
    ));

    assert_eq!(debugger.set_watchpoint(0x10, 4, WatchType::Read, Some(4), vec![0; 4]), Ok(()));
    assert_eq!(
        debugger.set_watchpoint(0x20, 4, WatchType::Read, None, vec![]),
        Err(DebuggerError::Watchpoint(WatchpointError::ProtectionChangeFailed))
    );
    assert_eq!(debugger.watchpoint_manager.watchpoints.len(), 1);
    assert_eq!(debugger.watchpoint_manager.process_handle, 7);

    assert_eq!(debugger.read_memory(0x10, 2, &[1, 2, 3]), Ok(vec![1, 2]));
    assert_eq!(
        debugger.read_memory(0x10, 2, &[1]),
        Err(DebuggerError::Memory(MemoryError::ReadError { address: 0x10 }))
    );
    assert_eq!(debugger.write_memory(0x10, &[1, 2], 2), Ok(()));
    assert_eq!(
        debugger.write_memory(0x10, &[1, 2], 0),
        Err(DebuggerError::Memory(MemoryError::WriteError { address: 0x10 }))
    );
    let vars = vec![("n".to_string(), 20)];
    assert_eq!(debugger.evaluate_expression("n * 2 + 2", &vars), Ok("42".to_string()));
    assert_eq!(debugger.evaluate_expression("0 - n", &vars), Ok("-20".to_string()));
    assert_eq!(debugger.evaluate_expression("m", &vars), Err(EvalError::UnknownName));
    let frames = debugger.get_backtrace(Some(&walked(1, 2, 3)), &vec![walked(4, 5, 6)]).unwrap();
    assert_eq!(frames.len(), 2);
    suspend(&mut debugger, 0x1);
    assert_eq!(debugger.step_over(false), Err(ProcessError::ResumeFailed));
    assert_eq!(debugger.step_into(true), Ok(ResumeAction::SingleStep));
    assert_eq!(debugger.step_over(true), Ok(ResumeAction::Nothing));
}

#[test]
fn lines_that_hits_write_out() {
    let conditional = BreakpointType::Conditional("x".to_string());
    let log = BreakpointType::LogPoint("t".to_string());
    let counter = BreakpointType::Counter { count: 1, hit_count: 0 };
    let line = || Ok("a line".to_string());
    let open = || Err(TemplateError::UnterminatedPlaceholder);
    assert!(Debugger::hit_output(&conditional, Ok(true), line()).is_none());
    assert!(Debugger::hit_output(&conditional, Ok(false), open()).is_none());
    match Debugger::hit_output(&conditional, Err(EvalError::Syntax), line()) {
        Some(DebugEvent::Output { message }) => {
            assert_eq!(message, "warning: the condition of the breakpoint could not be evaluated")
        }
        other => panic!("unexpected: {:?}", other),
    }
    match Debugger::hit_output(&log, Err(EvalError::Syntax), line()) {
        Some(DebugEvent::Output { message }) => assert_eq!(message, "a line"),
        other => panic!("unexpected: {:?}", other),
    }
    match Debugger::hit_output(&log, Ok(true), open()) {
        Some(DebugEvent::Output { message }) => {
            assert_eq!(message, "warning: unterminated placeholder in log message")
        }
        other => panic!("unexpected: {:?}", other),
    }
    assert!(Debugger::hit_output(&BreakpointType::Normal, Err(EvalError::Syntax), open()).is_none());
    assert!(Debugger::hit_output(&counter, Err(EvalError::Syntax), open()).is_none());
}

#[test]
fn detaching_puts_everything_back() {
    let mut manager = WatchpointManager::new(1);
    manager.add_watchpoint(0x10, 4, WatchType::Write, Some(0x20), vec![]).unwrap();
    manager.add_watchpoint(0x30, 8, WatchType::Read, Some(0x40), vec![]).unwrap();
    assert_eq!(
        manager.restore_all(),
        vec![
            ProtectionChange { address: 0x10, size: 4, protection: 0x20 },
            ProtectionChange { address: 0x30, size: 8, protection: 0x40 },
        ]
    );
    assert!(WatchpointManager::new(1).restore_all().is_empty());
}

#[test]
fn event_loop_goes_on_only_after_a_hit_that_does_not_stop() {
    let mut debugger = launched();
    let vars = vec![("x".to_string(), 1)];
    let stop = debugger
        .breakpoint_manager
        .add_breakpoint(0x10, 1, "x.spp".to_string(), BreakpointType::Normal, Ok(0))
        .unwrap();
    let log = debugger
        .breakpoint_manager
        .add_breakpoint(0x20, 2, "x.spp".to_string(), BreakpointType::LogPoint("x is {x}".to_string()), Ok(0))
        .unwrap();
    assert!(matches!(debugger.advance(None, &vars), Err(ProcessError::EventWaitFailed)));
    assert_eq!(debugger.process.unwrap().state, ProcessState::Running);

    let trap = |address| Notification::Exception { code: EXCEPTION_BREAKPOINT, address, thread_id: 101 };
    let turn = debugger.advance(Some(trap(0x20)), &vars).unwrap();
    assert!(matches!(turn.event, DebugEvent::BreakpointHit { id, .. } if id == log));
    assert!(matches!(turn.output, Some(DebugEvent::Output { ref message }) if message == "x is 1"));
    assert_eq!(turn.resolution, HitResolution::Resumed(ResumeAction::Continue));
    assert_eq!(turn.step, LoopStep::Resume(ResumeAction::Continue));
    assert!(debugger.process.unwrap().is_suspended());
    assert_eq!(debugger.continue_execution(true), Ok(ResumeAction::Continue));

    let turn = debugger.advance(Some(trap(0x10)), &vars).unwrap();
    assert!(matches!(turn.event, DebugEvent::BreakpointHit { id, .. } if id == stop));
    assert_eq!(turn.resolution, HitResolution::Stopped);
    assert_eq!(turn.step, LoopStep::Yield);
    assert!(debugger.process.unwrap().is_suspended());
    assert_eq!(debugger.continue_execution(true), Ok(ResumeAction::Continue));

    // an event that is no hit leaves the debuggee suspended
    let turn = debugger.advance(Some(Notification::ThreadCreated { thread_id: 5 }), &vars).unwrap();
    assert!(matches!(turn.event, DebugEvent::ThreadCreated { thread_id: 5 }));
    assert_eq!(turn.resolution, HitResolution::Ignored);
    assert_eq!(turn.step, LoopStep::Yield);
    assert!(turn.output.is_none());
    assert!(debugger.process.unwrap().is_suspended());
    assert_eq!(debugger.continue_execution(true), Ok(ResumeAction::Continue));

    let turn = debugger.advance(Some(Notification::ProcessExited { exit_code: 0 }), &vars).unwrap();
    assert!(matches!(turn.event, DebugEvent::ProcessExited { exit_code: 0 }));
    assert_eq!(turn.step, LoopStep::Yield);
    assert_eq!(debugger.process.unwrap().state, ProcessState::Exited(0));

    assert_eq!(Debugger::loop_step(HitResolution::Resumed(ResumeAction::Nothing)), LoopStep::Yield);
    assert!(matches!(Debugger::new().advance(Some(trap(1)), &vars), Err(ProcessError::NoActiveProcess)));
}
