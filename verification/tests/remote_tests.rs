use swiftpp::debugger::memory::MemoryError;
use swiftpp::debugger::remote::client::{CommandError, DebugClient};
use swiftpp::debugger::remote::framing::{decode_frame, encode_frame, frame_length, Decoded};
use swiftpp::debugger::remote::protocol::{
    DebugCommand, DebugEvent, MessageContent, MessageType, OutputCategory, ProtocolError,
    ProtocolMessage, ResponseBody,
};
use swiftpp::debugger::remote::codec::{decode_message, pack_message};
use swiftpp::debugger::process::{Notification, ProcessState, EXCEPTION_BREAKPOINT};
use swiftpp::debugger::remote::server::{
    breakpoint_event, file_name_of, serve_set_breakpoint, stack_trace, CommandFailure,
    DebugServer, Observation, Served,
};
use swiftpp::debugger::stack::{FrameLookups, StackFrame, WalkedFrame};
use swiftpp::debugger::symbols::{AttributeValue, DebugEntry, FileEntry};
use swiftpp::debugger::{Debugger, DebuggerError};

#[test]
fn frame_round_trip() {
    for payload in [&b""[..], &b"x"[..], &b"{\"seq\":1}"[..], &[0u8; 300][..]] {
        let frame = encode_frame(payload).unwrap();
        assert_eq!(frame.len(), payload.len() + 4);
        assert_eq!(&frame[..4], &(payload.len() as u32).to_le_bytes());
        match decode_frame(&frame) {
            Decoded::Frame { payload: got, consumed } => {
                assert_eq!(got, payload);
                assert_eq!(consumed, frame.len());
            }
            Decoded::Incomplete { .. } => panic!("the frame is whole"),
        }
        // what follows the frame is left alone
        let mut longer = frame.clone();
        longer.extend_from_slice(b"next");
        match decode_frame(&longer) {
            Decoded::Frame { payload: got, consumed } => {
                assert_eq!(got, payload);
                assert_eq!(&longer[consumed..], b"next");
            }
            Decoded::Incomplete { .. } => panic!("the frame is whole"),
        }
    }
}

#[test]
fn frame_of_300_bytes_has_a_little_endian_length() {
    let frame = encode_frame(&[7u8; 300]).unwrap();
    assert_eq!(&frame[..4], &[0x2c, 0x01, 0x00, 0x00]);
    assert_eq!(frame_length(&[0x2c, 0x01, 0x00, 0x00]), 300);
    assert_eq!(frame_length(&[0xff, 0xff, 0xff, 0xff]), 0xffff_ffff);
}

#[test]
fn incomplete_frames() {
    assert!(matches!(decode_frame(&[]), Decoded::Incomplete { missing: 4 }));
    assert!(matches!(decode_frame(&[5, 0, 0]), Decoded::Incomplete { missing: 1 }));
    assert!(matches!(decode_frame(&[5, 0, 0, 0]), Decoded::Incomplete { missing: 5 }));
    assert!(matches!(decode_frame(&[5, 0, 0, 0, 1, 2]), Decoded::Incomplete { missing: 3 }));
    assert!(matches!(decode_frame(&[0, 0, 0, 0]), Decoded::Frame { consumed: 4, .. }));
    let frame = encode_frame(b"hello").unwrap();
    for cut in 0..frame.len() {
        assert!(matches!(decode_frame(&frame[..cut]), Decoded::Incomplete { .. }));
    }
}

fn debug_entries(with_location: bool) -> Vec<DebugEntry> {
    vec![DebugEntry {
        name: Some("main".to_string()),
        low_pc: AttributeValue::Address(0x401000),
        high_pc: AttributeValue::Unsigned(0x40),
        decl_file: if with_location { AttributeValue::FileIndex(1) } else { AttributeValue::Absent },
        decl_line: AttributeValue::Unsigned(3),
        decl_column: AttributeValue::Absent,
        file_entry: Some(FileEntry { directory: None, path_name: Some("x.spp".to_string()) }),
    }]
}

fn launched_as(with_location: bool) -> Observation {
    Observation::Launched {
        spawned: Some((1, 2)),
        process_handle: 3,
        thread_handle: 4,
        entries: Some(debug_entries(with_location)),
    }
}

/// Sends the command through both ends and returns what the client makes
/// of the response, with the event that the server reports.
fn exchange(
    client: &mut DebugClient,
    server: &mut DebugServer,
    debugger: &mut Debugger,
    command: DebugCommand,
    observed: Observation,
) -> (Result<ResponseBody, CommandError>, Option<DebugEvent>) {
    let request = client.send_command(command);
    let seq = request.seq;
    let before = server.sequence;
    let (response, event) = server.handle_message(debugger, request, observed);
    let response = response.expect("a request is answered");
    assert_eq!(response.seq, before + 1);
    assert_eq!(response.typ, MessageType::Response);
    match &response.content {
        MessageContent::Response { request_seq, success, message, body } => {
            assert_eq!(*request_seq, seq);
            assert_eq!(*success, message.is_none());
            assert!(*success || body.is_none());
        }
        _ => panic!("a response"),
    }
    (client.receive_response(response), event)
}

fn rejected(answer: Result<ResponseBody, CommandError>) -> String {
    match answer {
        Err(CommandError::Rejected(message)) => message,
        other => panic!("unexpected: {:?}", other),
    }
}

#[test]
fn every_request_gets_one_correlated_response() {
    let mut client = DebugClient::new();
    let mut server = DebugServer::new();
    let mut debugger = Debugger::new();

    // a command that fails gets a failed response, not an error
    let stack = || Observation::Stack { context: None, walked: vec![] };
    let (answer, event) = exchange(&mut client, &mut server, &mut debugger, DebugCommand::GetStackTrace, stack());
    assert_eq!(rejected(answer), "No active debug session");
    assert!(event.is_none());
    assert!(!server.session_active);

    let launch = || DebugCommand::Launch { program: "prog".to_string(), args: vec!["a".to_string()], working_dir: None };
    let failed = Observation::Launched { spawned: None, process_handle: 0, thread_handle: 0, entries: Some(vec![]) };
    let (answer, event) = exchange(&mut client, &mut server, &mut debugger, launch(), failed);
    assert_eq!(rejected(answer), "The process failed");
    assert!(event.is_none());
    assert!(debugger.process.is_none());

    let (answer, event) = exchange(&mut client, &mut server, &mut debugger, launch(), launched_as(true));
    match answer {
        Ok(ResponseBody::Capabilities(c)) => assert!(c.supports_log_points && !c.supports_step_back),
        other => panic!("unexpected: {:?}", other),
    }
    assert!(matches!(event, Some(DebugEvent::Started { pid: 1 })));
    assert!(server.session_active);
    assert_eq!(debugger.process.unwrap().state, ProcessState::Running);

    let (answer, _) = exchange(&mut client, &mut server, &mut debugger, DebugCommand::GetStackTrace, stack());
    assert!(DebugClient::get_stack_trace(answer.unwrap()).unwrap().is_empty());

    for command in [
        DebugCommand::Attach { pid: 9 },
        DebugCommand::StepOut,
        DebugCommand::Pause,
        DebugCommand::GetVariables { frame_id: 0 },
        DebugCommand::SetVariable { frame_id: 0, name: "x".to_string(), value: "1".to_string() },
    ] {
        let (answer, event) = exchange(&mut client, &mut server, &mut debugger, command, Observation::Nothing);
        assert_eq!(rejected(answer), "Command not implemented");
        assert!(event.is_none());
    }
    // what the operating system gave must be what the command needs
    let (answer, _) = exchange(&mut client, &mut server, &mut debugger, DebugCommand::Continue, Observation::Nothing);
    assert_eq!(rejected(answer), "The command could not be carried out");
    let (answer, _) = exchange(&mut client, &mut server, &mut debugger, DebugCommand::Disconnect, Observation::Nothing);
    assert!(DebugClient::expect_done(answer).is_ok());
    assert_eq!(server.sequence, 11);
    assert_eq!(client.sequence, 11);
}

#[test]
fn commands_reach_the_operations_of_the_session() {
    let mut client = DebugClient::new();
    let mut server = DebugServer::new();
    let mut debugger = Debugger::new();
    let launch = DebugCommand::Launch { program: "p".to_string(), args: vec![], working_dir: None };
    exchange(&mut client, &mut server, &mut debugger, launch, launched_as(true)).0.unwrap();

    // a breakpoint, verified with its id
    let set = |line| DebugCommand::SetBreakpoint { file: "x.spp".to_string(), line, condition: None, log_message: None };
    let (answer, event) = exchange(&mut client, &mut server, &mut debugger, set(3), Observation::Byte(Ok(0x90)));
    assert!(DebugClient::expect_done(answer).is_ok());
    assert!(matches!(event, Some(DebugEvent::Breakpoint { id: 1, verified: true, message: None })));
    assert!(debugger.breakpoint_manager.is_armed(0x401000));
    let (answer, event) = exchange(&mut client, &mut server, &mut debugger, set(4), Observation::Byte(Ok(0x90)));
    assert_eq!(rejected(answer), "Could not find address for breakpoint location");
    assert!(matches!(event, Some(DebugEvent::Breakpoint { id: 0, verified: false, message: Some(_) })));
    let (answer, _) = exchange(&mut client, &mut server, &mut debugger, set(3), Observation::Byte(Ok(0xCC)));
    assert_eq!(rejected(answer), "A breakpoint is set at the address already");

    // running on: nothing to do while the debuggee runs, an error where the resume failed
    let (answer, _) = exchange(&mut client, &mut server, &mut debugger, DebugCommand::Continue, Observation::Done(true));
    assert!(DebugClient::expect_done(answer).is_ok());
    let trap = Notification::Exception { code: EXCEPTION_BREAKPOINT, address: 0x401000, thread_id: 2 };
    debugger.handle_notification(Some(trap)).unwrap();
    let (answer, _) = exchange(&mut client, &mut server, &mut debugger, DebugCommand::StepInto, Observation::Done(false));
    assert_eq!(rejected(answer), "Failed to continue process");
    assert!(debugger.process.unwrap().is_suspended());
    let (answer, _) = exchange(&mut client, &mut server, &mut debugger, DebugCommand::StepOver, Observation::Done(true));
    assert!(DebugClient::expect_done(answer).is_ok());
    assert_eq!(debugger.process.unwrap().state, ProcessState::Running);

    // memory
    let read = DebugCommand::ReadMemory { address: 0x10, size: 2 };
    let (answer, _) = exchange(&mut client, &mut server, &mut debugger, read, Observation::Bytes(vec![7, 8, 9]));
    assert!(matches!(answer, Ok(ResponseBody::Memory(bytes)) if bytes == vec![7, 8]));
    let read = DebugCommand::ReadMemory { address: 0x10, size: 2 };
    let (answer, _) = exchange(&mut client, &mut server, &mut debugger, read, Observation::Bytes(vec![7]));
    assert_eq!(rejected(answer), "Failed to access memory");
    let write = || DebugCommand::WriteMemory { address: 0x10, data: vec![1, 2] };
    let (answer, _) = exchange(&mut client, &mut server, &mut debugger, write(), Observation::Count(2));
    assert!(DebugClient::expect_done(answer).is_ok());
    let (answer, _) = exchange(&mut client, &mut server, &mut debugger, write(), Observation::Count(1));
    assert_eq!(rejected(answer), "Failed to access memory");

    // the stack, as the front end shows it
    let frame = |ip| WalkedFrame {
        instruction_pointer: ip,
        stack_pointer: 0,
        frame_pointer: 0,
        lookups: FrameLookups { module_name: None, function_name: Some(b"f\0".to_vec()), source: None },
    };
    let stack = Observation::Stack { context: Some(frame(1)), walked: vec![frame(2), frame(0), frame(3)] };
    let (answer, _) = exchange(&mut client, &mut server, &mut debugger, DebugCommand::GetStackTrace, stack);
    let frames = DebugClient::get_stack_trace(answer.unwrap()).unwrap();
    assert_eq!(frames.len(), 2);
    assert_eq!((frames[0].id, frames[1].id), (0, 1));
    assert_eq!(frames[1].name, "f");

    // values
    let evaluate = |text: &str| DebugCommand::Evaluate { expression: text.to_string(), frame_id: None };
    let vars = || Observation::Variables(vec![("n".to_string(), 20)]);
    let (answer, _) = exchange(&mut client, &mut server, &mut debugger, evaluate("n * 2 + 2"), vars());
    assert!(matches!(answer, Ok(ResponseBody::Evaluate(text)) if text == "42"));
    let (answer, _) = exchange(&mut client, &mut server, &mut debugger, evaluate("m"), vars());
    assert_eq!(rejected(answer), "Failed to evaluate expression");

    // removing: the breakpoint stays where its byte could not be written back
    let remove = |id| DebugCommand::RemoveBreakpoint { id };
    let (answer, _) = exchange(&mut client, &mut server, &mut debugger, remove(1), Observation::Done(false));
    assert_eq!(rejected(answer), "Failed to write breakpoint");
    assert!(debugger.breakpoint_manager.is_armed(0x401000));
    let (answer, _) = exchange(&mut client, &mut server, &mut debugger, remove(1), Observation::Done(true));
    assert!(DebugClient::expect_done(answer).is_ok());
    assert!(!debugger.breakpoint_manager.is_armed(0x401000));
    let (answer, _) = exchange(&mut client, &mut server, &mut debugger, remove(1), Observation::Done(true));
    assert_eq!(rejected(answer), "Breakpoint not found");
}

#[test]
fn a_response_that_is_too_large_is_declined() {
    let mut server = DebugServer::new();
    let response = server.respond(7, Ok(Some(ResponseBody::Evaluate("1".to_string()))));
    let fallback = DebugServer::decline(&response);
    assert_eq!(fallback.seq, response.seq);
    assert!(matches!(
        fallback.content,
        MessageContent::Response { request_seq: 7, success: false, message: Some(ref m), body: None } if m == "Response too large"
    ));
    // a response that fits is sent as it is
    assert_eq!(DebugServer::frame_response(&response), pack_message(&response).unwrap());
    assert_eq!(CommandFailure::TooLarge.message(), "Response too large");
    assert_eq!(CommandFailure::Session(DebuggerError::LocationNotFound).message(), "Could not find address for breakpoint location");
}

#[test]
fn messages_of_the_wrong_kind() {
    let mut server = DebugServer::new();
    let event = server.handle_event(DebugEvent::Started { pid: 4 });
    assert_eq!(event.seq, 1);
    assert_eq!(event.typ, MessageType::Event);
    let mut debugger = Debugger::new();
    let again = server.handle_event(DebugEvent::Started { pid: 4 });
    let (answer, reported) = server.handle_message(&mut debugger, again, Observation::Nothing);
    assert_eq!(answer.err(), Some(ProtocolError::UnexpectedMessageType));
    assert!(reported.is_none());
    assert_eq!(server.sequence, 2);
    let mut client = DebugClient::new();
    let request = client.step_into();
    assert!(matches!(
        client.receive_response(event),
        Err(CommandError::Protocol(ProtocolError::UnexpectedMessageType))
    ));
    assert!(matches!(
        DebugClient::receive_event(request),
        Err(ProtocolError::UnexpectedMessageType)
    ));
    let event = server.handle_event(DebugEvent::Output {
        category: OutputCategory::Stdout,
        message: "hi".to_string(),
    });
    assert_eq!(event.seq, 3);
    match DebugClient::receive_event(event) {
        Ok(DebugEvent::Output { category, message }) => {
            assert_eq!(category, OutputCategory::Stdout);
            assert_eq!(message, "hi");
        }
        other => panic!("unexpected: {:?}", other),
    }
}

fn response(request_seq: u64, success: bool, message: Option<&str>, body: Option<ResponseBody>) -> ProtocolMessage {
    ProtocolMessage {
        seq: 9,
        typ: MessageType::Response,
        content: MessageContent::Response {
            request_seq,
            success,
            message: message.map(|m| m.to_string()),
            body,
        },
    }
}

#[test]
fn responses() {
    let mut client = DebugClient::new();
    let request = client.step_over();
    assert!(matches!(request.content, MessageContent::Command(DebugCommand::StepOver)));
    assert!(matches!(
        client.receive_response(response(1, true, None, None)),
        Err(CommandError::NoResponseBody)
    ));
    match client.receive_response(response(1, false, None, None)) {
        Err(CommandError::Rejected(message)) => assert_eq!(message, "Unknown error"),
        other => panic!("unexpected: {:?}", other),
    }
    match client.receive_response(response(1, false, Some("no"), None)) {
        Err(CommandError::Rejected(message)) => assert_eq!(message, "no"),
        other => panic!("unexpected: {:?}", other),
    }
    // a response to another request is not the answer
    assert!(matches!(
        client.receive_response(response(2, true, None, Some(ResponseBody::Memory(vec![1])))),
        Err(CommandError::Protocol(ProtocolError::UnexpectedMessageType))
    ));
    assert!(matches!(
        client.receive_response(response(1, true, None, Some(ResponseBody::Memory(vec![1])))),
        Ok(ResponseBody::Memory(bytes)) if bytes == vec![1]
    ));
    assert_eq!(DebugClient::evaluate(ResponseBody::Evaluate("4".to_string())), Ok("4".to_string()));
    assert_eq!(
        DebugClient::evaluate(ResponseBody::Memory(vec![])),
        Err(ProtocolError::UnexpectedMessageType)
    );
    assert!(DebugClient::get_variables(ResponseBody::Variables(vec![])).unwrap().is_empty());
    assert!(DebugClient::get_variables(ResponseBody::Memory(vec![])).is_err());
    assert!(DebugClient::get_stack_trace(ResponseBody::Memory(vec![])).is_err());
    assert_eq!(
        DebugClient::expect_capabilities(ResponseBody::Memory(vec![])),
        Err(ProtocolError::UnexpectedMessageType)
    );
    let request = client.set_breakpoint("x.spp".to_string(), 3, None, None);
    assert_eq!(request.seq, 2);
    assert!(matches!(
        request.content,
        MessageContent::Command(DebugCommand::SetBreakpoint { line: 3, .. })
    ));
    assert!(matches!(client.step_out().content, MessageContent::Command(DebugCommand::StepOut)));
}

#[test]
fn sequence_numbers_start_again_after_the_largest() {
    let mut server = DebugServer::new();
    server.sequence = u64::MAX - 1;
    assert_eq!(server.next_sequence(), u64::MAX);
    assert_eq!(server.next_sequence(), 0);
    assert_eq!(server.next_sequence(), 1);
    let mut client = DebugClient::new();
    client.sequence = u64::MAX;
    assert_eq!(client.continue_execution().seq, 0);
}

fn session(with_location: bool) -> Debugger {
    let mut debugger = Debugger::new();
    debugger.launch(Some((1, 2)), 3, 4, Some(&debug_entries(with_location))).unwrap();
    debugger
}

#[test]
fn set_breakpoint_is_verified_where_the_location_is_mapped() {
    let mut debugger = session(true);
    let (outcome, event) = serve_set_breakpoint(&mut debugger, "x.spp".to_string(), 3, None, None, Ok(0x90));
    assert!(matches!(outcome, Ok(None)));
    match event {
        Some(DebugEvent::Breakpoint { id, verified, message }) => {
            assert!(verified);
            assert_eq!(id, 1);
            assert!(message.is_none());
        }
        other => panic!("unexpected: {:?}", other),
    }
    assert!(debugger.breakpoint_manager.is_armed(0x401000));

    let mut debugger = session(false);
    let (outcome, event) = serve_set_breakpoint(&mut debugger, "x.spp".to_string(), 3, None, None, Ok(0x90));
    assert!(matches!(outcome, Err(CommandFailure::Session(DebuggerError::LocationNotFound))));
    match event {
        Some(DebugEvent::Breakpoint { id, verified, message }) => {
            assert!(!verified);
            assert_eq!(id, 0);
            assert_eq!(message, Some("Could not find address for breakpoint location".to_string()));
        }
        other => panic!("unexpected: {:?}", other),
    }
    assert!(debugger.breakpoint_manager.breakpoints.is_empty());

    let mut debugger = session(true);
    let unreadable = Err(MemoryError::ReadError { address: 0x401000 });
    assert!(matches!(
        serve_set_breakpoint(&mut debugger, "x.spp".to_string(), 3, None, None, unreadable).1,
        Some(DebugEvent::Breakpoint { id: 0, verified: false, message: Some(_) })
    ));
    let unwritable = Err(MemoryError::WriteError { address: 0x401000 });
    match serve_set_breakpoint(&mut debugger, "x.spp".to_string(), 3, None, None, unwritable).1 {
        Some(DebugEvent::Breakpoint { id: 0, verified: false, message: Some(m) }) => {
            assert_eq!(m, "Failed to write breakpoint")
        }
        other => panic!("unexpected: {:?}", other),
    }
    assert!(debugger.breakpoint_manager.breakpoints.is_empty());
    assert_eq!(debugger.breakpoint_manager.next_id, 1);
    assert!(matches!(
        breakpoint_event(&Err(DebuggerError::AddressOutOfRange)),
        DebugEvent::Breakpoint { id: 0, verified: false, message: Some(_) }
    ));
    assert!(matches!(
        breakpoint_event(&Ok(12)),
        DebugEvent::Breakpoint { id: 12, verified: true, message: None }
    ));
}

#[test]
fn server_serves_bytes() {
    let mut client = DebugClient::new();
    let mut server = DebugServer::new();
    let mut debugger = Debugger::new();
    let request = client.frame_command(DebugCommand::Launch {
        program: "p".to_string(),
        args: vec![],
        working_dir: None,
    }).unwrap();
    // the bytes arrive one by one
    for cut in 0..request.len() {
        assert!(matches!(
            server.handle_client(&mut debugger, &request[..cut], launched_as(true)),
            Served::Incomplete { .. }
        ));
        assert_eq!(server.sequence, 0);
        assert!(debugger.process.is_none());
    }
    let mut stream = request.clone();
    stream.extend_from_slice(&client.frame_command(DebugCommand::Pause).unwrap());
    let (frame, consumed, event) = match server.handle_client(&mut debugger, &stream, launched_as(true)) {
        Served::Reply { frame, consumed, event } => (frame, consumed, event),
        _ => panic!("a reply"),
    };
    assert_eq!(consumed, request.len());
    assert!(matches!(event, Some(DebugEvent::Started { pid: 1 })));
    assert!(debugger.process.is_some());
    let response = decode_message(&frame[4..]).unwrap();
    assert_eq!(response.seq, 1);
    assert!(matches!(
        response.content,
        MessageContent::Response { request_seq: 1, success: true, message: None, body: Some(ResponseBody::Capabilities(_)) }
    ));
    let (frame, _) = match server.handle_client(&mut debugger, &stream[consumed..], Observation::Nothing) {
        Served::Reply { frame, consumed, .. } => (frame, consumed),
        _ => panic!("a reply"),
    };
    match client.receive(&frame) {
        Some((Err(CommandError::Rejected(message)), used)) => {
            assert_eq!(message, "Command not implemented");
            assert_eq!(used, frame.len());
        }
        other => panic!("unexpected: {:?}", other),
    }
    assert!(client.receive(&frame[..frame.len() - 1]).is_none());
    // a failed command is answered, and the connection stays open
    let stack = client.frame_command(DebugCommand::Continue).unwrap();
    let reply = server.handle_client(&mut debugger, &stack, Observation::Nothing);
    match reply {
        Served::Reply { frame, consumed, event } => {
            assert_eq!(consumed, stack.len());
            assert!(event.is_none());
            let response = decode_message(&frame[4..]).unwrap();
            assert!(matches!(
                response.content,
                MessageContent::Response { request_seq: 3, success: false, message: Some(_), body: None }
            ));
        }
        _ => panic!("a reply"),
    }
    // a frame that holds no message, and a message that is no request, close the connection
    let sequence = server.sequence;
    assert!(matches!(
        server.handle_client(&mut debugger, &[2, 0, 0, 0, b'{', b'}'], Observation::Nothing),
        Served::Closed { error: ProtocolError::Serialization }
    ));
    assert_eq!(server.sequence, sequence);
    let event = pack_message(&server.handle_event(DebugEvent::Started { pid: 1 })).unwrap();
    assert!(matches!(
        server.handle_client(&mut debugger, &event, Observation::Nothing),
        Served::Closed { error: ProtocolError::UnexpectedMessageType }
    ));
    assert!(matches!(
        client.receive(&[2, 0, 0, 0, b'{', b'}']),
        Some((Err(CommandError::Protocol(ProtocolError::Serialization)), 6))
    ));
}

#[test]
fn frames_as_the_front_end_shows_them() {
    let frames = vec![
        StackFrame {
            instruction_pointer: 1,
            stack_pointer: 2,
            frame_pointer: 3,
            module_name: "app".to_string(),
            function_name: Some("main".to_string()),
            source_file: Some("C:\\src\\main.spp".to_string()),
            line_number: Some(12),
        },
        StackFrame {
            instruction_pointer: 4,
            stack_pointer: 5,
            frame_pointer: 6,
            module_name: "".to_string(),
            function_name: None,
            source_file: None,
            line_number: None,
        },
    ];
    match stack_trace(&frames) {
        ResponseBody::StackTrace(list) => {
            assert_eq!(list.len(), 2);
            assert_eq!(list[0].id, 0);
            assert_eq!(list[0].name, "main");
            let source = list[0].source.as_ref().unwrap();
            assert_eq!(source.path, "C:\\src\\main.spp");
            assert_eq!(source.name, "main.spp");
            assert_eq!((list[0].line, list[0].column), (12, 0));
            assert_eq!(list[0].module, Some("app".to_string()));
            assert_eq!(list[1].id, 1);
            assert_eq!(list[1].name, "");
            assert!(list[1].source.is_none());
            assert_eq!((list[1].line, list[1].column), (0, 0));
            assert_eq!(list[1].module, None);
        }
        other => panic!("unexpected: {:?}", other),
    }
    assert_eq!(file_name_of(&"/a/b/c.spp".to_string()), "c.spp");
    assert_eq!(file_name_of(&"c.spp".to_string()), "c.spp");
    assert_eq!(file_name_of(&"/a/b/".to_string()), "");
    assert_eq!(file_name_of(&"".to_string()), "");
    assert_eq!(file_name_of(&"a\\b/c".to_string()), "c");
}
