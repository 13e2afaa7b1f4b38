use swiftpp::debugger::remote::codec::{
    command_from_json, command_to_json, decode_message, encode_message, event_from_json,
    event_to_json, pack_message, unpack_message, Unpacked,
};
use swiftpp::debugger::remote::json::{from_text, to_text, Json};
use swiftpp::debugger::remote::protocol::{
    DebugCommand, DebugEvent, DebuggerCapabilities, MessageContent, MessageType, OutputCategory,
    ProtocolError, ProtocolMessage, ResponseBody, Source, StackFrame, StopReason, Variable,
};

fn text(m: &ProtocolMessage) -> String {
    String::from_utf8(encode_message(m)).unwrap()
}

fn request(seq: u64, command: DebugCommand) -> ProtocolMessage {
    ProtocolMessage { seq, typ: MessageType::Request, content: MessageContent::Command(command) }
}

fn event(seq: u64, event: DebugEvent) -> ProtocolMessage {
    ProtocolMessage { seq, typ: MessageType::Event, content: MessageContent::Event(event) }
}

fn response(seq: u64, request_seq: u64, body: Option<ResponseBody>, message: Option<&str>) -> ProtocolMessage {
    ProtocolMessage {
        seq,
        typ: MessageType::Response,
        content: MessageContent::Response {
            request_seq,
            success: message.is_none(),
            message: message.map(|m| m.to_string()),
            body,
        },
    }
}

fn capabilities() -> DebuggerCapabilities {
    DebuggerCapabilities {
        supports_step_back: false,
        supports_restart_frame: false,
        supports_goto_targets: true,
        supports_evaluate_for_hovers: true,
        supports_conditional_breakpoints: true,
        supports_log_points: false,
        supports_set_variable: true,
        supports_completions: false,
        supports_modules: true,
        supports_memory_references: true,
        supports_value_formatting: false,
    }
}

fn samples() -> Vec<ProtocolMessage> {
    vec![
        request(
            1,
            DebugCommand::Launch {
                program: "C:\\bin\\app \"x\".exe".to_string(),
                args: vec!["-v".to_string(), "".to_string(), "gr\u{fc}n\n\t\u{1}".to_string()],
                working_dir: None,
            },
        ),
        request(
            2,
            DebugCommand::Launch { program: "p".to_string(), args: vec![], working_dir: Some("/w".to_string()) },
        ),
        request(3, DebugCommand::Attach { pid: u32::MAX }),
        request(4, DebugCommand::Continue),
        request(5, DebugCommand::StepInto),
        request(6, DebugCommand::StepOver),
        request(7, DebugCommand::StepOut),
        request(8, DebugCommand::Pause),
        request(
            9,
            DebugCommand::SetBreakpoint {
                file: "x.spp".to_string(),
                line: 3,
                condition: Some("x == 1".to_string()),
                log_message: None,
            },
        ),
        request(
            10,
            DebugCommand::SetBreakpoint {
                file: "".to_string(),
                line: 0,
                condition: None,
                log_message: Some("{x}".to_string()),
            },
        ),
        request(11, DebugCommand::RemoveBreakpoint { id: usize::MAX }),
        request(12, DebugCommand::ReadMemory { address: 0x1000, size: 16 }),
        request(13, DebugCommand::WriteMemory { address: 0, data: vec![0, 1, 127, 128, 255] }),
        request(14, DebugCommand::WriteMemory { address: 7, data: vec![] }),
        request(15, DebugCommand::GetStackTrace),
        request(16, DebugCommand::GetVariables { frame_id: 2 }),
        request(17, DebugCommand::Evaluate { expression: "a + b".to_string(), frame_id: Some(1) }),
        request(18, DebugCommand::Evaluate { expression: "{\"k\":[1,2]}".to_string(), frame_id: None }),
        request(
            19,
            DebugCommand::SetVariable { frame_id: 0, name: "n".to_string(), value: "1\\2".to_string() },
        ),
        request(u64::MAX, DebugCommand::Disconnect),
        event(20, DebugEvent::Started { pid: 7 }),
        event(
            21,
            DebugEvent::Stopped { reason: StopReason::Breakpoint { id: 4 }, thread_id: 1, frame_id: Some(0) },
        ),
        event(22, DebugEvent::Stopped { reason: StopReason::Step, thread_id: 1, frame_id: None }),
        event(23, DebugEvent::Stopped { reason: StopReason::Pause, thread_id: 2, frame_id: None }),
        event(
            24,
            DebugEvent::Stopped {
                reason: StopReason::Exception { description: "access violation".to_string() },
                thread_id: 3,
                frame_id: None,
            },
        ),
        event(25, DebugEvent::Stopped { reason: StopReason::Entry, thread_id: 0, frame_id: None }),
        event(26, DebugEvent::Breakpoint { id: 1, verified: true, message: None }),
        event(27, DebugEvent::Breakpoint { id: 0, verified: false, message: Some("no".to_string()) }),
        event(28, DebugEvent::Output { category: OutputCategory::Console, message: "a".to_string() }),
        event(29, DebugEvent::Output { category: OutputCategory::Stdout, message: "b".to_string() }),
        event(30, DebugEvent::Output { category: OutputCategory::Stderr, message: "c".to_string() }),
        event(31, DebugEvent::Output { category: OutputCategory::Debug, message: "d".to_string() }),
        event(32, DebugEvent::ThreadCreated { thread_id: 9 }),
        event(33, DebugEvent::ThreadExited { thread_id: 9 }),
        event(34, DebugEvent::ModuleLoaded { name: "m".to_string(), path: "/lib/m.so".to_string() }),
        event(35, DebugEvent::Error { message: "\u{7f}\u{80}\u{10ffff}".to_string() }),
        response(36, 1, Some(ResponseBody::Capabilities(capabilities())), None),
        response(
            37,
            2,
            Some(ResponseBody::StackTrace(vec![
                StackFrame {
                    id: 0,
                    name: "main".to_string(),
                    source: Some(Source { path: "/s/main.spp".to_string(), name: "main.spp".to_string() }),
                    line: 3,
                    column: 1,
                    module: Some("app".to_string()),
                },
                StackFrame { id: 1, name: "".to_string(), source: None, line: 0, column: 0, module: None },
            ])),
            None,
        ),
        response(38, 3, Some(ResponseBody::StackTrace(vec![])), None),
        response(
            39,
            4,
            Some(ResponseBody::Variables(vec![Variable {
                name: "x".to_string(),
                value: "1".to_string(),
                type_label: "i32".to_string(),
                variables_reference: 0,
            }])),
            None,
        ),
        response(40, 5, Some(ResponseBody::Memory(vec![1, 2, 3])), None),
        response(41, 6, Some(ResponseBody::Evaluate("42".to_string())), None),
        response(42, 7, None, Some("Command not implemented")),
        response(43, 8, None, None),
    ]
}

#[test]
fn encode_then_decode_is_lossless() {
    for message in samples() {
        let bytes = encode_message(&message);
        let decoded = decode_message(&bytes).expect("the text of a message holds a message");
        // the derived Debug text shows every field
        assert_eq!(format!("{:?}", decoded), format!("{:?}", message));
        assert_eq!(encode_message(&decoded), bytes);
    }
}

#[test]
fn pack_then_unpack_is_lossless() {
    let mut stream = Vec::new();
    for message in samples() {
        stream.extend_from_slice(&pack_message(&message).unwrap());
    }
    let mut position = 0;
    for message in samples() {
        match unpack_message(&stream[position..]) {
            Unpacked::Message { message: got, consumed } => {
                assert_eq!(format!("{:?}", got), format!("{:?}", message));
                assert_eq!(consumed, encode_message(&message).len() + 4);
                position += consumed;
            }
            _ => panic!("a message"),
        }
    }
    assert_eq!(position, stream.len());
    assert!(matches!(unpack_message(&stream[position..]), Unpacked::Incomplete { missing: 4 }));
}

#[test]
fn wire_text_of_messages() {
    assert_eq!(
        text(&request(1, DebugCommand::Launch { program: "p".to_string(), args: vec!["a".to_string(), "b".to_string()], working_dir: None })),
        r#"{"seq":1,"typ":"Request","content":{"Command":{"Launch":{"program":"p","args":["a","b"],"working_dir":null}}}}"#
    );
    assert_eq!(
        text(&request(2, DebugCommand::Continue)),
        r#"{"seq":2,"typ":"Request","content":{"Command":"Continue"}}"#
    );
    assert_eq!(
        text(&request(3, DebugCommand::SetBreakpoint { file: "x.spp".to_string(), line: 3, condition: None, log_message: Some("m".to_string()) })),
        r#"{"seq":3,"typ":"Request","content":{"Command":{"SetBreakpoint":{"file":"x.spp","line":3,"condition":null,"log_message":"m"}}}}"#
    );
    assert_eq!(
        text(&request(4, DebugCommand::WriteMemory { address: 16, data: vec![0, 255] })),
        r#"{"seq":4,"typ":"Request","content":{"Command":{"WriteMemory":{"address":16,"data":[0,255]}}}}"#
    );
    assert_eq!(
        text(&event(5, DebugEvent::Stopped { reason: StopReason::Breakpoint { id: 4 }, thread_id: 1, frame_id: None })),
        r#"{"seq":5,"typ":"Event","content":{"Event":{"Stopped":{"reason":{"Breakpoint":{"id":4}},"thread_id":1,"frame_id":null}}}}"#
    );
    assert_eq!(
        text(&event(6, DebugEvent::Output { category: OutputCategory::Stderr, message: "a\"b\\c\n".to_string() })),
        r#"{"seq":6,"typ":"Event","content":{"Event":{"Output":{"category":"Stderr","message":"a\"b\\c\n"}}}}"#
    );
    assert_eq!(
        text(&response(7, 6, Some(ResponseBody::Memory(vec![1])), None)),
        r#"{"seq":7,"typ":"Response","content":{"Response":{"request_seq":6,"success":true,"message":null,"body":{"Memory":[1]}}}}"#
    );
    assert_eq!(
        text(&response(8, 7, None, Some("no"))),
        r#"{"seq":8,"typ":"Response","content":{"Response":{"request_seq":7,"success":false,"message":"no","body":null}}}"#
    );
    assert_eq!(
        text(&response(9, 8, Some(ResponseBody::Variables(vec![Variable { name: "x".to_string(), value: "1".to_string(), type_label: "i32".to_string(), variables_reference: 2 }])), None)),
        r#"{"seq":9,"typ":"Response","content":{"Response":{"request_seq":8,"success":true,"message":null,"body":{"Variables":[{"name":"x","value":"1","type_name":"i32","variables_reference":2}]}}}}"#
    );
}

#[test]
fn texts_that_hold_no_message() {
    for bad in [
        &b""[..],
        b"{}",
        b"null",
        b"{\"seq\":1}",
        b"{\"seq\":1,\"typ\":\"Request\",\"content\":{\"Command\":\"Fly\"}}",
        b"{\"seq\":1,\"typ\":\"Request\",\"content\":{\"Command\":\"Continue\"}} ",
        b"{\"seq\":-1,\"typ\":\"Request\",\"content\":{\"Command\":\"Continue\"}}",
        b"{\"seq\":18446744073709551616,\"typ\":\"Request\",\"content\":{\"Command\":\"Continue\"}}",
        b"{\"typ\":\"Request\",\"seq\":1,\"content\":{\"Command\":\"Continue\"}}",
        b"{\"seq\":1,\"typ\":\"Query\",\"content\":{\"Command\":\"Continue\"}}",
        b"{\"seq\":1,\"typ\":\"Request\",\"content\":{\"Command\":{\"Attach\":{\"pid\":4294967296}}}}",
        b"{\"seq\":1,\"typ\":\"Request\",\"content\":{\"Command\":{\"Attach\":{\"pid\":\"1\"}}}}",
        b"{\"seq\":1,\"typ\":\"Request\",\"content\":{\"Command\":{\"WriteMemory\":{\"address\":1,\"data\":[256]}}}}",
        b"{\"seq\":1,\"typ\":\"Request\",\"content\":{\"Command\":{\"Launch\":{\"program\":\"p\",\"args\":[1],\"working_dir\":null}}}}",
        b"{\"seq\":1,\"typ\":\"Request\",\"content\":{\"Command\":\"Continue\"}",
        b"{\"seq\":1,\"typ\":\"Request\",\"content\":{\"Command\":\"Contin\xffue\"}}",
    ] {
        assert_eq!(decode_message(bad).err(), Some(ProtocolError::Serialization));
    }
    let frame = [2u8, 0, 0, 0, b'{', b'}', 9];
    assert!(matches!(unpack_message(&frame), Unpacked::Malformed { consumed: 6 }));
    assert!(matches!(unpack_message(&frame[..5]), Unpacked::Incomplete { missing: 1 }));
}

#[test]
fn largest_numbers_are_kept() {
    let message = request(u64::MAX, DebugCommand::ReadMemory { address: usize::MAX, size: 0 });
    let wire = text(&message);
    assert!(wire.contains("\"seq\":18446744073709551615"));
    match decode_message(wire.as_bytes()).unwrap() {
        ProtocolMessage {
            seq,
            content: MessageContent::Command(DebugCommand::ReadMemory { address, size }),
            ..
        } => {
            assert_eq!(seq, u64::MAX);
            assert_eq!(address, usize::MAX);
            assert_eq!(size, 0);
        }
        other => panic!("unexpected: {:?}", other),
    }
}

#[test]
fn structured_values_and_their_text() {
    let value = Json::Object(vec![
        ("a".to_string(), Json::Array(vec![Json::Null, Json::Bool(true), Json::Bool(false), Json::Number(0), Json::Number(10)])),
        ("b\"".to_string(), Json::Text("\u{8}\u{c}\r\u{1f} /".to_string())),
        ("".to_string(), Json::Object(vec![])),
        ("c".to_string(), Json::Array(vec![])),
    ]);
    let wire = to_text(&value);
    assert_eq!(
        String::from_utf8(wire.clone()).unwrap(),
        "{\"a\":[null,true,false,0,10],\"b\\\"\":\"\\b\\f\\r\\u001f /\",\"\":{},\"c\":[]}"
    );
    let back = from_text(&wire).expect("the text of a value holds the value");
    assert_eq!(format!("{:?}", back), format!("{:?}", value));
    assert_eq!(to_text(&back), wire);
    for bad in ["", "nul", "tru", "[1,]", "[,1]", "[1 2]", "{\"a\"}", "{\"a\":}", "{\"a\":1,}", "{,}", "\"a", "\"\\x\"", "\"\\u00zz\"", "\"\\u0080\"", "01x", "1 ", " 1", "[1]]", "\"\u{1}\""] {
        assert!(from_text(bad.as_bytes()).is_none(), "{:?}", bad);
    }
    // what comes in need not be in the form that goes out
    assert_eq!(format!("{:?}", from_text(b"007")), "Some(Number(7))");
    assert_eq!(format!("{:?}", from_text(b"\"\\u0041\"")), "Some(Text(\"A\"))");
}

#[test]
fn text_agrees_with_the_json_of_serde() {
    for message in samples() {
        let bytes = encode_message(&message);
        let parsed: serde_json::Value =
            serde_json::from_slice(&bytes).expect("the text of a message is JSON");
        let object = parsed.as_object().expect("a message is an object");
        assert_eq!(object.len(), 3);
        assert_eq!(object["seq"].as_u64(), Some(message.seq));
        let kind = match message.typ {
            MessageType::Request => "Request",
            MessageType::Response => "Response",
            MessageType::Event => "Event",
        };
        assert_eq!(object["typ"].as_str(), Some(kind));
        assert!(object["content"].is_object());
    }
    // strings are escaped as serde_json escapes them
    for s in ["", "plain", "a\"b", "back\\slash", "\u{0}\u{1}\u{8}\t\n\u{b}\u{c}\r\u{1f} ", "gr\u{fc}n \u{10ffff}", "/"] {
        let ours = to_text(&Json::Text(s.to_string()));
        let theirs = serde_json::to_string(&serde_json::Value::String(s.to_string())).unwrap();
        assert_eq!(String::from_utf8(ours).unwrap(), theirs);
    }
    for n in [0u64, 9, 10, 255, u32::MAX as u64, u64::MAX] {
        let ours = to_text(&Json::Number(n));
        let theirs = serde_json::to_string(&serde_json::Value::from(n)).unwrap();
        assert_eq!(String::from_utf8(ours).unwrap(), theirs);
    }
}

#[test]
fn commands_and_events_as_structured_values() {
    let command = DebugCommand::Evaluate { expression: "x".to_string(), frame_id: None };
    let j = command_to_json(&command);
    assert_eq!(
        String::from_utf8(to_text(&j)).unwrap(),
        r#"{"Evaluate":{"expression":"x","frame_id":null}}"#
    );
    assert_eq!(format!("{:?}", command_from_json(&j)), format!("{:?}", Some(command)));
    assert!(command_from_json(&Json::Text("Started".to_string())).is_none());
    let ev = DebugEvent::ModuleLoaded { name: "m".to_string(), path: "p".to_string() };
    let j = event_to_json(&ev);
    assert_eq!(format!("{:?}", event_from_json(&j)), format!("{:?}", Some(ev)));
    assert!(event_from_json(&Json::Text("Started".to_string())).is_none());
    assert!(event_from_json(&command_to_json(&DebugCommand::Attach { pid: 1 })).is_none());
}

/// An object of serde_json with these members.
fn object(members: Vec<(&str, serde_json::Value)>) -> serde_json::Value {
    let mut map = serde_json::Map::new();
    for (name, value) in members {
        map.insert(name.to_string(), value);
    }
    serde_json::Value::Object(map)
}

/// A message as serde_json holds it: the fields under their names, each
/// variant with fields under its name, a variant without fields as its
/// name.
fn message_value(seq: u64, kind: &str, variant: &str, content: serde_json::Value) -> serde_json::Value {
    object(vec![
        ("seq", serde_json::Value::from(seq)),
        ("typ", serde_json::Value::from(kind)),
        ("content", object(vec![(variant, content)])),
    ])
}

#[test]
fn whole_messages_agree_with_serde_json() {
    let null = serde_json::Value::Null;
    let cases: Vec<(ProtocolMessage, serde_json::Value)> = vec![
        (
            request(
                7,
                DebugCommand::Launch {
                    program: "C:\\bin\\a \"b\".exe".to_string(),
                    args: vec!["-v".to_string(), "gr\u{fc}n\n\u{1}".to_string()],
                    working_dir: None,
                },
            ),
            message_value(
                7,
                "Request",
                "Command",
                object(vec![(
                    "Launch",
                    object(vec![
                        ("program", serde_json::Value::from("C:\\bin\\a \"b\".exe")),
                        (
                            "args",
                            serde_json::Value::Array(vec![
                                serde_json::Value::from("-v"),
                                serde_json::Value::from("gr\u{fc}n\n\u{1}"),
                            ]),
                        ),
                        ("working_dir", null.clone()),
                    ]),
                )]),
            ),
        ),
        (
            request(u64::MAX, DebugCommand::Continue),
            message_value(u64::MAX, "Request", "Command", serde_json::Value::from("Continue")),
        ),
        (
            request(8, DebugCommand::WriteMemory { address: 16, data: vec![0, 255] }),
            message_value(
                8,
                "Request",
                "Command",
                object(vec![(
                    "WriteMemory",
                    object(vec![
                        ("address", serde_json::Value::from(16u64)),
                        (
                            "data",
                            serde_json::Value::Array(vec![
                                serde_json::Value::from(0u64),
                                serde_json::Value::from(255u64),
                            ]),
                        ),
                    ]),
                )]),
            ),
        ),
        (
            response(3, 2, None, Some("No active debug session")),
            message_value(
                3,
                "Response",
                "Response",
                object(vec![
                    ("request_seq", serde_json::Value::from(2u64)),
                    ("success", serde_json::Value::from(false)),
                    ("message", serde_json::Value::from("No active debug session")),
                    ("body", null.clone()),
                ]),
            ),
        ),
        (
            response(4, 3, Some(ResponseBody::Evaluate("42".to_string())), None),
            message_value(
                4,
                "Response",
                "Response",
                object(vec![
                    ("request_seq", serde_json::Value::from(3u64)),
                    ("success", serde_json::Value::from(true)),
                    ("message", null.clone()),
                    ("body", object(vec![("Evaluate", serde_json::Value::from("42"))])),
                ]),
            ),
        ),
        (
            event(
                5,
                DebugEvent::Stopped {
                    reason: StopReason::Breakpoint { id: 1 },
                    thread_id: 9,
                    frame_id: Some(0),
                },
            ),
            message_value(
                5,
                "Event",
                "Event",
                object(vec![(
                    "Stopped",
                    object(vec![
                        ("reason", object(vec![("Breakpoint", object(vec![("id", serde_json::Value::from(1u64))]))])),
                        ("thread_id", serde_json::Value::from(9u64)),
                        ("frame_id", serde_json::Value::from(0u64)),
                    ]),
                )]),
            ),
        ),
        (
            event(6, DebugEvent::Output { category: OutputCategory::Stderr, message: "a\tb".to_string() }),
            message_value(
                6,
                "Event",
                "Event",
                object(vec![(
                    "Output",
                    object(vec![
                        ("category", serde_json::Value::from("Stderr")),
                        ("message", serde_json::Value::from("a\tb")),
                    ]),
                )]),
            ),
        ),
    ];
    for (message, expected) in cases {
        let bytes = encode_message(&message);
        let theirs: serde_json::Value = serde_json::from_slice(&bytes).expect("serde_json reads the text");
        assert_eq!(theirs, expected);
        // the text has no byte that serde_json's compact form would not write
        assert_eq!(bytes.len(), serde_json::to_vec(&expected).unwrap().len());
    }
}

#[test]
fn decoding_gives_back_every_field() {
    let message = request(
        9,
        DebugCommand::SetBreakpoint {
            file: "dir/x.spp".to_string(),
            line: 3,
            condition: Some("x > \"1\"".to_string()),
            log_message: None,
        },
    );
    match decode_message(&encode_message(&message)).unwrap() {
        ProtocolMessage {
            seq: 9,
            typ: MessageType::Request,
            content: MessageContent::Command(DebugCommand::SetBreakpoint { file, line, condition, log_message }),
        } => {
            assert_eq!(file, "dir/x.spp");
            assert_eq!(line, 3);
            assert_eq!(condition, Some("x > \"1\"".to_string()));
            assert_eq!(log_message, None);
        }
        other => panic!("unexpected: {:?}", other),
    }
    let frames = vec![StackFrame {
        id: 1,
        name: "f".to_string(),
        source: Some(Source { path: "a/b.spp".to_string(), name: "b.spp".to_string() }),
        line: 4,
        column: 0,
        module: None,
    }];
    let message = response(2, 1, Some(ResponseBody::StackTrace(frames)), None);
    match decode_message(&encode_message(&message)).unwrap().content {
        MessageContent::Response { request_seq: 1, success: true, message: None, body: Some(ResponseBody::StackTrace(got)) } => {
            assert_eq!(got.len(), 1);
            assert_eq!((got[0].id, got[0].line, got[0].column), (1, 4, 0));
            assert_eq!(got[0].name, "f");
            assert_eq!(got[0].source.as_ref().map(|s| (s.path.as_str(), s.name.as_str())), Some(("a/b.spp", "b.spp")));
            assert!(got[0].module.is_none());
        }
        other => panic!("unexpected: {:?}", other),
    }
}
