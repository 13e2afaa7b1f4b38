//! The structured form of a message loses nothing: messages with the same
//! form hold the same values in every field.
use crate::debugger::remote::codec::{
    body_json, body_name, body_value, capabilities_json, category_json, command_fields,
    command_has_fields, command_json, command_name, content_json, content_value, event_fields,
    event_json, event_name, frame_json, frames_json, holds, lemma_body_names,
    lemma_event_names, lemma_message_round_trip, lemma_names, lemma_same_form_same_command,
    lemma_same_form_same_header, lemma_same_name_same_command, message_json, message_text,
    numbers, optional_body, optional_source, reason_json, source_json, texts,
    variable_json, variables_json,
};
use crate::debugger::remote::protocol::{
    DebugCommand, DebugEvent, DebuggerCapabilities, MessageContent, ProtocolMessage,
    ResponseBody, Source, StackFrame, StopReason, Variable,
};
use crate::debugger::stack::text_of;
use vstd::prelude::*;

verus! {

/// Whether two lists of strings hold the same texts.
pub open spec fn same_texts(a: Seq<String>, b: Seq<String>) -> bool {
    a.len() == b.len() && forall|i: int| 0 <= i < a.len() ==> (#[trigger] a[i])@ == b[i]@
}

/// Lists of strings with the same form hold the same texts.
pub proof fn lemma_same_texts(a: Seq<String>, b: Seq<String>)
    requires
        texts(a) == texts(b),
    ensures
        same_texts(a, b),
{
    let x = texts(a)->Array_0;
    let y = texts(b)->Array_0;
    assert(x.len() == a.len() && y.len() == b.len());
    assert forall|i: int| 0 <= i < a.len() implies (#[trigger] a[i])@ == b[i]@ by {
        assert(x[i] == y[i]);
    }
}

/// Lists of bytes with the same form are the same.
pub proof fn lemma_same_bytes(a: Seq<u8>, b: Seq<u8>)
    requires
        numbers(a) == numbers(b),
    ensures
        a == b,
{
    let x = numbers(a)->Array_0;
    let y = numbers(b)->Array_0;
    assert(x.len() == a.len() && y.len() == b.len());
    assert forall|i: int| 0 <= i < a.len() implies a[i] == b[i] by {
        assert(x[i] == y[i]);
    }
    assert(a =~= b);
}

/// Whether two commands are of the same variant and hold the same values.
pub open spec fn same_command(a: DebugCommand, b: DebugCommand) -> bool {
    match (a, b) {
        (
            DebugCommand::Launch { program, args, working_dir },
            DebugCommand::Launch { program: p, args: r, working_dir: w },
        ) => program@ == p@ && same_texts(args@, r@) && text_of(working_dir) == text_of(w),
        (DebugCommand::Attach { pid }, DebugCommand::Attach { pid: p }) => pid == p,
        (DebugCommand::Continue, DebugCommand::Continue) => true,
        (DebugCommand::StepInto, DebugCommand::StepInto) => true,
        (DebugCommand::StepOver, DebugCommand::StepOver) => true,
        (DebugCommand::StepOut, DebugCommand::StepOut) => true,
        (DebugCommand::Pause, DebugCommand::Pause) => true,
        (
            DebugCommand::SetBreakpoint { file, line, condition, log_message },
            DebugCommand::SetBreakpoint { file: f, line: l, condition: c, log_message: m },
        ) => file@ == f@ && line == l && text_of(condition) == text_of(c) && text_of(log_message)
            == text_of(m),
        (DebugCommand::RemoveBreakpoint { id }, DebugCommand::RemoveBreakpoint { id: i }) => id
            == i,
        (
            DebugCommand::ReadMemory { address, size },
            DebugCommand::ReadMemory { address: a2, size: s2 },
        ) => address == a2 && size == s2,
        (
            DebugCommand::WriteMemory { address, data },
            DebugCommand::WriteMemory { address: a2, data: d2 },
        ) => address == a2 && data@ == d2@,
        (DebugCommand::GetStackTrace, DebugCommand::GetStackTrace) => true,
        (DebugCommand::GetVariables { frame_id }, DebugCommand::GetVariables { frame_id: f }) => frame_id
            == f,
        (
            DebugCommand::Evaluate { expression, frame_id },
            DebugCommand::Evaluate { expression: e, frame_id: f },
        ) => expression@ == e@ && frame_id == f,
        (
            DebugCommand::SetVariable { frame_id, name, value },
            DebugCommand::SetVariable { frame_id: f, name: n, value: v },
        ) => frame_id == f && name@ == n@ && value@ == v@,
        (DebugCommand::Disconnect, DebugCommand::Disconnect) => true,
        _ => false,
    }
}

/// Commands with the same structured form are of the same variant and
/// hold the same values.
pub proof fn lemma_same_command(a: DebugCommand, b: DebugCommand)
    requires
        command_json(a) == command_json(b),
    ensures
        same_command(a, b),
{
    lemma_same_form_same_command(a, b);
    lemma_same_name_same_command(a, b);
    if command_has_fields(a) {
        assert(command_json(a)->Object_0[0] == command_json(b)->Object_0[0]);
        assert(command_fields(a) == command_fields(b));
        let x = command_fields(a)->Object_0;
        let y = command_fields(b)->Object_0;
        match a {
            DebugCommand::Launch { program, args, working_dir } => {
                assert(x[0] == y[0] && x[1] == y[1] && x[2] == y[2]);
                lemma_same_texts(args@, b->Launch_args@);
            },
            DebugCommand::SetBreakpoint { file, line, condition, log_message } => {
                assert(x[0] == y[0] && x[1] == y[1] && x[2] == y[2] && x[3] == y[3]);
            },
            DebugCommand::WriteMemory { address, data } => {
                assert(x[0] == y[0] && x[1] == y[1]);
                lemma_same_bytes(data@, b->WriteMemory_data@);
            },
            DebugCommand::ReadMemory { address, size } => {
                assert(x[0] == y[0] && x[1] == y[1]);
            },
            DebugCommand::Evaluate { expression, frame_id } => {
                assert(x[0] == y[0] && x[1] == y[1]);
            },
            DebugCommand::SetVariable { frame_id, name, value } => {
                assert(x[0] == y[0] && x[1] == y[1] && x[2] == y[2]);
            },
            _ => {
                assert(x[0] == y[0]);
            },
        }
    }
}

/// Whether two reasons of a stop are the same.
pub open spec fn same_reason(a: StopReason, b: StopReason) -> bool {
    match (a, b) {
        (StopReason::Breakpoint { id }, StopReason::Breakpoint { id: i }) => id == i,
        (StopReason::Step, StopReason::Step) => true,
        (StopReason::Pause, StopReason::Pause) => true,
        (
            StopReason::Exception { description },
            StopReason::Exception { description: d },
        ) => description@ == d@,
        (StopReason::Entry, StopReason::Entry) => true,
        _ => false,
    }
}

/// Reasons of a stop with the same structured form are the same.
pub proof fn lemma_same_reason(a: StopReason, b: StopReason)
    requires
        reason_json(a) == reason_json(b),
    ensures
        same_reason(a, b),
{
    lemma_names();
    match a {
        StopReason::Breakpoint { id } => {
            assert(reason_json(a)->Object_0[0] == reason_json(b)->Object_0[0]);
            assert(reason_json(a)->Object_0[0].1->Object_0[0] == reason_json(
                b,
            )->Object_0[0].1->Object_0[0]);
        },
        StopReason::Exception { description } => {
            assert(reason_json(a)->Object_0[0] == reason_json(b)->Object_0[0]);
            assert(reason_json(a)->Object_0[0].1->Object_0[0] == reason_json(
                b,
            )->Object_0[0].1->Object_0[0]);
        },
        _ => {},
    }
}

/// Whether two events are of the same variant and hold the same values.
pub open spec fn same_event(a: DebugEvent, b: DebugEvent) -> bool {
    match (a, b) {
        (DebugEvent::Started { pid }, DebugEvent::Started { pid: p }) => pid == p,
        (
            DebugEvent::Stopped { reason, thread_id, frame_id },
            DebugEvent::Stopped { reason: r, thread_id: t, frame_id: f },
        ) => same_reason(reason, r) && thread_id == t && frame_id == f,
        (
            DebugEvent::Breakpoint { id, verified, message },
            DebugEvent::Breakpoint { id: i, verified: v, message: m },
        ) => id == i && verified == v && text_of(message) == text_of(m),
        (
            DebugEvent::Output { category, message },
            DebugEvent::Output { category: c, message: m },
        ) => category == c && message@ == m@,
        (DebugEvent::ThreadCreated { thread_id }, DebugEvent::ThreadCreated { thread_id: t }) => thread_id
            == t,
        (DebugEvent::ThreadExited { thread_id }, DebugEvent::ThreadExited { thread_id: t }) => thread_id
            == t,
        (
            DebugEvent::ModuleLoaded { name, path },
            DebugEvent::ModuleLoaded { name: n, path: p },
        ) => name@ == n@ && path@ == p@,
        (DebugEvent::Error { message }, DebugEvent::Error { message: m }) => message@ == m@,
        _ => false,
    }
}

/// Events with the same name are of the same variant.
pub proof fn lemma_same_name_same_event(a: DebugEvent, b: DebugEvent)
    requires
        event_name(a) == event_name(b),
    ensures
        a is Started <==> b is Started,
        a is Stopped <==> b is Stopped,
        a is Breakpoint <==> b is Breakpoint,
        a is Output <==> b is Output,
        a is ThreadCreated <==> b is ThreadCreated,
        a is ThreadExited <==> b is ThreadExited,
        a is ModuleLoaded <==> b is ModuleLoaded,
        a is Error <==> b is Error,
{
    lemma_event_names();
    let x = event_name(a);
    let y = event_name(b);
    assert(x.len() == y.len());
    assert(x[0] == y[0]);
    assert(x[2] == y[2]);
}

/// Events with the same structured form are of the same variant and hold
/// the same values.
pub proof fn lemma_same_event(a: DebugEvent, b: DebugEvent)
    requires
        event_json(a) == event_json(b),
    ensures
        same_event(a, b),
{
    assert(event_json(a)->Object_0[0] == event_json(b)->Object_0[0]);
    lemma_same_name_same_event(a, b);
    assert(event_fields(a) == event_fields(b));
    let x = event_fields(a)->Object_0;
    let y = event_fields(b)->Object_0;
    match a {
        DebugEvent::Stopped { reason, thread_id, frame_id } => {
            assert(x[0] == y[0] && x[1] == y[1] && x[2] == y[2]);
            lemma_same_reason(reason, b->Stopped_reason);
        },
        DebugEvent::Breakpoint { id, verified, message } => {
            assert(x[0] == y[0] && x[1] == y[1] && x[2] == y[2]);
        },
        DebugEvent::Output { category, message } => {
            assert(x[0] == y[0] && x[1] == y[1]);
            lemma_names();
            assert(category_json(category) == category_json(b->Output_category));
        },
        DebugEvent::ModuleLoaded { name, path } => {
            assert(x[0] == y[0] && x[1] == y[1]);
        },
        _ => {
            assert(x[0] == y[0]);
        },
    }
}

/// Whether two optional source files are the same.
pub open spec fn same_source(a: Option<Source>, b: Option<Source>) -> bool {
    match (a, b) {
        (Some(s), Some(t)) => s.path@ == t.path@ && s.name@ == t.name@,
        (None, None) => true,
        _ => false,
    }
}

/// Whether two frames hold the same values.
pub open spec fn same_frame(a: StackFrame, b: StackFrame) -> bool {
    &&& a.id == b.id
    &&& a.name@ == b.name@
    &&& same_source(a.source, b.source)
    &&& a.line == b.line
    &&& a.column == b.column
    &&& text_of(a.module) == text_of(b.module)
}

/// Frames with the same structured form hold the same values.
pub proof fn lemma_same_frame(a: StackFrame, b: StackFrame)
    requires
        frame_json(a) == frame_json(b),
    ensures
        same_frame(a, b),
{
    let x = frame_json(a)->Object_0;
    let y = frame_json(b)->Object_0;
    assert(x[0] == y[0] && x[1] == y[1] && x[2] == y[2]);
    assert(x[3] == y[3] && x[4] == y[4] && x[5] == y[5]);
    assert(optional_source(a.source) == optional_source(b.source));
    if a.source is Some {
        let s = source_json(a.source->0)->Object_0;
        let t = source_json(b.source->0)->Object_0;
        assert(s[0] == t[0] && s[1] == t[1]);
    }
}

/// Whether two variables hold the same values.
pub open spec fn same_variable(a: Variable, b: Variable) -> bool {
    &&& a.name@ == b.name@
    &&& a.value@ == b.value@
    &&& a.type_label@ == b.type_label@
    &&& a.variables_reference == b.variables_reference
}

/// Variables with the same structured form hold the same values.
pub proof fn lemma_same_variable(a: Variable, b: Variable)
    requires
        variable_json(a) == variable_json(b),
    ensures
        same_variable(a, b),
{
    let x = variable_json(a)->Object_0;
    let y = variable_json(b)->Object_0;
    assert(x[0] == y[0] && x[1] == y[1] && x[2] == y[2] && x[3] == y[3]);
}

/// Whether two results are of the same variant and hold the same values.
pub open spec fn same_body(a: ResponseBody, b: ResponseBody) -> bool {
    match (a, b) {
        (ResponseBody::StackTrace(f), ResponseBody::StackTrace(g)) => f@.len() == g@.len()
            && forall|i: int| 0 <= i < f@.len() ==> same_frame(#[trigger] f@[i], g@[i]),
        (ResponseBody::Variables(v), ResponseBody::Variables(w)) => v@.len() == w@.len()
            && forall|i: int| 0 <= i < v@.len() ==> same_variable(#[trigger] v@[i], w@[i]),
        (ResponseBody::Memory(m), ResponseBody::Memory(n)) => m@ == n@,
        (ResponseBody::Evaluate(t), ResponseBody::Evaluate(u)) => t@ == u@,
        (ResponseBody::Capabilities(c), ResponseBody::Capabilities(d)) => c == d,
        _ => false,
    }
}

/// Capabilities with the same structured form are the same.
pub proof fn lemma_same_capabilities(a: DebuggerCapabilities, b: DebuggerCapabilities)
    requires
        capabilities_json(a) == capabilities_json(b),
    ensures
        a == b,
{
    let x = capabilities_json(a)->Object_0;
    let y = capabilities_json(b)->Object_0;
    assert(x[0] == y[0] && x[1] == y[1] && x[2] == y[2] && x[3] == y[3]);
    assert(x[4] == y[4] && x[5] == y[5] && x[6] == y[6] && x[7] == y[7]);
    assert(x[8] == y[8] && x[9] == y[9] && x[10] == y[10]);
}

/// Results with the same structured form are of the same variant and hold
/// the same values.
pub proof fn lemma_same_body(a: ResponseBody, b: ResponseBody)
    requires
        body_json(a) == body_json(b),
    ensures
        same_body(a, b),
{
    lemma_body_names();
    assert(body_json(a)->Object_0[0] == body_json(b)->Object_0[0]);
    assert(body_name(a) == body_name(b));
    assert(body_value(a) == body_value(b));
    match a {
        ResponseBody::StackTrace(f) => {
            let g = b->StackTrace_0;
            let x = frames_json(f@)->Array_0;
            let y = frames_json(g@)->Array_0;
            assert(x.len() == f@.len() && y.len() == g@.len());
            assert forall|i: int| 0 <= i < f@.len() implies same_frame(#[trigger] f@[i], g@[i]) by {
                assert(x[i] == y[i]);
                lemma_same_frame(f@[i], g@[i]);
            }
        },
        ResponseBody::Variables(v) => {
            let w = b->Variables_0;
            let x = variables_json(v@)->Array_0;
            let y = variables_json(w@)->Array_0;
            assert(x.len() == v@.len() && y.len() == w@.len());
            assert forall|i: int| 0 <= i < v@.len() implies same_variable(
                #[trigger] v@[i],
                w@[i],
            ) by {
                assert(x[i] == y[i]);
                lemma_same_variable(v@[i], w@[i]);
            }
        },
        ResponseBody::Memory(m) => {
            lemma_same_bytes(m@, b->Memory_0@);
        },
        ResponseBody::Evaluate(t) => {},
        ResponseBody::Capabilities(c) => {
            lemma_same_capabilities(c, b->Capabilities_0);
        },
    }
}

/// Whether two messages carry the same thing.
pub open spec fn same_content(a: MessageContent, b: MessageContent) -> bool {
    match (a, b) {
        (MessageContent::Command(c), MessageContent::Command(d)) => same_command(c, d),
        (MessageContent::Event(e), MessageContent::Event(f)) => same_event(e, f),
        (
            MessageContent::Response { request_seq, success, message, body },
            MessageContent::Response { request_seq: r, success: s, message: m, body: b2 },
        ) => request_seq == r && success == s && text_of(message) == text_of(m) && match (
            body,
            b2,
        ) {
            (Some(x), Some(y)) => same_body(x, y),
            (None, None) => true,
            _ => false,
        },
        _ => false,
    }
}

/// Whether two messages have the same sequence number, are of the same
/// kind and carry the same thing.
pub open spec fn same_message(a: ProtocolMessage, b: ProtocolMessage) -> bool {
    a.seq == b.seq && a.typ == b.typ && same_content(a.content, b.content)
}

/// What messages carry is the same where its structured form is.
pub proof fn lemma_same_content(a: MessageContent, b: MessageContent)
    requires
        content_json(a) == content_json(b),
    ensures
        same_content(a, b),
{
    lemma_body_names();
    assert(content_json(a)->Object_0[0] == content_json(b)->Object_0[0]);
    assert(content_value(a) == content_value(b));
    match a {
        MessageContent::Command(c) => {
            lemma_same_command(c, b->Command_0);
        },
        MessageContent::Event(e) => {
            lemma_same_event(e, b->Event_0);
        },
        MessageContent::Response { request_seq, success, message, body } => {
            let x = content_value(a)->Object_0;
            let y = content_value(b)->Object_0;
            assert(x[0] == y[0] && x[1] == y[1] && x[2] == y[2] && x[3] == y[3]);
            assert(optional_body(body) == optional_body(b->body));
            if body is Some {
                lemma_same_body(body->0, b->body->0);
            }
        },
    }
}

/// Messages with the same structured form have the same sequence number,
/// are of the same kind and carry the same values in every field.
pub proof fn lemma_same_form_same_message(a: ProtocolMessage, b: ProtocolMessage)
    requires
        message_json(a) == message_json(b),
    ensures
        same_message(a, b),
{
    lemma_same_form_same_header(a, b);
    lemma_same_content(a.content, b.content);
}

/// Encoding and then decoding loses nothing: a message that the text of
/// `m` holds has the values of `m` in every field.
pub proof fn lemma_round_trip_is_lossless(m: ProtocolMessage, decoded: ProtocolMessage)
    requires
        holds(message_text(m), decoded),
    ensures
        same_message(decoded, m),
{
    lemma_message_round_trip(m);
    lemma_same_form_same_message(decoded, m);
}

} // verus!
