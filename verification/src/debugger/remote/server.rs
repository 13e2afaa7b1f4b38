//! The serving end: every request is answered by one response that names
//! it, and events are sent with sequence numbers of their own.  A command
//! is carried out by the operation of the session that it names, with
//! what the operating system gave for the work that it needs.
use crate::debugger::remote::codec::{
    command_name, frame_size, holds_message, lemma_same_form_same_content,
    lemma_same_form_same_header, message_json, message_text, pack_message, unpack_message,
    Unpacked,
};
use crate::debugger::remote::size::{lemma_short_response_fits, FAILURE_TEXT_LIMIT};
use crate::debugger::remote::framing::{announced, framed};
use crate::debugger::remote::protocol::{
    DebugCommand, DebugEvent, DebuggerCapabilities, MessageContent, MessageType, ProtocolError,
    ProtocolMessage, ResponseBody, Source, StackFrame,
};
use crate::debugger::breakpoint::{added, removed, restoring, BreakpointError};
use crate::debugger::evaluator::{text_value, EvalError};
use crate::debugger::memory::MemoryError;
use crate::debugger::process::{
    run_on, DebuggedProcess, ProcessError, ProcessState, ResumeAction,
};
use crate::debugger::stack::{frame_views, text_of, unwound, WalkedFrame};
use crate::debugger::symbols::{built, DebugEntry};
use crate::debugger::{kind_of, Debugger, DebuggerError};
use crate::text::{chars_of, signed_decimal_text, string_from_chars};
use vstd::prelude::*;

verus! {

/// What this debugger can do.
pub open spec fn capabilities() -> DebuggerCapabilities {
    DebuggerCapabilities {
        supports_step_back: false,
        supports_restart_frame: false,
        supports_goto_targets: false,
        supports_evaluate_for_hovers: true,
        supports_conditional_breakpoints: true,
        supports_log_points: true,
        supports_set_variable: true,
        supports_completions: true,
        supports_modules: true,
        supports_memory_references: true,
        supports_value_formatting: true,
    }
}

/// The sequence number after `seq`; after the largest it starts again
/// at 0.
pub open spec fn following(seq: u64) -> u64 {
    if seq < u64::MAX {
        (seq + 1) as u64
    } else {
        0
    }
}

/// The serving end of one connection.
pub struct DebugServer {
    /// The sequence number of the last message sent.
    pub sequence: u64,
    /// Whether a debuggee has been launched.
    pub session_active: bool,
}

/// What the operating system gave for the work that a command needs.
/// The caller reads the command, does that work, and hands in the
/// outcome with the command.
pub enum Observation {
    /// Nothing was asked of the operating system.
    Nothing,
    /// For a launch: the ids of the process and its thread, `None` where
    /// the program could not be started; the handles of both; the
    /// debugging entries of the binary, `None` where it could not be
    /// opened.
    Launched {
        spawned: Option<(u32, u32)>,
        process_handle: isize,
        thread_handle: isize,
        entries: Option<Vec<DebugEntry>>,
    },
    /// Whether the operating system carried out what was planned: letting
    /// the debuggee run on, or writing the saved byte of a breakpoint
    /// back.
    Done(bool),
    /// For a breakpoint: the byte that was read at its address and
    /// replaced by the trap instruction, or the error of the read or of
    /// the write.
    Byte(Result<u8, MemoryError>),
    /// The bytes that a read transferred.
    Bytes(Vec<u8>),
    /// The number of bytes that a write transferred.
    Count(usize),
    /// The register context of the thread, `None` where it could not be
    /// read, and the frames that the stack walker reported after it.
    Stack { context: Option<WalkedFrame>, walked: Vec<WalkedFrame> },
    /// The variables in scope with their values.
    Variables(Vec<(String, i64)>),
}

/// Why a command failed.
pub enum CommandFailure {
    /// A stack trace was asked for before a launch.
    NoActiveSession,
    /// The command is not served.
    NotImplemented,
    /// What the operating system gave is not what the command needs.
    Unobserved,
    /// The session could not do what was asked.
    Session(DebuggerError),
    /// The expression has no value.
    Evaluation(EvalError),
    /// The text of the response does not fit a frame.
    TooLarge,
}

/// The message with which a failed command is answered.
pub open spec fn failure_words(failure: CommandFailure) -> Seq<char> {
    match failure {
        CommandFailure::NoActiveSession => "No active debug session"@,
        CommandFailure::NotImplemented => "Command not implemented"@,
        CommandFailure::Unobserved => "The command could not be carried out"@,
        CommandFailure::Session(e) => failure_message(e),
        CommandFailure::Evaluation(_) => "Failed to evaluate expression"@,
        CommandFailure::TooLarge => "Response too large"@,
    }
}

impl CommandFailure {
    /// The text of the failure.
    pub fn message(&self) -> (text: String)
        ensures
            text@ == failure_words(*self),
    {
        match self {
            CommandFailure::NoActiveSession => "No active debug session".to_owned(),
            CommandFailure::NotImplemented => "Command not implemented".to_owned(),
            CommandFailure::Unobserved => "The command could not be carried out".to_owned(),
            CommandFailure::Session(e) => failure_text(e),
            CommandFailure::Evaluation(_) => "Failed to evaluate expression".to_owned(),
            CommandFailure::TooLarge => "Response too large".to_owned(),
        }
    }
}

/// No message of a failure is longer than the limit for short responses.
pub proof fn lemma_failure_words_short(failure: CommandFailure)
    ensures
        failure_words(failure).len() <= FAILURE_TEXT_LIMIT,
{
    reveal_strlit("No active debug session");
    reveal_strlit("Command not implemented");
    reveal_strlit("The command could not be carried out");
    reveal_strlit("Failed to evaluate expression");
    reveal_strlit("Response too large");
    reveal_strlit("No active process");
    reveal_strlit("Failed to continue process");
    reveal_strlit("The process failed");
    reveal_strlit("Failed to access memory");
    reveal_strlit("Failed to read memory");
    reveal_strlit("A breakpoint is set at the address already");
    reveal_strlit("Failed to write breakpoint");
    reveal_strlit("No breakpoint id is left");
    reveal_strlit("Breakpoint not found");
    reveal_strlit("Failed to set memory protection");
    reveal_strlit("Could not find address for breakpoint location");
    reveal_strlit("The address of the location is out of range");
}

/// What a command is answered with: a result, or nothing, on success.
pub type Outcome = Result<Option<ResponseBody>, CommandFailure>;

/// Whether `response` answers the request `request_seq`, as the message
/// with the number `seq`: a success carries the result, where there is
/// one, and no message; a failure carries the message and no result.
pub open spec fn responds(
    response: ProtocolMessage,
    seq: u64,
    request_seq: u64,
    outcome: Outcome,
) -> bool {
    &&& response.seq == seq
    &&& response.typ == MessageType::Response
    &&& response.content is Response
    &&& response.content->request_seq == request_seq
    &&& match outcome {
        Ok(body) => response.content->success && response.content->message is None
            && response.content->body == body,
        Err(e) => !response.content->success && response.content->body is None
            && response.content->message is Some && response.content->message->0@
            == failure_words(e),
    }
}

/// Nothing has changed, and nothing is reported.
pub open spec fn untouched(before: Debugger, after: Debugger, event: Option<DebugEvent>) -> bool {
    after == before && event is None
}

/// What serving a launch does.  Where the program could not be started
/// or its binary not be opened, the launch fails and nothing changes.
/// Else the session is bound to the debuggee, which runs; the answer is
/// what this debugger can do, and the start is reported.
pub open spec fn serves_launch(
    before: Debugger,
    after: Debugger,
    spawned: Option<(u32, u32)>,
    process_handle: isize,
    thread_handle: isize,
    entries: Option<Vec<DebugEntry>>,
    outcome: Outcome,
    event: Option<DebugEvent>,
) -> bool {
    if spawned is None || entries is None {
        outcome == Err::<Option<ResponseBody>, CommandFailure>(
            CommandFailure::Session(DebuggerError::Process(ProcessError::LaunchFailed)),
        ) && untouched(before, after, event)
    } else {
        &&& outcome == Ok::<Option<ResponseBody>, CommandFailure>(
            Some(ResponseBody::Capabilities(capabilities())),
        )
        &&& event == Some(DebugEvent::Started { pid: (spawned->0).0 })
        &&& after.process == Some(
            DebuggedProcess {
                pid: (spawned->0).0,
                thread_id: (spawned->0).1,
                state: ProcessState::Running,
            },
        )
        &&& after.debug_symbols is Some
        &&& after.debug_symbols->0.table() == built(entries->0@)
        &&& after.breakpoint_manager == before.breakpoint_manager
        &&& after.watchpoint_manager.watchpoints@.len() == 0
        &&& after.watchpoint_manager.process_handle == process_handle
        &&& after.memory_inspector.process_handle == process_handle
        &&& after.stack_unwinder.process_handle == process_handle
        &&& after.stack_unwinder.thread_handle == thread_handle
    }
}

/// What a request to run on gives, in a session.
pub open spec fn resume_result(before: Debugger, wanted: ResumeAction, done: bool) -> Result<
    ResumeAction,
    ProcessError,
> {
    match before.process {
        None => Err(ProcessError::NoActiveProcess),
        Some(p) => run_on(p.state, wanted, done).1,
    }
}

/// What serving a request to run on does: what `Debugger::resumes` says,
/// given whether the operating system carried the resume out.
pub open spec fn serves_resume(
    before: Debugger,
    after: Debugger,
    wanted: ResumeAction,
    done: bool,
    outcome: Outcome,
    event: Option<DebugEvent>,
) -> bool {
    &&& event is None
    &&& Debugger::resumes(before, after, wanted, done, resume_result(before, wanted, done))
    &&& outcome == match resume_result(before, wanted, done) {
        Ok(_) => Ok::<Option<ResponseBody>, CommandFailure>(None),
        Err(e) => Err(CommandFailure::Session(DebuggerError::Process(e))),
    }
}

/// What serving the setting of a breakpoint does: what
/// `Debugger::set_breakpoint` says.  The outcome is reported by an event
/// in either case.
pub open spec fn serves_set_breakpoint(
    before: Debugger,
    after: Debugger,
    file: String,
    line: u32,
    kind: crate::debugger::breakpoint::BreakpointType,
    original: Result<u8, MemoryError>,
    outcome: Outcome,
    event: Option<DebugEvent>,
) -> bool {
    &&& after.process == before.process
    &&& after.debug_symbols == before.debug_symbols
    &&& after.watchpoint_manager == before.watchpoint_manager
    &&& event is Some
    &&& match before.location_address(file@, line) {
        Err(e) => outcome == Err::<Option<ResponseBody>, CommandFailure>(
            CommandFailure::Session(e),
        ) && reports(event->0, Err(e)) && after.breakpoint_manager == before.breakpoint_manager,
        Ok(address) => exists|r: Result<usize, BreakpointError>|
            #![trigger added(before.breakpoint_manager, after.breakpoint_manager, address, line, file, kind, original, r)]
            added(
                before.breakpoint_manager,
                after.breakpoint_manager,
                address,
                line,
                file,
                kind,
                original,
                r,
            ) && reports(
                event->0,
                match r {
                    Ok(set) => Ok(set),
                    Err(e) => Err(DebuggerError::Breakpoint(e)),
                },
            ) && outcome == match r {
                Ok(_) => Ok::<Option<ResponseBody>, CommandFailure>(None),
                Err(e) => Err(CommandFailure::Session(DebuggerError::Breakpoint(e))),
            },
    }
}

/// What removing the breakpoint `id` gives, given whether its saved byte
/// could be written back.
pub open spec fn removal_result(before: Debugger, id: usize, restored: bool) -> Result<
    crate::debugger::breakpoint::MemoryPatch,
    BreakpointError,
> {
    match restoring(before.breakpoint_manager.breakpoints@, id) {
        None => Err(BreakpointError::UnknownId),
        Some(patch) => if restored {
            Ok(patch)
        } else {
            Err(BreakpointError::AddressUnwritable)
        },
    }
}

/// What serving the removal of a breakpoint does: what
/// `BreakpointManager::remove_breakpoint` says.
pub open spec fn serves_remove_breakpoint(
    before: Debugger,
    after: Debugger,
    id: usize,
    restored: bool,
    outcome: Outcome,
    event: Option<DebugEvent>,
) -> bool {
    &&& event is None
    &&& after.process == before.process
    &&& after.debug_symbols == before.debug_symbols
    &&& after.watchpoint_manager == before.watchpoint_manager
    &&& after.breakpoint_manager.next_id == before.breakpoint_manager.next_id
    &&& removed(
        before.breakpoint_manager.breakpoints@,
        after.breakpoint_manager.breakpoints@,
        id,
        restored,
        removal_result(before, id, restored),
    )
    &&& outcome == match removal_result(before, id, restored) {
        Ok(_) => Ok::<Option<ResponseBody>, CommandFailure>(None),
        Err(e) => Err(CommandFailure::Session(DebuggerError::Breakpoint(e))),
    }
}

/// What serving a read of memory gives: the first `size` bytes of those
/// that were transferred, or an error where fewer were.
pub open spec fn serves_read(
    before: Debugger,
    address: usize,
    size: usize,
    transferred: Seq<u8>,
    outcome: Outcome,
) -> bool {
    if before.process is None {
        outcome == Err::<Option<ResponseBody>, CommandFailure>(
            CommandFailure::Session(DebuggerError::Process(ProcessError::NoActiveProcess)),
        )
    } else if transferred.len() < size {
        outcome == Err::<Option<ResponseBody>, CommandFailure>(
            CommandFailure::Session(DebuggerError::Memory(MemoryError::ReadError { address })),
        )
    } else {
        outcome matches Ok(Some(ResponseBody::Memory(bytes))) && bytes@ == transferred.take(
            size as int,
        )
    }
}

/// What serving a write of memory gives: an error where fewer bytes were
/// transferred than were to be written.
pub open spec fn serves_write(
    before: Debugger,
    address: usize,
    data: Seq<u8>,
    written: usize,
    outcome: Outcome,
) -> bool {
    outcome == if before.process is None {
        Err::<Option<ResponseBody>, CommandFailure>(
            CommandFailure::Session(DebuggerError::Process(ProcessError::NoActiveProcess)),
        )
    } else if written < data.len() {
        Err(CommandFailure::Session(DebuggerError::Memory(MemoryError::WriteError { address })))
    } else {
        Ok(None)
    }
}

/// Whether `list` shows the frames `frames`, numbered from 0 in their
/// order.
pub open spec fn traces(list: Seq<StackFrame>, frames: Seq<crate::debugger::stack::StackFrame>) -> bool {
    list.len() == frames.len() && forall|i: int|
        0 <= i < list.len() ==> shows(#[trigger] list[i], i, frames[i])
}

/// What serving a stack trace gives: the frames of the unwind, as the
/// front end shows them.  Before a launch there is no session to ask.
pub open spec fn serves_stack(
    before: Debugger,
    context: Option<WalkedFrame>,
    walked: Seq<WalkedFrame>,
    outcome: Outcome,
) -> bool {
    if before.process is None {
        outcome == Err::<Option<ResponseBody>, CommandFailure>(CommandFailure::NoActiveSession)
    } else {
        outcome matches Ok(Some(ResponseBody::StackTrace(list))) && exists|
            frames: Vec<crate::debugger::stack::StackFrame>,
        |
            #![trigger frame_views(frames@)]
            frame_views(frames@) == unwound(context, walked) && traces(list@, frames@)
    }
}

/// What serving an evaluation gives: the value of the expression in
/// decimal, or the reason why it has none.
pub open spec fn serves_evaluate(
    expression: Seq<char>,
    variables: Seq<(String, i64)>,
    outcome: Outcome,
) -> bool {
    match text_value(expression, variables) {
        Ok(v) => outcome matches Ok(Some(ResponseBody::Evaluate(text))) && text@
            == signed_decimal_text(v as int),
        Err(e) => outcome == Err::<Option<ResponseBody>, CommandFailure>(
            CommandFailure::Evaluation(e),
        ),
    }
}

/// What the operating system gave is not what the command needs: the
/// command fails and nothing changes.
pub open spec fn unobserved(
    before: Debugger,
    after: Debugger,
    outcome: Outcome,
    event: Option<DebugEvent>,
) -> bool {
    outcome == Err::<Option<ResponseBody>, CommandFailure>(CommandFailure::Unobserved)
        && untouched(before, after, event)
}

/// What serving a command does to the session, what it is answered with,
/// and what is reported.  Each command is carried out by the operation of
/// the session that it names, with what the operating system gave for
/// it.  A disconnect succeeds and changes nothing.  Attaching, stepping
/// out, pausing and the variables of a frame are not served.
pub open spec fn serves(
    before: Debugger,
    after: Debugger,
    command: DebugCommand,
    observed: Observation,
    outcome: Outcome,
    event: Option<DebugEvent>,
) -> bool {
    match command {
        DebugCommand::Launch { .. } => match observed {
            Observation::Launched {
                spawned,
                process_handle,
                thread_handle,
                entries,
            } => serves_launch(
                before,
                after,
                spawned,
                process_handle,
                thread_handle,
                entries,
                outcome,
                event,
            ),
            _ => unobserved(before, after, outcome, event),
        },
        DebugCommand::Continue => match observed {
            Observation::Done(done) => serves_resume(
                before,
                after,
                ResumeAction::Continue,
                done,
                outcome,
                event,
            ),
            _ => unobserved(before, after, outcome, event),
        },
        DebugCommand::StepInto => match observed {
            Observation::Done(done) => serves_resume(
                before,
                after,
                ResumeAction::SingleStep,
                done,
                outcome,
                event,
            ),
            _ => unobserved(before, after, outcome, event),
        },
        DebugCommand::StepOver => match observed {
            Observation::Done(done) => serves_resume(
                before,
                after,
                ResumeAction::SingleStep,
                done,
                outcome,
                event,
            ),
            _ => unobserved(before, after, outcome, event),
        },
        DebugCommand::SetBreakpoint { file, line, condition, log_message } => match observed {
            Observation::Byte(original) => serves_set_breakpoint(
                before,
                after,
                file,
                line,
                kind_of(condition, log_message),
                original,
                outcome,
                event,
            ),
            _ => unobserved(before, after, outcome, event),
        },
        DebugCommand::RemoveBreakpoint { id } => match observed {
            Observation::Done(restored) => serves_remove_breakpoint(
                before,
                after,
                id,
                restored,
                outcome,
                event,
            ),
            _ => unobserved(before, after, outcome, event),
        },
        DebugCommand::ReadMemory { address, size } => match observed {
            Observation::Bytes(transferred) => serves_read(
                before,
                address,
                size,
                transferred@,
                outcome,
            ) && untouched(before, after, event),
            _ => unobserved(before, after, outcome, event),
        },
        DebugCommand::WriteMemory { address, data } => match observed {
            Observation::Count(written) => serves_write(before, address, data@, written, outcome)
                && untouched(before, after, event),
            _ => unobserved(before, after, outcome, event),
        },
        DebugCommand::GetStackTrace => match observed {
            Observation::Stack { context, walked } => serves_stack(
                before,
                context,
                walked@,
                outcome,
            ) && untouched(before, after, event),
            _ => unobserved(before, after, outcome, event),
        },
        DebugCommand::Evaluate { expression, frame_id } => match observed {
            Observation::Variables(variables) => serves_evaluate(
                expression@,
                variables@,
                outcome,
            ) && untouched(before, after, event),
            _ => unobserved(before, after, outcome, event),
        },
        DebugCommand::Disconnect => outcome == Ok::<Option<ResponseBody>, CommandFailure>(None)
            && untouched(before, after, event),
        _ => outcome == Err::<Option<ResponseBody>, CommandFailure>(
            CommandFailure::NotImplemented,
        ) && untouched(before, after, event),
    }
}

/// What answering a message does to the server and to the session, and
/// what it returns.  A request gets a response with the next sequence
/// number of the server, which names the sequence number of the request
/// and carries what the command was served with: the result of a
/// success, or the message of a failure.  Any other message is of an
/// unexpected kind and changes nothing.
pub open spec fn answered(
    before: DebugServer,
    after: DebugServer,
    session_before: Debugger,
    session_after: Debugger,
    message: ProtocolMessage,
    observed: Observation,
    r: Result<ProtocolMessage, ProtocolError>,
    event: Option<DebugEvent>,
) -> bool {
    match message.content {
        MessageContent::Command(command) => {
            &&& r is Ok
            &&& after.sequence == following(before.sequence)
            &&& after.session_active == session_after.process is Some
            &&& exists|outcome: Outcome|
                #![trigger serves(session_before, session_after, command, observed, outcome, event)]
                serves(session_before, session_after, command, observed, outcome, event)
                    && responds(r->Ok_0, following(before.sequence), message.seq, outcome)
        },
        _ => r == Err::<ProtocolMessage, ProtocolError>(ProtocolError::UnexpectedMessageType)
            && after == before && untouched(session_before, session_after, event),
    }
}

/// A response that answers a request names the sequence number of every
/// message of the same structured form, and that message is a request
/// with a command of the same variant: whichever message a frame is taken
/// to hold, the response correlates with it.
pub proof fn lemma_answer_names_request(
    before: DebugServer,
    after: DebugServer,
    session_before: Debugger,
    session_after: Debugger,
    request: ProtocolMessage,
    other: ProtocolMessage,
    observed: Observation,
    response: ProtocolMessage,
    event: Option<DebugEvent>,
)
    requires
        request.content is Command,
        message_json(request) == message_json(other),
        answered(
            before,
            after,
            session_before,
            session_after,
            request,
            observed,
            Ok(response),
            event,
        ),
    ensures
        other.content is Command,
        command_name(other.content->Command_0) == command_name(request.content->Command_0),
        response.typ == MessageType::Response,
        response.seq == following(before.sequence),
        response.content is Response,
        response.content->request_seq == other.seq,
{
    lemma_same_form_same_header(request, other);
    lemma_same_form_same_content(request, other);
}

/// Whether `fallback` tells the request that `response` answers that the
/// response is too large: it has the sequence number of the response
/// and names the same request.
pub open spec fn declines(fallback: ProtocolMessage, response: ProtocolMessage) -> bool {
    responds(
        fallback,
        response.seq,
        response.content->request_seq,
        Err(CommandFailure::TooLarge),
    )
}

/// Whether `frame` is what is sent for `response`: its frame, or, where
/// its text does not fit a frame, the frame of a failed response that
/// says so.
pub open spec fn sent(response: ProtocolMessage, frame: Seq<u8>) -> bool {
    if message_text(response).len() <= u32::MAX {
        frame == framed(message_text(response))
    } else {
        exists|fallback: ProtocolMessage|
            #![trigger declines(fallback, response)]
            declines(fallback, response) && frame == framed(message_text(fallback))
    }
}

/// The text of a failed response fits a frame.
pub proof fn lemma_failure_fits(
    response: ProtocolMessage,
    seq: u64,
    request_seq: u64,
    failure: CommandFailure,
)
    requires
        responds(response, seq, request_seq, Err(failure)),
    ensures
        message_text(response).len() <= u32::MAX,
{
    lemma_failure_words_short(failure);
    lemma_short_response_fits(response);
}

/// What serving the bytes of a connection gave.
pub enum Served {
    /// No whole frame yet: at least `missing` more bytes are needed.
    Incomplete { missing: usize },
    /// The frame of the response to the request that took up `consumed`
    /// bytes, and the event that is to be sent after it.
    Reply { frame: Vec<u8>, consumed: usize, event: Option<DebugEvent> },
    /// The connection is to be closed.
    Closed { error: ProtocolError },
}

/// Serves a launch.
fn launch_outcome(
    debugger: &mut Debugger,
    spawned: Option<(u32, u32)>,
    process_handle: isize,
    thread_handle: isize,
    entries: Option<Vec<DebugEntry>>,
) -> (r: (Outcome, Option<DebugEvent>))
    requires
        old(debugger).wf(),
    ensures
        final(debugger).wf(),
        serves_launch(
            *old(debugger),
            *final(debugger),
            spawned,
            process_handle,
            thread_handle,
            entries,
            r.0,
            r.1,
        ),
{
    let launched = match &entries {
        Some(list) => debugger.launch(spawned, process_handle, thread_handle, Some(list)),
        None => debugger.launch(spawned, process_handle, thread_handle, None),
    };
    match launched {
        Ok(_) => {
            let pid = match spawned {
                Some(ids) => ids.0,
                None => 0,
            };
            (
                Ok(Some(ResponseBody::Capabilities(DebugServer::supported()))),
                Some(DebugEvent::Started { pid }),
            )
        },
        Err(e) => (Err(CommandFailure::Session(DebuggerError::Process(e))), None),
    }
}

/// Serves a request to run on.
fn resume_outcome(debugger: &mut Debugger, wanted: ResumeAction, done: bool) -> (r: (
    Outcome,
    Option<DebugEvent>,
))
    requires
        old(debugger).wf(),
        wanted == ResumeAction::Continue || wanted == ResumeAction::SingleStep,
    ensures
        final(debugger).wf(),
        serves_resume(*old(debugger), *final(debugger), wanted, done, r.0, r.1),
{
    let resumed = match wanted {
        ResumeAction::SingleStep => debugger.step_into(done),
        _ => debugger.continue_execution(done),
    };
    match resumed {
        Ok(_) => (Ok(None), None),
        Err(e) => (Err(CommandFailure::Session(DebuggerError::Process(e))), None),
    }
}

/// Serves the command that sets a breakpoint for `line` of `file`.
/// `original` is the byte that was read at the address of the location
/// and replaced by the trap instruction, or the error of the read or of
/// the write.  Only the breakpoints of the session can change.  Where
/// the location has no address the command fails, the breakpoint is
/// reported as not verified with the message that says why, and nothing
/// changes.  Else the breakpoint is added at that address as
/// `BreakpointManager::add_breakpoint` says; it is reported as verified,
/// under the id it was given, exactly where that succeeded.
pub fn serve_set_breakpoint(
    debugger: &mut Debugger,
    file: String,
    line: u32,
    condition: Option<String>,
    log_message: Option<String>,
    original: Result<u8, MemoryError>,
) -> (r: (Outcome, Option<DebugEvent>))
    requires
        old(debugger).wf(),
    ensures
        final(debugger).wf(),
        serves_set_breakpoint(
            *old(debugger),
            *final(debugger),
            file,
            line,
            kind_of(condition, log_message),
            original,
            r.0,
            r.1,
        ),
{
    let ghost before = debugger.breakpoint_manager;
    let ghost kind = kind_of(condition, log_message);
    let ghost path = file;
    let set = debugger.set_breakpoint(file, line, condition, log_message, original);
    proof {
        if let Ok(address) = old(debugger).location_address(path@, line) {
            let r: Result<usize, BreakpointError> = match set {
                Ok(id) => Ok(id),
                Err(DebuggerError::Breakpoint(e)) => Err(e),
                Err(_) => Err(BreakpointError::UnknownId),
            };
            assert(added(
                before,
                debugger.breakpoint_manager,
                address,
                line,
                path,
                kind,
                original,
                r,
            ));
        }
    }
    let event = breakpoint_event(&set);
    match set {
        Ok(_) => (Ok(None), Some(event)),
        Err(e) => (Err(CommandFailure::Session(e)), Some(event)),
    }
}

/// Serves the removal of a breakpoint.
fn remove_breakpoint_outcome(debugger: &mut Debugger, id: usize, restored: bool) -> (r: (
    Outcome,
    Option<DebugEvent>,
))
    requires
        old(debugger).wf(),
    ensures
        final(debugger).wf(),
        serves_remove_breakpoint(*old(debugger), *final(debugger), id, restored, r.0, r.1),
{
    match debugger.breakpoint_manager.remove_breakpoint(id, restored) {
        Ok(_) => (Ok(None), None),
        Err(e) => (Err(CommandFailure::Session(DebuggerError::Breakpoint(e))), None),
    }
}

/// Serves a stack trace.
fn stack_outcome(debugger: &Debugger, context: &Option<WalkedFrame>, walked: &Vec<WalkedFrame>) -> (r:
    Outcome)
    ensures
        serves_stack(*debugger, *context, walked@, r),
{
    let innermost = match context {
        Some(c) => Some(c),
        None => None,
    };
    match debugger.get_backtrace(innermost, walked) {
        Ok(frames) => {
            let body = stack_trace(&frames);
            proof {
                assert(frame_views(frames@) == unwound(*context, walked@));
                assert(traces(body->StackTrace_0@, frames@));
            }
            Ok(Some(body))
        },
        Err(_) => Err(CommandFailure::NoActiveSession),
    }
}

impl DebugServer {
    pub fn new() -> (server: Self)
        ensures
            server.sequence == 0,
            !server.session_active,
    {
        DebugServer { sequence: 0, session_active: false }
    }

    /// The next sequence number of this end.
    pub fn next_sequence(&mut self) -> (seq: u64)
        ensures
            seq == following(old(self).sequence),
            final(self).sequence == seq,
            final(self).session_active == old(self).session_active,
    {
        self.sequence = if self.sequence < u64::MAX {
            self.sequence + 1
        } else {
            0
        };
        self.sequence
    }

    /// What this debugger can do.
    pub fn supported() -> (c: DebuggerCapabilities)
        ensures
            c == capabilities(),
    {
        DebuggerCapabilities {
            supports_step_back: false,
            supports_restart_frame: false,
            supports_goto_targets: false,
            supports_evaluate_for_hovers: true,
            supports_conditional_breakpoints: true,
            supports_log_points: true,
            supports_set_variable: true,
            supports_completions: true,
            supports_modules: true,
            supports_memory_references: true,
            supports_value_formatting: true,
        }
    }

    /// Serves a command in a session.  `observed` is what the operating
    /// system gave for the work that the command needs.  The first part
    /// of the result is what the command is answered with, the second
    /// the event that reports it, where there is one.
    pub fn handle_command(debugger: &mut Debugger, command: DebugCommand, observed: Observation) -> (r: (
        Outcome,
        Option<DebugEvent>,
    ))
        requires
            old(debugger).wf(),
        ensures
            final(debugger).wf(),
            serves(*old(debugger), *final(debugger), command, observed, r.0, r.1),
    {
        match command {
            DebugCommand::Launch { program, args, working_dir } => match observed {
                Observation::Launched {
                    spawned,
                    process_handle,
                    thread_handle,
                    entries,
                } => launch_outcome(debugger, spawned, process_handle, thread_handle, entries),
                _ => (Err(CommandFailure::Unobserved), None),
            },
            DebugCommand::Continue => match observed {
                Observation::Done(done) => resume_outcome(debugger, ResumeAction::Continue, done),
                _ => (Err(CommandFailure::Unobserved), None),
            },
            DebugCommand::StepInto => match observed {
                Observation::Done(done) => resume_outcome(debugger, ResumeAction::SingleStep, done),
                _ => (Err(CommandFailure::Unobserved), None),
            },
            DebugCommand::StepOver => match observed {
                Observation::Done(done) => resume_outcome(debugger, ResumeAction::SingleStep, done),
                _ => (Err(CommandFailure::Unobserved), None),
            },
            DebugCommand::SetBreakpoint { file, line, condition, log_message } => match observed {
                Observation::Byte(original) => serve_set_breakpoint(
                    debugger,
                    file,
                    line,
                    condition,
                    log_message,
                    original,
                ),
                _ => (Err(CommandFailure::Unobserved), None),
            },
            DebugCommand::RemoveBreakpoint { id } => match observed {
                Observation::Done(restored) => remove_breakpoint_outcome(debugger, id, restored),
                _ => (Err(CommandFailure::Unobserved), None),
            },
            DebugCommand::ReadMemory { address, size } => match observed {
                Observation::Bytes(transferred) => {
                    match debugger.read_memory(address, size, transferred.as_slice()) {
                        Ok(bytes) => (Ok(Some(ResponseBody::Memory(bytes))), None),
                        Err(e) => (Err(CommandFailure::Session(e)), None),
                    }
                },
                _ => (Err(CommandFailure::Unobserved), None),
            },
            DebugCommand::WriteMemory { address, data } => match observed {
                Observation::Count(written) => {
                    match debugger.write_memory(address, data.as_slice(), written) {
                        Ok(_) => (Ok(None), None),
                        Err(e) => (Err(CommandFailure::Session(e)), None),
                    }
                },
                _ => (Err(CommandFailure::Unobserved), None),
            },
            DebugCommand::GetStackTrace => match observed {
                Observation::Stack { context, walked } => (
                    stack_outcome(debugger, &context, &walked),
                    None,
                ),
                _ => (Err(CommandFailure::Unobserved), None),
            },
            DebugCommand::Evaluate { expression, frame_id } => match observed {
                Observation::Variables(variables) => {
                    match debugger.evaluate_expression(expression.as_str(), &variables) {
                        Ok(text) => (Ok(Some(ResponseBody::Evaluate(text))), None),
                        Err(e) => (Err(CommandFailure::Evaluation(e)), None),
                    }
                },
                _ => (Err(CommandFailure::Unobserved), None),
            },
            DebugCommand::Disconnect => (Ok(None), None),
            _ => (Err(CommandFailure::NotImplemented), None),
        }
    }

    /// The response to the request `request_seq` with this outcome.
    pub fn respond(&mut self, request_seq: u64, outcome: Outcome) -> (response: ProtocolMessage)
        ensures
            final(self).session_active == old(self).session_active,
            final(self).sequence == following(old(self).sequence),
            responds(response, following(old(self).sequence), request_seq, outcome),
    {
        let seq = self.next_sequence();
        let content = match outcome {
            Ok(body) => MessageContent::Response { request_seq, success: true, message: None, body },
            Err(failure) => MessageContent::Response {
                request_seq,
                success: false,
                message: Some(failure.message()),
                body: None,
            },
        };
        ProtocolMessage { seq, typ: MessageType::Response, content }
    }

    /// Answers one message that arrived.  A request gets exactly one
    /// response, which names the sequence number of the request; a command
    /// that fails gets a failed response, not an error.  The second part
    /// of the result is the event that reports what the command did,
    /// where there is one.  A message that is no request is an error,
    /// which ends the connection, and changes nothing.
    pub fn handle_message(
        &mut self,
        debugger: &mut Debugger,
        message: ProtocolMessage,
        observed: Observation,
    ) -> (r: (Result<ProtocolMessage, ProtocolError>, Option<DebugEvent>))
        requires
            old(debugger).wf(),
        ensures
            final(debugger).wf(),
            answered(
                *old(self),
                *final(self),
                *old(debugger),
                *final(debugger),
                message,
                observed,
                r.0,
                r.1,
            ),
    {
        match message.content {
            MessageContent::Command(command) => {
                let served = Self::handle_command(debugger, command, observed);
                let response = self.respond(message.seq, served.0);
                self.session_active = debugger.process.is_some();
                (Ok(response), served.1)
            },
            _ => (Err(ProtocolError::UnexpectedMessageType), None),
        }
    }

    /// The failed response that stands in for a response whose text does
    /// not fit a frame.
    pub fn decline(response: &ProtocolMessage) -> (fallback: ProtocolMessage)
        requires
            response.content is Response,
        ensures
            declines(fallback, *response),
    {
        let request_seq = match &response.content {
            MessageContent::Response { request_seq, success, message, body } => *request_seq,
            _ => 0,
        };
        ProtocolMessage {
            seq: response.seq,
            typ: MessageType::Response,
            content: MessageContent::Response {
                request_seq,
                success: false,
                message: Some(CommandFailure::TooLarge.message()),
                body: None,
            },
        }
    }

    /// The frame that is sent for a response: its own, or that of the
    /// failed response that says that it is too large.
    pub fn frame_response(response: &ProtocolMessage) -> (frame: Vec<u8>)
        requires
            response.content is Response,
        ensures
            sent(*response, frame@),
    {
        match pack_message(response) {
            Ok(frame) => frame,
            Err(_) => {
                let fallback = Self::decline(response);
                proof {
                    lemma_failure_fits(
                        fallback,
                        response.seq,
                        response.content->request_seq,
                        CommandFailure::TooLarge,
                    );
                }
                match pack_message(&fallback) {
                    Ok(frame) => frame,
                    Err(_) => Vec::new(),
                }
            },
        }
    }

    /// Serves the start of the bytes that arrived on a connection.  Where
    /// they hold no whole frame yet, more are awaited.  A frame that holds
    /// no message, and a message that is no request, end the connection,
    /// and nothing else does.  A request is answered as `handle_message`
    /// says, be the response a success or a failure, and the frame of the
    /// response is returned with the number of bytes that the request
    /// took up and the event that is to follow the response.  `observed`
    /// is what the operating system gave for the command of the request.
    pub fn handle_client(&mut self, debugger: &mut Debugger, buffer: &[u8], observed: Observation) -> (r:
        Served)
        requires
            old(debugger).wf(),
        ensures
            final(debugger).wf(),
            r is Incomplete <==> buffer@.len() < 4 || buffer@.len() - 4 < announced(buffer@),
            !(r is Reply) ==> *final(self) == *old(self) && *final(debugger) == *old(debugger),
            r matches Served::Closed { error } ==> {
                ||| error == ProtocolError::Serialization && forall|m: ProtocolMessage|
                    !#[trigger] holds_message(buffer@, m, frame_size(buffer@))
                ||| error == ProtocolError::UnexpectedMessageType && exists|m: ProtocolMessage|
                    #![trigger holds_message(buffer@, m, frame_size(buffer@))]
                    holds_message(buffer@, m, frame_size(buffer@)) && !(m.content is Command)
            },
            r matches Served::Reply { frame, consumed, event } ==> consumed == frame_size(buffer@)
                && exists|request: ProtocolMessage, response: ProtocolMessage|
                #![trigger answered(*old(self), *final(self), *old(debugger), *final(debugger), request, observed, Ok(response), event)]
                holds_message(buffer@, request, frame_size(buffer@)) && request.content is Command
                    && answered(
                    *old(self),
                    *final(self),
                    *old(debugger),
                    *final(debugger),
                    request,
                    observed,
                    Ok(response),
                    event,
                ) && sent(response, frame@),
            forall|request: ProtocolMessage|
                #[trigger] holds_message(buffer@, request, frame_size(buffer@))
                    && request.content is Command ==> r is Reply,
    {
        match unpack_message(buffer) {
            Unpacked::Incomplete { missing } => Served::Incomplete { missing },
            Unpacked::Malformed { consumed } => Served::Closed {
                error: ProtocolError::Serialization,
            },
            Unpacked::Message { message, consumed } => {
                let ghost request = message;
                proof {
                    assert forall|other: ProtocolMessage| #[trigger]
                        holds_message(buffer@, other, frame_size(buffer@))
                            && other.content is Command implies message.content is Command by {
                        lemma_same_form_same_content(other, message);
                    }
                    assert(holds_message(buffer@, request, frame_size(buffer@)));
                }
                let answer = self.handle_message(debugger, message, observed);
                match answer.0 {
                    Ok(response) => {
                        let frame = Self::frame_response(&response);
                        proof {
                            assert(answered(
                                *old(self),
                                *self,
                                *old(debugger),
                                *debugger,
                                request,
                                observed,
                                Ok(response),
                                answer.1,
                            ));
                        }
                        Served::Reply { frame, consumed, event: answer.1 }
                    },
                    Err(error) => Served::Closed { error },
                }
            },
        }
    }

    /// The message that carries an event to the front end.
    pub fn handle_event(&mut self, event: DebugEvent) -> (message: ProtocolMessage)
        ensures
            final(self).session_active == old(self).session_active,
            final(self).sequence == following(old(self).sequence),
            message.seq == following(old(self).sequence),
            message.typ == MessageType::Event,
            message.content == MessageContent::Event(event),
    {
        let seq = self.next_sequence();
        ProtocolMessage { seq, typ: MessageType::Event, content: MessageContent::Event(event) }
    }
}

/// The text that reports why the session could not do what was asked.
pub open spec fn failure_message(error: DebuggerError) -> Seq<char> {
    match error {
        DebuggerError::Process(ProcessError::NoActiveProcess) => "No active process"@,
        DebuggerError::Process(ProcessError::ResumeFailed) => "Failed to continue process"@,
        DebuggerError::Process(_) => "The process failed"@,
        DebuggerError::Memory(_) => "Failed to access memory"@,
        DebuggerError::Breakpoint(BreakpointError::AddressUnreadable) => "Failed to read memory"@,
        DebuggerError::Breakpoint(BreakpointError::DuplicateAddress) => "A breakpoint is set at the address already"@,
        DebuggerError::Breakpoint(BreakpointError::AddressUnwritable) => "Failed to write breakpoint"@,
        DebuggerError::Breakpoint(BreakpointError::IdsExhausted) => "No breakpoint id is left"@,
        DebuggerError::Breakpoint(BreakpointError::UnknownId) => "Breakpoint not found"@,
        DebuggerError::Watchpoint(_) => "Failed to set memory protection"@,
        DebuggerError::LocationNotFound => "Could not find address for breakpoint location"@,
        DebuggerError::AddressOutOfRange => "The address of the location is out of range"@,
    }
}

/// The text that reports why the session could not do what was asked.
pub fn failure_text(error: &DebuggerError) -> (text: String)
    ensures
        text@ == failure_message(*error),
{
    match error {
        DebuggerError::Process(ProcessError::NoActiveProcess) => "No active process".to_owned(),
        DebuggerError::Process(ProcessError::ResumeFailed) => "Failed to continue process".to_owned(),
        DebuggerError::Process(_) => "The process failed".to_owned(),
        DebuggerError::Memory(_) => "Failed to access memory".to_owned(),
        DebuggerError::Breakpoint(BreakpointError::AddressUnreadable) => "Failed to read memory".to_owned(),
        DebuggerError::Breakpoint(BreakpointError::DuplicateAddress) => "A breakpoint is set at the address already".to_owned(),
        DebuggerError::Breakpoint(BreakpointError::AddressUnwritable) => "Failed to write breakpoint".to_owned(),
        DebuggerError::Breakpoint(BreakpointError::IdsExhausted) => "No breakpoint id is left".to_owned(),
        DebuggerError::Breakpoint(BreakpointError::UnknownId) => "Breakpoint not found".to_owned(),
        DebuggerError::Watchpoint(_) => "Failed to set memory protection".to_owned(),
        DebuggerError::LocationNotFound => "Could not find address for breakpoint location".to_owned(),
        DebuggerError::AddressOutOfRange => "The address of the location is out of range".to_owned(),
    }
}

/// The event that reports what setting a breakpoint gave: verified with
/// its id, or not verified, with id 0 and a message that says why.
pub fn breakpoint_event(outcome: &Result<usize, DebuggerError>) -> (event: DebugEvent)
    ensures
        reports(event, *outcome),
{
    match outcome {
        Ok(id) => DebugEvent::Breakpoint { id: *id, verified: true, message: None },
        Err(e) => DebugEvent::Breakpoint { id: 0, verified: false, message: Some(failure_text(e)) },
    }
}

/// Whether `event` reports the outcome `outcome` of setting a breakpoint:
/// verified with its id and without a message, or not verified, with id
/// 0 and the message that says why.
pub open spec fn reports(event: DebugEvent, outcome: Result<usize, DebuggerError>) -> bool {
    match outcome {
        Ok(set) => event matches DebugEvent::Breakpoint { id, verified, message } && id == set
            && verified && message is None,
        Err(e) => event matches DebugEvent::Breakpoint { id, verified, message } && id == 0
            && !verified && message is Some && message->0@ == failure_message(e),
    }
}

/// Whether a character separates the parts of a path.
pub open spec fn is_separator(c: char) -> bool {
    c == '/' || c == '\\'
}

/// Index at which the name of the file starts in a path: after its last
/// separator, or 0 where it has none.
pub open spec fn name_start(path: Seq<char>) -> int
    decreases path.len(),
{
    if path.len() == 0 {
        0
    } else if is_separator(path.last()) {
        path.len() as int
    } else {
        name_start(path.drop_last())
    }
}

/// The name of the file of a path: what follows its last separator.
pub open spec fn file_name(path: Seq<char>) -> Seq<char> {
    path.skip(name_start(path))
}

/// The name of the file of a path.
pub fn file_name_of(path: &String) -> (name: String)
    ensures
        name@ == file_name(path@),
{
    let chars = chars_of(path.as_str());
    let mut start: usize = chars.len();
    assert(chars@.take(start as int) =~= chars@);
    while start > 0 && !(chars[start - 1] == '/' || chars[start - 1] == '\\')
        invariant
            start <= chars@.len(),
            name_start(chars@) == name_start(chars@.take(start as int)),
        decreases start,
    {
        let ghost prefix = chars@.take(start as int);
        assert(prefix.last() == chars@[start - 1]);
        assert(prefix.drop_last() =~= chars@.take(start - 1));
        start -= 1;
    }
    proof {
        let prefix = chars@.take(start as int);
        if start > 0 {
            assert(prefix.last() == chars@[start - 1]);
        }
    }
    let mut name: Vec<char> = Vec::new();
    let mut i: usize = start;
    while i < chars.len()
        invariant
            start <= i <= chars@.len(),
            name@ == chars@.subrange(start as int, i as int),
        decreases chars@.len() - i,
    {
        name.push(chars[i]);
        assert(chars@.subrange(start as int, i as int + 1) == chars@.subrange(
            start as int,
            i as int,
        ).push(chars@[i as int]));
        i += 1;
    }
    assert(chars@.subrange(start as int, chars@.len() as int) =~= chars@.skip(start as int));
    string_from_chars(&name)
}

/// Whether `shown` is the frame `frame` as the front end shows it, under
/// the number `id`: with the name of its function, or no name; with its
/// source file and the name of that file; with its line, or 0; in column
/// 0; with its module, where it has one.
pub open spec fn shows(
    shown: StackFrame,
    id: int,
    frame: crate::debugger::stack::StackFrame,
) -> bool {
    &&& shown.id == id
    &&& shown.name@ == match frame.function_name {
        Some(name) => name@,
        None => Seq::<char>::empty(),
    }
    &&& match frame.source_file {
        Some(path) => shown.source is Some && shown.source->0.path@ == path@
            && shown.source->0.name@ == file_name(path@),
        None => shown.source is None,
    }
    &&& shown.line == match frame.line_number {
        Some(line) => line,
        None => 0,
    }
    &&& shown.column == 0
    &&& if frame.module_name@.len() == 0 {
        shown.module is None
    } else {
        text_of(shown.module) == Some(frame.module_name@)
    }
}

/// The frames of a call stack as the front end shows them, numbered from
/// 0 in their order.
pub fn stack_trace(frames: &Vec<crate::debugger::stack::StackFrame>) -> (body: ResponseBody)
    ensures
        body matches ResponseBody::StackTrace(list) && list@.len() == frames@.len() && forall|
            i: int,
        |
            0 <= i < list@.len() ==> shows(#[trigger] list@[i], i, frames@[i]),
{
    let mut list: Vec<StackFrame> = Vec::new();
    let mut i: usize = 0;
    while i < frames.len()
        invariant
            i <= frames@.len(),
            list@.len() == i,
            forall|k: int| 0 <= k < i ==> shows(#[trigger] list@[k], k, frames@[k]),
        decreases frames@.len() - i,
    {
        let frame = &frames[i];
        let name = match &frame.function_name {
            Some(n) => n.clone(),
            None => String::new(),
        };
        let source = match &frame.source_file {
            Some(path) => Some(Source { path: path.clone(), name: file_name_of(path) }),
            None => None,
        };
        let line = match frame.line_number {
            Some(l) => l,
            None => 0,
        };
        let module = if frame.module_name.as_str().is_empty() {
            None
        } else {
            Some(frame.module_name.clone())
        };
        list.push(StackFrame { id: i, name, source, line, column: 0, module });
        i += 1;
    }
    ResponseBody::StackTrace(list)
}

} // verus!
