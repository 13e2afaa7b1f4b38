//! The asking end: requests with rising sequence numbers, and what a
//! response or an event that arrived means.
use crate::debugger::remote::codec::{
    frame_size, holds_message, message_text, pack_message, unpack_message, Unpacked,
};
use crate::debugger::remote::framing::{announced, framed};
use crate::debugger::remote::protocol::{
    DebugCommand, DebugEvent, MessageContent, MessageType, ProtocolError, ProtocolMessage,
    ResponseBody, StackFrame, Variable,
};
use crate::debugger::remote::server::following;
use vstd::prelude::*;

verus! {

/// Why a command gave no result.
#[derive(Debug)]
pub enum CommandError {
    /// The exchange itself failed.
    Protocol(ProtocolError),
    /// The server answered that the command failed, with this message.
    Rejected(String),
    /// The server answered with success, but without a result.
    NoResponseBody,
}

/// The asking end of one connection.
pub struct DebugClient {
    /// The sequence number of the last request sent.
    pub sequence: u64,
}

/// What a response to the request `request_seq` means.  A message that is
/// no response, or that answers another request, is of an unexpected
/// kind.  A success gives its body; a failure is rejected with the message
/// of the server, or with "Unknown error" where it gave none.
pub open spec fn interpreted(
    request_seq: u64,
    response: ProtocolMessage,
    r: Result<ResponseBody, CommandError>,
) -> bool {
    match response.content {
        MessageContent::Response { request_seq: answered, success, message, body } => if answered
            != request_seq {
            r matches Err(CommandError::Protocol(ProtocolError::UnexpectedMessageType))
        } else if success {
            match body {
                Some(b) => r matches Ok(got) && got == b,
                None => r matches Err(CommandError::NoResponseBody),
            }
        } else {
            match message {
                Some(m) => r matches Err(CommandError::Rejected(text)) && text == m,
                None => r matches Err(CommandError::Rejected(text)) && text@ == "Unknown error"@,
            }
        },
        _ => r matches Err(CommandError::Protocol(ProtocolError::UnexpectedMessageType)),
    }
}

impl DebugClient {
    pub fn new() -> (client: Self)
        ensures
            client.sequence == 0,
    {
        DebugClient { sequence: 0 }
    }

    /// The request that carries a command, under the next sequence number.
    pub fn send_command(&mut self, command: DebugCommand) -> (request: ProtocolMessage)
        ensures
            final(self).sequence == following(old(self).sequence),
            request.seq == following(old(self).sequence),
            request.typ == MessageType::Request,
            request.content == MessageContent::Command(command),
    {
        self.sequence = if self.sequence < u64::MAX {
            self.sequence + 1
        } else {
            0
        };
        ProtocolMessage {
            seq: self.sequence,
            typ: MessageType::Request,
            content: MessageContent::Command(command),
        }
    }

    /// The frame of the request that carries a command.  A request whose
    /// text is too long for a frame is an error of serialization; the
    /// sequence number is used up all the same.
    pub fn frame_command(&mut self, command: DebugCommand) -> (r: Result<Vec<u8>, ProtocolError>)
        ensures
            final(self).sequence == following(old(self).sequence),
            ({
                let request = ProtocolMessage {
                    seq: following(old(self).sequence),
                    typ: MessageType::Request,
                    content: MessageContent::Command(command),
                };
                if message_text(request).len() <= u32::MAX {
                    r is Ok && r->Ok_0@ == framed(message_text(request))
                } else {
                    r == Err::<Vec<u8>, ProtocolError>(ProtocolError::Serialization)
                }
            }),
    {
        let request = self.send_command(command);
        pack_message(&request)
    }

    /// What the start of the bytes that arrived after a request means:
    /// `None` where they hold no whole frame yet; else the number of bytes
    /// that the frame took up, and what the response in it means.  A frame
    /// that holds no message is an error of serialization.
    pub fn receive(&self, buffer: &[u8]) -> (r: Option<(Result<ResponseBody, CommandError>, usize)>)
        ensures
            r is None <==> buffer@.len() < 4 || buffer@.len() - 4 < announced(buffer@),
            r is Some ==> (r->0).1 == 4 + announced(buffer@),
            r is Some ==> {
                ||| (r->0).0 matches Err(CommandError::Protocol(ProtocolError::Serialization))
                    && forall|m: ProtocolMessage|
                    !#[trigger] holds_message(buffer@, m, frame_size(buffer@))
                ||| exists|response: ProtocolMessage|
                    #![trigger interpreted(self.sequence, response, (r->0).0)]
                    holds_message(buffer@, response, frame_size(buffer@)) && interpreted(
                        self.sequence,
                        response,
                        (r->0).0,
                    )
            },
    {
        match unpack_message(buffer) {
            Unpacked::Incomplete { missing } => None,
            Unpacked::Malformed { consumed } => Some(
                (Err(CommandError::Protocol(ProtocolError::Serialization)), consumed),
            ),
            Unpacked::Message { message, consumed } => {
                let result = self.receive_response(message);
                assert(holds_message(buffer@, message, frame_size(buffer@)));
                assert(interpreted(self.sequence, message, result));
                Some((result, consumed))
            },
        }
    }

    /// What the response to the last request means.
    pub fn receive_response(&self, response: ProtocolMessage) -> (r: Result<
        ResponseBody,
        CommandError,
    >)
        ensures
            interpreted(self.sequence, response, r),
    {
        match response.content {
            MessageContent::Response { request_seq, success, message, body } => {
                if request_seq != self.sequence {
                    Err(CommandError::Protocol(ProtocolError::UnexpectedMessageType))
                } else if success {
                    match body {
                        Some(b) => Ok(b),
                        None => Err(CommandError::NoResponseBody),
                    }
                } else {
                    match message {
                        Some(m) => Err(CommandError::Rejected(m)),
                        None => Err(CommandError::Rejected("Unknown error".to_owned())),
                    }
                }
            },
            _ => Err(CommandError::Protocol(ProtocolError::UnexpectedMessageType)),
        }
    }

    /// The event that a message of the event stream carries; a message
    /// that is no event is of an unexpected kind.
    pub fn receive_event(message: ProtocolMessage) -> (r: Result<DebugEvent, ProtocolError>)
        ensures
            r == match message.content {
                MessageContent::Event(event) => Ok::<DebugEvent, ProtocolError>(event),
                _ => Err(ProtocolError::UnexpectedMessageType),
            },
    {
        match message.content {
            MessageContent::Event(event) => Ok(event),
            _ => Err(ProtocolError::UnexpectedMessageType),
        }
    }

    /// The request that launches a program.
    pub fn launch(&mut self, program: String, args: Vec<String>, working_dir: Option<String>) -> (request:
        ProtocolMessage)
        ensures
            final(self).sequence == following(old(self).sequence),
            request.seq == following(old(self).sequence),
            request.typ == MessageType::Request,
            request.content == MessageContent::Command(
                DebugCommand::Launch { program, args, working_dir },
            ),
    {
        self.send_command(DebugCommand::Launch { program, args, working_dir })
    }

    /// The request that sets a breakpoint.
    pub fn set_breakpoint(
        &mut self,
        file: String,
        line: u32,
        condition: Option<String>,
        log_message: Option<String>,
    ) -> (request: ProtocolMessage)
        ensures
            final(self).sequence == following(old(self).sequence),
            request.seq == following(old(self).sequence),
            request.typ == MessageType::Request,
            request.content == MessageContent::Command(
                DebugCommand::SetBreakpoint { file, line, condition, log_message },
            ),
    {
        self.send_command(DebugCommand::SetBreakpoint { file, line, condition, log_message })
    }

    /// The request that lets the debuggee continue.
    pub fn continue_execution(&mut self) -> (request: ProtocolMessage)
        ensures
            final(self).sequence == following(old(self).sequence),
            request.seq == following(old(self).sequence),
            request.typ == MessageType::Request,
            request.content == MessageContent::Command(DebugCommand::Continue),
    {
        self.send_command(DebugCommand::Continue)
    }

    /// The request for a step into a call.
    pub fn step_into(&mut self) -> (request: ProtocolMessage)
        ensures
            final(self).sequence == following(old(self).sequence),
            request.seq == following(old(self).sequence),
            request.typ == MessageType::Request,
            request.content == MessageContent::Command(DebugCommand::StepInto),
    {
        self.send_command(DebugCommand::StepInto)
    }

    /// The request for a step over a call.
    pub fn step_over(&mut self) -> (request: ProtocolMessage)
        ensures
            final(self).sequence == following(old(self).sequence),
            request.seq == following(old(self).sequence),
            request.typ == MessageType::Request,
            request.content == MessageContent::Command(DebugCommand::StepOver),
    {
        self.send_command(DebugCommand::StepOver)
    }

    /// The request for a step out of the current call.
    pub fn step_out(&mut self) -> (request: ProtocolMessage)
        ensures
            final(self).sequence == following(old(self).sequence),
            request.seq == following(old(self).sequence),
            request.typ == MessageType::Request,
            request.content == MessageContent::Command(DebugCommand::StepOut),
    {
        self.send_command(DebugCommand::StepOut)
    }

    /// What a command that has no result was answered with: a success
    /// without a result is what is awaited; a result is left aside; any
    /// failure stays as it is.
    pub fn expect_done(answer: Result<ResponseBody, CommandError>) -> (r: Result<(), CommandError>)
        ensures
            r == match answer {
                Ok(_) => Ok::<(), CommandError>(()),
                Err(CommandError::NoResponseBody) => Ok(()),
                Err(e) => Err(e),
            },
    {
        match answer {
            Ok(_) => Ok(()),
            Err(CommandError::NoResponseBody) => Ok(()),
            Err(e) => Err(e),
        }
    }

    /// The capabilities that answer a launch: any other body is of an
    /// unexpected kind.
    pub fn expect_capabilities(body: ResponseBody) -> (r: Result<(), ProtocolError>)
        ensures
            r == if body is Capabilities {
                Ok::<(), ProtocolError>(())
            } else {
                Err(ProtocolError::UnexpectedMessageType)
            },
    {
        match body {
            ResponseBody::Capabilities(_) => Ok(()),
            _ => Err(ProtocolError::UnexpectedMessageType),
        }
    }

    /// The frames that answer a request for the stack trace.
    pub fn get_stack_trace(body: ResponseBody) -> (r: Result<Vec<StackFrame>, ProtocolError>)
        ensures
            r == match body {
                ResponseBody::StackTrace(frames) => Ok::<Vec<StackFrame>, ProtocolError>(frames),
                _ => Err(ProtocolError::UnexpectedMessageType),
            },
    {
        match body {
            ResponseBody::StackTrace(frames) => Ok(frames),
            _ => Err(ProtocolError::UnexpectedMessageType),
        }
    }

    /// The variables that answer a request for the variables of a frame.
    pub fn get_variables(body: ResponseBody) -> (r: Result<Vec<Variable>, ProtocolError>)
        ensures
            r == match body {
                ResponseBody::Variables(variables) => Ok::<Vec<Variable>, ProtocolError>(variables),
                _ => Err(ProtocolError::UnexpectedMessageType),
            },
    {
        match body {
            ResponseBody::Variables(variables) => Ok(variables),
            _ => Err(ProtocolError::UnexpectedMessageType),
        }
    }

    /// The text that answers a request to evaluate an expression.
    pub fn evaluate(body: ResponseBody) -> (r: Result<String, ProtocolError>)
        ensures
            r == match body {
                ResponseBody::Evaluate(text) => Ok::<String, ProtocolError>(text),
                _ => Err(ProtocolError::UnexpectedMessageType),
            },
    {
        match body {
            ResponseBody::Evaluate(text) => Ok(text),
            _ => Err(ProtocolError::UnexpectedMessageType),
        }
    }
}

/// A request and the response that the server gives to it are correlated:
/// the client takes the response as the answer to its request.
pub proof fn lemma_response_correlates(
    request_seq: u64,
    response: ProtocolMessage,
    body: ResponseBody,
    r: Result<ResponseBody, CommandError>,
)
    requires
        response.content == (MessageContent::Response {
            request_seq,
            success: true,
            message: None,
            body: Some(body),
        }),
        interpreted(request_seq, response, r),
    ensures
        r matches Ok(got) && got == body,
{
}

} // verus!
