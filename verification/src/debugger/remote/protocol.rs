//! The messages of the remote protocol.
use vstd::prelude::*;

verus! {

/// A request of the front end.
#[derive(Debug)]
pub enum DebugCommand {
    Launch { program: String, args: Vec<String>, working_dir: Option<String> },
    Attach { pid: u32 },
    Continue,
    StepInto,
    StepOver,
    StepOut,
    Pause,
    SetBreakpoint {
        file: String,
        line: u32,
        condition: Option<String>,
        log_message: Option<String>,
    },
    RemoveBreakpoint { id: usize },
    ReadMemory { address: usize, size: usize },
    WriteMemory { address: usize, data: Vec<u8> },
    GetStackTrace,
    GetVariables { frame_id: usize },
    Evaluate { expression: String, frame_id: Option<usize> },
    SetVariable { frame_id: usize, name: String, value: String },
    Disconnect,
}

/// A report to the front end.
#[derive(Debug)]
pub enum DebugEvent {
    Started { pid: u32 },
    Stopped { reason: StopReason, thread_id: u32, frame_id: Option<usize> },
    Breakpoint { id: usize, verified: bool, message: Option<String> },
    Output { category: OutputCategory, message: String },
    ThreadCreated { thread_id: u32 },
    ThreadExited { thread_id: u32 },
    ModuleLoaded { name: String, path: String },
    Error { message: String },
}

/// Why the debuggee stopped.
#[derive(Debug)]
pub enum StopReason {
    Breakpoint { id: usize },
    Step,
    Pause,
    Exception { description: String },
    Entry,
}

/// The stream that an output belongs to.
#[derive(Debug, Clone, Copy, PartialEq, Eq, Structural)]
pub enum OutputCategory {
    Console,
    Stdout,
    Stderr,
    Debug,
}

/// A frame of the call stack, as the front end shows it.
#[derive(Debug)]
pub struct StackFrame {
    pub id: usize,
    pub name: String,
    pub source: Option<Source>,
    pub line: u32,
    pub column: u32,
    pub module: Option<String>,
}

/// A source file.
#[derive(Debug)]
pub struct Source {
    pub path: String,
    pub name: String,
}

/// A variable with its value as text.
#[derive(Debug)]
pub struct Variable {
    pub name: String,
    pub value: String,
    pub type_label: String,
    pub variables_reference: usize,
}

/// What the debugger can do.
#[derive(Debug, Clone, Copy, PartialEq, Eq, Structural)]
pub struct DebuggerCapabilities {
    pub supports_step_back: bool,
    pub supports_restart_frame: bool,
    pub supports_goto_targets: bool,
    pub supports_evaluate_for_hovers: bool,
    pub supports_conditional_breakpoints: bool,
    pub supports_log_points: bool,
    pub supports_set_variable: bool,
    pub supports_completions: bool,
    pub supports_modules: bool,
    pub supports_memory_references: bool,
    pub supports_value_formatting: bool,
}

/// One message on the wire.
#[derive(Debug)]
pub struct ProtocolMessage {
    pub seq: u64,
    pub typ: MessageType,
    pub content: MessageContent,
}

/// The kind of a message.
#[derive(Debug, Clone, Copy, PartialEq, Eq, Structural)]
pub enum MessageType {
    Request,
    Response,
    Event,
}

/// What a message carries.
#[derive(Debug)]
pub enum MessageContent {
    Command(DebugCommand),
    Event(DebugEvent),
    Response { request_seq: u64, success: bool, message: Option<String>, body: Option<ResponseBody> },
}

/// The result that a successful response carries.
#[derive(Debug)]
pub enum ResponseBody {
    StackTrace(Vec<StackFrame>),
    Variables(Vec<Variable>),
    Memory(Vec<u8>),
    Evaluate(String),
    Capabilities(DebuggerCapabilities),
}

/// Why an exchange of messages failed.
#[derive(Debug, Clone, Copy, PartialEq, Eq, Structural)]
pub enum ProtocolError {
    /// A message could not be put into or taken out of its frame.
    Serialization,
    /// The connection failed.
    Connection,
    /// A message of another kind than the one awaited arrived.
    UnexpectedMessageType,
}

} // verus!
