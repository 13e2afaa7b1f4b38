//! The debugger engine: memory access checks, breakpoints, watchpoints,
//! stack unwinding, symbols, process state and the remote protocol, and
//! the session that binds them to one debuggee.
pub mod breakpoint;
pub mod evaluator;
pub mod event;
pub mod logpoint;
pub mod memory;
pub mod process;
pub mod remote;
pub mod stack;
pub mod symbols;
pub mod watchpoint;

pub use crate::debugger::event::DebugEvent;

use crate::debugger::breakpoint::{
    added, condition_value, decided, live_at, log_line, planned, with_id, BreakpointError,
    BreakpointManager, BreakpointType, MemoryPatch,
};
use crate::debugger::evaluator::{evaluate_text, text_value, EvalError};
use crate::text::signed_decimal_text;
use crate::debugger::logpoint::TemplateError;
use crate::debugger::memory::{MemoryError, MemoryInspector};
use crate::debugger::process::{
    notified, resume_action, run_on, DebuggedProcess, Notification, ProcessError, ProcessState,
    ResumeAction, EXCEPTION_BREAKPOINT,
};
use crate::debugger::stack::{frame_views, unwound, StackFrame, StackUnwinder, WalkedFrame};
use crate::debugger::symbols::{built, declared_at, DebugEntry, DebugSymbols};
use crate::debugger::watchpoint::{WatchType, WatchpointError, WatchpointManager};
use crate::seqs::first_index;
use crate::text::{push_signed_decimal, string_from_chars};
use vstd::prelude::*;

verus! {

/// Why the session could not do what was asked.
#[derive(Debug, Clone, Copy, PartialEq, Eq, Structural)]
pub enum DebuggerError {
    Process(ProcessError),
    Memory(MemoryError),
    Breakpoint(BreakpointError),
    Watchpoint(WatchpointError),
    /// No symbol was declared at the file and line.
    LocationNotFound,
    /// The address of the symbol does not fit the address space.
    AddressOutOfRange,
}

/// How a hit of a breakpoint was resolved.
#[derive(Debug, Clone, Copy, PartialEq, Eq, Structural)]
pub enum HitResolution {
    /// The stop is surfaced: the debuggee stays suspended.
    Stopped,
    /// The debuggee is to run on.  The action says what the operating
    /// system is to do for that; `continue_execution` takes the outcome.
    Resumed(ResumeAction),
    /// No breakpoint has the id, or the event is no hit: nothing changes.
    Ignored,
}

/// What the event loop does after it has handled a notification.
#[derive(Debug, Clone, Copy, PartialEq, Eq, Structural)]
pub enum LoopStep {
    /// The operating system is asked for this action; where it carries
    /// it out, and `continue_execution` has taken that in, the next
    /// notification is awaited.
    Resume(ResumeAction),
    /// The loop ends: the debuggee stays as it is until a command lets it
    /// run on.
    Yield,
}

/// What the event loop does after a hit was resolved this way.  Only a
/// breakpoint that does not stop lets the debuggee run on without a
/// command; a stop, and any event that is no hit, end the loop.
pub open spec fn next_step(resolution: HitResolution) -> LoopStep {
    match resolution {
        HitResolution::Resumed(action) => if action is Nothing {
            LoopStep::Yield
        } else {
            LoopStep::Resume(action)
        },
        _ => LoopStep::Yield,
    }
}

/// What handling one notification gave: the event that reports it, the
/// line that is to be written out, and what the event loop does next.
pub struct Advanced {
    pub event: DebugEvent,
    pub output: Option<DebugEvent>,
    pub resolution: HitResolution,
    pub step: LoopStep,
}

/// The kind of a breakpoint that is set with these options: a condition
/// makes it conditional, else a log message makes it a log point.
pub open spec fn kind_of(condition: Option<String>, log_message: Option<String>) -> BreakpointType {
    match condition {
        Some(c) => BreakpointType::Conditional(c),
        None => match log_message {
            Some(m) => BreakpointType::LogPoint(m),
            None => BreakpointType::Normal,
        },
    }
}

/// The event that reports a notification.  A trap at the address of an
/// enabled breakpoint is a hit of that breakpoint; any other exception is
/// reported as it is.
pub open spec fn reported(manager: BreakpointManager, notification: Notification) -> DebugEvent {
    match notification {
        Notification::Exception { code, address, thread_id } => {
            let i = first_index(manager.breakpoints@, live_at(address));
            if code == EXCEPTION_BREAKPOINT && i < manager.breakpoints@.len() {
                DebugEvent::BreakpointHit { id: manager.breakpoints@[i].id, thread_id }
            } else {
                DebugEvent::Exception { code, address }
            }
        },
        Notification::ProcessExited { exit_code } => DebugEvent::ProcessExited {
            exit_code: exit_code as i32,
        },
        Notification::ThreadCreated { thread_id } => DebugEvent::ThreadCreated { thread_id },
        Notification::ThreadExited { thread_id } => DebugEvent::ThreadExited { thread_id },
        Notification::Other { code } => DebugEvent::Exception { code, address: 0 },
    }
}

/// The kind of the breakpoint `id`, where there is such a breakpoint.
pub open spec fn kind_at(manager: BreakpointManager, id: usize) -> Option<BreakpointType> {
    let i = first_index(manager.breakpoints@, with_id(id));
    if i < manager.breakpoints@.len() {
        Some(manager.breakpoints@[i].breakpoint_type)
    } else {
        None
    }
}

/// The line that a hit writes out: the line of a log point, or a warning
/// where its template is not closed; a warning where the condition of a
/// conditional breakpoint could not be evaluated; nothing for any other
/// hit.
pub open spec fn written(
    kind: BreakpointType,
    evaluation: Result<bool, EvalError>,
    line: Result<Seq<char>, TemplateError>,
) -> Option<Seq<char>> {
    match kind {
        BreakpointType::Conditional(_) => if evaluation is Err {
            Some("warning: the condition of the breakpoint could not be evaluated"@)
        } else {
            None
        },
        BreakpointType::LogPoint(_) => match line {
            Ok(text) => Some(text),
            Err(_) => Some("warning: unterminated placeholder in log message"@),
        },
        _ => None,
    }
}

/// What the evaluator makes of the condition of the breakpoint `id`:
/// `None` where there is no such breakpoint or its condition could not be
/// evaluated; a breakpoint without a condition counts as one whose
/// condition does not hold.
pub open spec fn hit_condition(
    manager: BreakpointManager,
    id: usize,
    variables: Seq<(String, i64)>,
) -> Option<bool> {
    match kind_at(manager, id) {
        Some(BreakpointType::Conditional(text)) => match condition_value(text@, variables) {
            Ok(holds) => Some(holds),
            Err(_) => None,
        },
        Some(_) => Some(false),
        None => None,
    }
}

/// The line that a hit of the breakpoint `id` writes out.
pub open spec fn hit_line(manager: BreakpointManager, id: usize, variables: Seq<(String, i64)>) -> Option<
    Seq<char>,
> {
    match kind_at(manager, id) {
        Some(kind) => written(
            kind,
            match kind {
                BreakpointType::Conditional(text) => condition_value(text@, variables),
                _ => Ok(false),
            },
            match kind {
                BreakpointType::LogPoint(template) => log_line(template@, variables),
                _ => Ok(Seq::<char>::empty()),
            },
        ),
        None => None,
    }
}

/// One debugging session: the debuggee, once it is launched, with its
/// breakpoints, watchpoints and symbols.
pub struct Debugger {
    pub process: Option<DebuggedProcess>,
    pub breakpoint_manager: BreakpointManager,
    pub watchpoint_manager: WatchpointManager,
    pub memory_inspector: MemoryInspector,
    pub stack_unwinder: StackUnwinder,
    pub debug_symbols: Option<DebugSymbols>,
}

impl Debugger {
    /// The invariant of the session: that of its parts.
    pub open spec fn wf(&self) -> bool {
        &&& self.breakpoint_manager.wf()
        &&& self.watchpoint_manager.wf()
        &&& self.debug_symbols is Some ==> self.debug_symbols->0.wf()
    }

    /// The state of the debuggee.
    pub open spec fn state(&self) -> ProcessState {
        match self.process {
            Some(p) => p.state,
            None => ProcessState::NotStarted,
        }
    }

    /// A session without a debuggee: nothing has started, no symbols are
    /// loaded, both tables are empty, the first breakpoint will get the
    /// id 1, and every handle is the null handle until a launch sets it.
    pub fn new() -> (debugger: Self)
        ensures
            debugger.wf(),
            debugger.process is None,
            debugger.state() == ProcessState::NotStarted,
            debugger.debug_symbols is None,
            debugger.breakpoint_manager.breakpoints@.len() == 0,
            debugger.breakpoint_manager.next_id == 1,
            debugger.watchpoint_manager.watchpoints@.len() == 0,
            debugger.watchpoint_manager.process_handle == 0,
            debugger.memory_inspector.process_handle == 0,
            debugger.stack_unwinder.process_handle == 0,
            debugger.stack_unwinder.thread_handle == 0,
    {
        Debugger {
            process: None,
            breakpoint_manager: BreakpointManager::new(),
            watchpoint_manager: WatchpointManager::new(0),
            memory_inspector: MemoryInspector::new(0),
            stack_unwinder: StackUnwinder::new(0, 0),
            debug_symbols: None,
        }
    }

    /// Binds the session to a debuggee that was started for debugging.
    /// `spawned` holds its process and thread ids, `None` where it could
    /// not be started; the handles are those of its process and thread;
    /// `entries` holds its debugging entries, `None` where the binary
    /// could not be opened.  Either failure fails the launch and changes
    /// nothing.  Else the debuggee runs, the watchpoints start empty, and
    /// the start is reported.
    pub fn launch(
        &mut self,
        spawned: Option<(u32, u32)>,
        process_handle: isize,
        thread_handle: isize,
        entries: Option<&Vec<DebugEntry>>,
    ) -> (r: Result<DebugEvent, ProcessError>)
        requires
            old(self).wf(),
        ensures
            final(self).wf(),
            spawned is None || entries is None ==> r == Err::<DebugEvent, ProcessError>(
                ProcessError::LaunchFailed,
            ) && *final(self) == *old(self),
            spawned is Some && entries is Some ==> {
                &&& r == Ok::<DebugEvent, ProcessError>(
                    DebugEvent::ProcessStarted { pid: (spawned->0).0 },
                )
                &&& final(self).process == Some(
                    DebuggedProcess {
                        pid: (spawned->0).0,
                        thread_id: (spawned->0).1,
                        state: ProcessState::Running,
                    },
                )
                &&& final(self).debug_symbols is Some
                &&& final(self).debug_symbols->0.table() == built(entries->0@)
                &&& final(self).breakpoint_manager == old(self).breakpoint_manager
                &&& final(self).watchpoint_manager.watchpoints@.len() == 0
                &&& final(self).watchpoint_manager.process_handle == process_handle
                &&& final(self).memory_inspector.process_handle == process_handle
                &&& final(self).stack_unwinder.process_handle == process_handle
                &&& final(self).stack_unwinder.thread_handle == thread_handle
            },
    {
        let process = match DebuggedProcess::launch(spawned) {
            Ok(p) => p,
            Err(e) => {
                return Err(e);
            },
        };
        let symbols = match DebugSymbols::new(entries) {
            Ok(s) => s,
            Err(_) => {
                return Err(ProcessError::LaunchFailed);
            },
        };
        self.watchpoint_manager = WatchpointManager::new(process_handle);
        self.memory_inspector = MemoryInspector::new(process_handle);
        self.stack_unwinder = StackUnwinder::new(process_handle, thread_handle);
        self.process = Some(process);
        self.debug_symbols = Some(symbols);
        Ok(DebugEvent::ProcessStarted { pid: process.pid })
    }

    /// The address at which a breakpoint for `line` of `file` is set: that
    /// of the first symbol declared there.
    pub fn breakpoint_address(&self, file: &String, line: u32) -> (r: Result<usize, DebuggerError>)
        requires
            self.wf(),
        ensures
            r == self.location_address(file@, line),
    {
        let symbols = match &self.debug_symbols {
            Some(s) => s,
            None => {
                return Err(DebuggerError::Process(ProcessError::NoActiveProcess));
            },
        };
        match symbols.find_address_for_location(file, line) {
            Some(address) => {
                if address <= usize::MAX as u64 {
                    Ok(address as usize)
                } else {
                    Err(DebuggerError::AddressOutOfRange)
                }
            },
            None => Err(DebuggerError::LocationNotFound),
        }
    }

    /// The address for `line` of `file`: no active process without
    /// symbols; not found where no symbol was declared there.
    pub open spec fn location_address(&self, file: Seq<char>, line: u32) -> Result<
        usize,
        DebuggerError,
    > {
        match self.debug_symbols {
            None => Err(DebuggerError::Process(ProcessError::NoActiveProcess)),
            Some(symbols) => {
                let i = first_index(symbols.table(), declared_at(file, line));
                if i < symbols.symbols@.len() {
                    if symbols.symbols@[i].address <= usize::MAX {
                        Ok(symbols.symbols@[i].address as usize)
                    } else {
                        Err(DebuggerError::AddressOutOfRange)
                    }
                } else {
                    Err(DebuggerError::LocationNotFound)
                }
            },
        }
    }

    /// What is to be written so that a breakpoint for `line` of `file` is
    /// armed, or why none can be set there.  `original` is what reading
    /// the byte at `breakpoint_address(file, line)` gave.  Nothing
    /// changes.
    pub fn plan_breakpoint(&self, file: &String, line: u32, original: Result<u8, MemoryError>) -> (r:
        Result<MemoryPatch, DebuggerError>)
        requires
            self.wf(),
        ensures
            r == match self.location_address(file@, line) {
                Err(e) => Err::<MemoryPatch, DebuggerError>(e),
                Ok(address) => match planned(self.breakpoint_manager, address, original) {
                    Ok(patch) => Ok(patch),
                    Err(e) => Err(DebuggerError::Breakpoint(e)),
                },
            },
    {
        let address = match self.breakpoint_address(file, line) {
            Ok(a) => a,
            Err(e) => {
                return Err(e);
            },
        };
        match self.breakpoint_manager.plan_breakpoint(address, original) {
            Ok(patch) => Ok(patch),
            Err(e) => Err(DebuggerError::Breakpoint(e)),
        }
    }

    /// Sets a breakpoint for `line` of `file`.  `original` is the byte
    /// that was read at `breakpoint_address(file, line)` and replaced by
    /// the trap instruction, or the error of the read or of the write.
    /// Where the location has no address that error is returned and
    /// nothing changes; else the breakpoint is added at the address, as
    /// `BreakpointManager::add_breakpoint` says, with the kind that the
    /// options ask for.
    pub fn set_breakpoint(
        &mut self,
        file: String,
        line: u32,
        condition: Option<String>,
        log_message: Option<String>,
        original: Result<u8, MemoryError>,
    ) -> (r: Result<usize, DebuggerError>)
        requires
            old(self).wf(),
        ensures
            final(self).wf(),
            final(self).process == old(self).process,
            final(self).debug_symbols == old(self).debug_symbols,
            final(self).watchpoint_manager == old(self).watchpoint_manager,
            match old(self).location_address(file@, line) {
                Err(e) => r == Err::<usize, DebuggerError>(e) && final(self).breakpoint_manager
                    == old(self).breakpoint_manager,
                Ok(address) => added(
                    old(self).breakpoint_manager,
                    final(self).breakpoint_manager,
                    address,
                    line,
                    file,
                    kind_of(condition, log_message),
                    original,
                    match r {
                        Ok(id) => Ok(id),
                        Err(DebuggerError::Breakpoint(e)) => Err(e),
                        Err(_) => Err(BreakpointError::UnknownId),
                    },
                ) && (r is Ok || r is Err && r->Err_0 is Breakpoint),
            },
    {
        let address = match self.breakpoint_address(&file, line) {
            Ok(a) => a,
            Err(e) => {
                return Err(e);
            },
        };
        let breakpoint_type = match condition {
            Some(c) => BreakpointType::Conditional(c),
            None => match log_message {
                Some(m) => BreakpointType::LogPoint(m),
                None => BreakpointType::Normal,
            },
        };
        match self.breakpoint_manager.add_breakpoint(address, line, file, breakpoint_type, original) {
            Ok(id) => Ok(id),
            Err(e) => Err(DebuggerError::Breakpoint(e)),
        }
    }

    /// Enters a watchpoint, as `WatchpointManager::add_watchpoint` says.
    /// Without a debuggee this is an error and nothing changes.
    pub fn set_watchpoint(
        &mut self,
        address: usize,
        size: usize,
        watch_type: WatchType,
        previous: Option<u32>,
        initial: Vec<u8>,
    ) -> (r: Result<(), DebuggerError>)
        requires
            old(self).wf(),
        ensures
            final(self).wf(),
            final(self).process == old(self).process,
            final(self).debug_symbols == old(self).debug_symbols,
            final(self).breakpoint_manager == old(self).breakpoint_manager,
            r == if old(self).process is None {
                Err::<(), DebuggerError>(DebuggerError::Process(ProcessError::NoActiveProcess))
            } else if previous is None {
                Err(DebuggerError::Watchpoint(WatchpointError::ProtectionChangeFailed))
            } else {
                Ok(())
            },
            r is Err ==> final(self).watchpoint_manager == old(self).watchpoint_manager,
            r is Ok ==> final(self).watchpoint_manager.watchpoints@
                == crate::debugger::watchpoint::entered(
                old(self).watchpoint_manager.watchpoints@,
                crate::debugger::watchpoint::Watchpoint {
                    address,
                    size,
                    watch_type,
                    original_protection: previous->0,
                    last_value: initial,
                },
            ),
    {
        if self.process.is_none() {
            return Err(DebuggerError::Process(ProcessError::NoActiveProcess));
        }
        match self.watchpoint_manager.add_watchpoint(address, size, watch_type, previous, initial) {
            Ok(()) => Ok(()),
            Err(e) => Err(DebuggerError::Watchpoint(e)),
        }
    }

    /// What is to be asked of the operating system so that the debuggee
    /// runs on as `wanted`: nothing while it is not suspended.  Without a
    /// debuggee this is an error.  Nothing changes.
    pub fn resume_plan(&self, wanted: ResumeAction) -> (r: Result<ResumeAction, ProcessError>)
        ensures
            r == match self.process {
                Some(p) => Ok::<ResumeAction, ProcessError>(resume_action(p.state, wanted)),
                None => Err(ProcessError::NoActiveProcess),
            },
    {
        match &self.process {
            Some(p) => Ok(p.resume_plan(wanted)),
            None => Err(ProcessError::NoActiveProcess),
        }
    }

    /// Lets the debuggee continue.  `succeeded` says whether the operating
    /// system carried out `resume_plan(ResumeAction::Continue)`.  Without
    /// a debuggee this is an error; while the debuggee is not suspended it
    /// does nothing; where the operating system failed it is an error and
    /// the debuggee stays suspended.
    pub fn continue_execution(&mut self, succeeded: bool) -> (r: Result<ResumeAction, ProcessError>)
        requires
            old(self).wf(),
        ensures
            final(self).wf(),
            Self::resumes(*old(self), *final(self), ResumeAction::Continue, succeeded, r),
    {
        match &mut self.process {
            Some(p) => p.continue_execution(succeeded),
            None => Err(ProcessError::NoActiveProcess),
        }
    }

    /// Lets the debuggee execute one instruction, entering calls.
    /// `succeeded` says whether the operating system carried out
    /// `resume_plan(ResumeAction::SingleStep)`.
    pub fn step_into(&mut self, succeeded: bool) -> (r: Result<ResumeAction, ProcessError>)
        requires
            old(self).wf(),
        ensures
            final(self).wf(),
            Self::resumes(*old(self), *final(self), ResumeAction::SingleStep, succeeded, r),
    {
        match &mut self.process {
            Some(p) => p.step(succeeded),
            None => Err(ProcessError::NoActiveProcess),
        }
    }

    /// Lets the debuggee execute one instruction.  `succeeded` says
    /// whether the operating system carried out
    /// `resume_plan(ResumeAction::SingleStep)`.
    pub fn step_over(&mut self, succeeded: bool) -> (r: Result<ResumeAction, ProcessError>)
        requires
            old(self).wf(),
        ensures
            final(self).wf(),
            Self::resumes(*old(self), *final(self), ResumeAction::SingleStep, succeeded, r),
    {
        match &mut self.process {
            Some(p) => p.step(succeeded),
            None => Err(ProcessError::NoActiveProcess),
        }
    }

    /// What a request to run on does: without a debuggee it is an error
    /// and nothing changes; else only the state of the debuggee can
    /// change, and it and the result are as `run_on` says: a debuggee
    /// that is not suspended stays as it is; a suspended one runs where
    /// the operating system let it, and stays suspended, with an error,
    /// where it did not.
    pub open spec fn resumes(
        before: Debugger,
        after: Debugger,
        wanted: ResumeAction,
        succeeded: bool,
        r: Result<ResumeAction, ProcessError>,
    ) -> bool {
        &&& after.breakpoint_manager == before.breakpoint_manager
        &&& after.watchpoint_manager == before.watchpoint_manager
        &&& after.debug_symbols == before.debug_symbols
        &&& match before.process {
            None => r == Err::<ResumeAction, ProcessError>(ProcessError::NoActiveProcess)
                && after.process is None,
            Some(p) => r == run_on(p.state, wanted, succeeded).1 && after.process == Some(
                DebuggedProcess {
                    pid: p.pid,
                    thread_id: p.thread_id,
                    state: run_on(p.state, wanted, succeeded).0,
                },
            ),
        }
    }

    /// The call stack of the debuggee, as `StackUnwinder::unwind_stack`
    /// gives it.
    pub fn get_backtrace(&self, context: Option<&WalkedFrame>, walked: &Vec<WalkedFrame>) -> (r:
        Result<Vec<StackFrame>, ProcessError>)
        ensures
            self.process is None ==> r == Err::<Vec<StackFrame>, ProcessError>(
                ProcessError::NoActiveProcess,
            ),
            self.process is Some ==> r is Ok && frame_views(r->Ok_0@) == unwound(
                match context {
                    Some(c) => Some(*c),
                    None => None,
                },
                walked@,
            ),
    {
        match &self.process {
            Some(_) => Ok(self.stack_unwinder.unwind_stack(context, walked)),
            None => Err(ProcessError::NoActiveProcess),
        }
    }

    /// The `size` bytes read at `address`, given the bytes that the copy
    /// transferred.
    pub fn read_memory(&self, address: usize, size: usize, transferred: &[u8]) -> (r: Result<
        Vec<u8>,
        DebuggerError,
    >)
        ensures
            self.process is None ==> r == Err::<Vec<u8>, DebuggerError>(
                DebuggerError::Process(ProcessError::NoActiveProcess),
            ),
            self.process is Some && transferred@.len() < size ==> r == Err::<
                Vec<u8>,
                DebuggerError,
            >(DebuggerError::Memory(MemoryError::ReadError { address })),
            self.process is Some && transferred@.len() >= size ==> r is Ok && r->Ok_0@
                == transferred@.take(size as int),
    {
        if self.process.is_none() {
            return Err(DebuggerError::Process(ProcessError::NoActiveProcess));
        }
        match self.memory_inspector.dump_memory(address, size, transferred) {
            Ok(bytes) => Ok(bytes),
            Err(e) => Err(DebuggerError::Memory(e)),
        }
    }

    /// Outcome of a write of `data` at `address`, of which `written` bytes
    /// were transferred.
    pub fn write_memory(&self, address: usize, data: &[u8], written: usize) -> (r: Result<
        (),
        DebuggerError,
    >)
        ensures
            r == if self.process is None {
                Err::<(), DebuggerError>(DebuggerError::Process(ProcessError::NoActiveProcess))
            } else if written < data@.len() {
                Err(DebuggerError::Memory(MemoryError::WriteError { address }))
            } else {
                Ok(())
            },
    {
        if self.process.is_none() {
            Err(DebuggerError::Process(ProcessError::NoActiveProcess))
        } else if written < data.len() {
            Err(DebuggerError::Memory(MemoryError::WriteError { address }))
        } else {
            Ok(())
        }
    }

    /// The value of an expression in decimal, against the values of the
    /// debuggee's variables.
    pub fn evaluate_expression(&self, expression: &str, variables: &Vec<(String, i64)>) -> (r:
        Result<String, EvalError>)
        ensures
            match text_value(expression@, variables@) {
                Ok(v) => r is Ok && r->Ok_0@ == signed_decimal_text(v as int),
                Err(e) => r == Err::<String, EvalError>(e),
            },
    {
        match evaluate_text(expression, variables) {
            Ok(v) => {
                let mut out: Vec<char> = Vec::new();
                push_signed_decimal(&mut out, v);
                assert(Seq::<char>::empty() + signed_decimal_text(v as int) =~= signed_decimal_text(
                    v as int,
                ));
                Ok(string_from_chars(&out))
            },
            Err(e) => Err(e),
        }
    }

    /// Takes in what waiting for a notification gave, `None` where the
    /// wait failed.  The debuggee is suspended, or has exited, as the
    /// notification says, and the event that reports it is returned.
    /// Without a debuggee, or where the wait failed, nothing changes.
    pub fn handle_notification(&mut self, notification: Option<Notification>) -> (r: Result<
        DebugEvent,
        ProcessError,
    >)
        requires
            old(self).wf(),
        ensures
            final(self).wf(),
            final(self).breakpoint_manager == old(self).breakpoint_manager,
            final(self).watchpoint_manager == old(self).watchpoint_manager,
            final(self).debug_symbols == old(self).debug_symbols,
            old(self).process is None ==> r == Err::<DebugEvent, ProcessError>(
                ProcessError::NoActiveProcess,
            ) && final(self).process is None,
            old(self).process is Some && notification is None ==> r == Err::<
                DebugEvent,
                ProcessError,
            >(ProcessError::EventWaitFailed) && final(self).process == old(self).process,
            old(self).process is Some && notification is Some ==> {
                &&& r == Ok::<DebugEvent, ProcessError>(
                    reported(old(self).breakpoint_manager, notification->0),
                )
                &&& final(self).process == Some(
                    DebuggedProcess {
                        pid: old(self).process->0.pid,
                        thread_id: old(self).process->0.thread_id,
                        state: notified(notification->0),
                    },
                )
            },
    {
        let process = match &mut self.process {
            Some(p) => p,
            None => {
                return Err(ProcessError::NoActiveProcess);
            },
        };
        match process.wait_for_event(notification) {
            Ok(_) => {},
            Err(e) => {
                return Err(e);
            },
        }
        let n = match notification {
            Some(n) => n,
            None => {
                return Err(ProcessError::EventWaitFailed);
            },
        };
        let event = match n {
            Notification::Exception { code, address, thread_id } => {
                let hit = if code == EXCEPTION_BREAKPOINT {
                    match self.breakpoint_manager.handle_breakpoint(address) {
                        Some(b) => Some(b.id),
                        None => None,
                    }
                } else {
                    None
                };
                match hit {
                    Some(id) => DebugEvent::BreakpointHit { id, thread_id },
                    None => DebugEvent::Exception { code, address },
                }
            },
            Notification::ProcessExited { exit_code } => DebugEvent::ProcessExited {
                exit_code: exit_code as i32,
            },
            Notification::ThreadCreated { thread_id } => DebugEvent::ThreadCreated { thread_id },
            Notification::ThreadExited { thread_id } => DebugEvent::ThreadExited { thread_id },
            Notification::Other { code } => DebugEvent::Exception { code, address: 0 },
        };
        Ok(event)
    }

    /// Resolves a hit of the breakpoint `id`.  `condition` is what the
    /// evaluator made of its condition, `None` where it failed.  The pass
    /// is counted.  Where the breakpoint stops, the stop is surfaced.
    /// Where it does not, the debuggee is to continue: the resolution
    /// names what the operating system is to do for that, and the
    /// debuggee stays suspended until `continue_execution` has taken in
    /// the outcome.  An unknown id changes nothing.
    pub fn resolve_hit(&mut self, id: usize, condition: Option<bool>) -> (r: HitResolution)
        requires
            old(self).wf(),
        ensures
            final(self).wf(),
            Self::resolves(*old(self), *final(self), id, condition, r),
    {
        match self.breakpoint_manager.should_break(id, condition) {
            Err(_) => HitResolution::Ignored,
            Ok(true) => HitResolution::Stopped,
            Ok(false) => match &self.process {
                Some(p) => HitResolution::Resumed(p.resume_plan(ResumeAction::Continue)),
                None => HitResolution::Resumed(ResumeAction::Nothing),
            },
        }
    }

    /// What resolving a hit does.  The breakpoints change as
    /// `BreakpointManager::should_break` says, and nothing else changes.
    /// An unknown id is ignored; a breakpoint that stops surfaces the
    /// stop; one that does not asks for a suspended debuggee to continue.
    pub open spec fn resolves(
        before: Debugger,
        after: Debugger,
        id: usize,
        condition: Option<bool>,
        r: HitResolution,
    ) -> bool {
        &&& after.watchpoint_manager == before.watchpoint_manager
        &&& after.debug_symbols == before.debug_symbols
        &&& after.process == before.process
        &&& decided(
            before.breakpoint_manager,
            after.breakpoint_manager,
            id,
            condition,
            match r {
                HitResolution::Ignored => Err(BreakpointError::UnknownId),
                HitResolution::Stopped => Ok(true),
                HitResolution::Resumed(_) => Ok(false),
            },
        )
        &&& r matches HitResolution::Resumed(action) ==> action == match before.process {
            Some(p) => resume_action(p.state, ResumeAction::Continue),
            None => ResumeAction::Nothing,
        }
    }

    /// The line that a hit writes out.  A log point writes its line, or a
    /// warning where its template is not closed; a conditional breakpoint
    /// writes a warning where its condition could not be evaluated; any
    /// other hit writes nothing.  `evaluation` is what the evaluator made
    /// of the condition, `line` what expanding the template gave.
    pub fn hit_output(
        kind: &BreakpointType,
        evaluation: Result<bool, EvalError>,
        line: Result<String, TemplateError>,
    ) -> (r: Option<DebugEvent>)
        ensures
            match written(
                *kind,
                evaluation,
                match line {
                    Ok(text) => Ok(text@),
                    Err(e) => Err(e),
                },
            ) {
                Some(text) => r matches Some(DebugEvent::Output { message }) && message@ == text,
                None => r is None,
            },
    {
        match kind {
            BreakpointType::Conditional(_) => match evaluation {
                Ok(_) => None,
                Err(_) => Some(
                    DebugEvent::Output {
                        message: "warning: the condition of the breakpoint could not be evaluated".to_owned(),
                    },
                ),
            },
            BreakpointType::LogPoint(_) => match line {
                Ok(text) => Some(DebugEvent::Output { message: text }),
                Err(_) => Some(
                    DebugEvent::Output {
                        message: "warning: unterminated placeholder in log message".to_owned(),
                    },
                ),
            },
            _ => None,
        }
    }

    /// Handles an event of the debuggee.  For a hit of a breakpoint the
    /// condition of a conditional breakpoint is evaluated and the line of
    /// a log point is made, both against `variables`, and the hit is
    /// resolved with that.  The second part of the result is the line that
    /// is to be written out: the line of a log point, or a warning where a
    /// condition or a template failed.  Any other event is ignored.
    pub fn handle_debug_event(&mut self, event: &DebugEvent, variables: &Vec<(String, i64)>) -> (r: (
        HitResolution,
        Option<DebugEvent>,
    ))
        requires
            old(self).wf(),
        ensures
            final(self).wf(),
            !(event is BreakpointHit) ==> r.0 == HitResolution::Ignored && r.1 is None && *final(self) == *old(self),
            event is BreakpointHit ==> Self::resolves(
                *old(self),
                *final(self),
                event->BreakpointHit_id,
                hit_condition(old(self).breakpoint_manager, event->BreakpointHit_id, variables@),
                r.0,
            ),
            event is BreakpointHit ==> match hit_line(
                old(self).breakpoint_manager,
                event->BreakpointHit_id,
                variables@,
            ) {
                Some(text) => r.1 matches Some(DebugEvent::Output { message }) && message@ == text,
                None => r.1 is None,
            },
    {
        let id = match event {
            DebugEvent::BreakpointHit { id, thread_id } => *id,
            _ => {
                return (HitResolution::Ignored, None);
            },
        };
        let mut condition: Option<bool> = None;
        let mut output: Option<DebugEvent> = None;
        match self.breakpoint_manager.get_breakpoint(id) {
            Some(breakpoint) => {
                let evaluation = match &breakpoint.breakpoint_type {
                    BreakpointType::Conditional(text) => self.breakpoint_manager.evaluate_condition(
                        text.as_str(),
                        variables,
                    ),
                    _ => Ok(false),
                };
                let line = match &breakpoint.breakpoint_type {
                    BreakpointType::LogPoint(template) => self.breakpoint_manager.format_log_message(
                        template.as_str(),
                        variables,
                    ),
                    _ => Ok(String::new()),
                };
                condition = match evaluation {
                    Ok(holds) => Some(holds),
                    Err(_) => None,
                };
                output = Self::hit_output(&breakpoint.breakpoint_type, evaluation, line);
            },
            None => {},
        }
        let resolution = self.resolve_hit(id, condition);
        (resolution, output)
    }

    /// What the event loop does after a hit was resolved this way.
    pub fn loop_step(resolution: HitResolution) -> (step: LoopStep)
        ensures
            step == next_step(resolution),
    {
        match resolution {
            HitResolution::Resumed(ResumeAction::Nothing) => LoopStep::Yield,
            HitResolution::Resumed(action) => LoopStep::Resume(action),
            _ => LoopStep::Yield,
        }
    }

    /// One turn of the event loop.  Takes in what waiting for a
    /// notification gave, as `handle_notification` says, and handles the
    /// event that reports it, as `handle_debug_event` says.  The loop goes
    /// on only after a hit of a breakpoint that does not stop: any other
    /// event leaves the debuggee suspended until a command lets it run
    /// on.  Without a debuggee, or where the wait failed, nothing changes.
    pub fn advance(&mut self, notification: Option<Notification>, variables: &Vec<(String, i64)>) -> (r:
        Result<Advanced, ProcessError>)
        requires
            old(self).wf(),
        ensures
            final(self).wf(),
            final(self).watchpoint_manager == old(self).watchpoint_manager,
            final(self).debug_symbols == old(self).debug_symbols,
            old(self).process is None ==> r is Err && r->Err_0 == ProcessError::NoActiveProcess,
            old(self).process is Some && notification is None ==> r is Err && r->Err_0
                == ProcessError::EventWaitFailed,
            r is Err ==> final(self).process == old(self).process && final(self).breakpoint_manager
                == old(self).breakpoint_manager,
            old(self).process is Some && notification is Some ==> {
                &&& r is Ok
                &&& r->Ok_0.event == reported(old(self).breakpoint_manager, notification->0)
                &&& r->Ok_0.step == next_step(r->Ok_0.resolution)
                &&& final(self).process == Some(
                    DebuggedProcess {
                        pid: old(self).process->0.pid,
                        thread_id: old(self).process->0.thread_id,
                        state: notified(notification->0),
                    },
                )
                &&& match r->Ok_0.event {
                    DebugEvent::BreakpointHit { id, thread_id } => {
                        &&& decided(
                            old(self).breakpoint_manager,
                            final(self).breakpoint_manager,
                            id,
                            hit_condition(old(self).breakpoint_manager, id, variables@),
                            match r->Ok_0.resolution {
                                HitResolution::Ignored => Err(BreakpointError::UnknownId),
                                HitResolution::Stopped => Ok(true),
                                HitResolution::Resumed(_) => Ok(false),
                            },
                        )
                        &&& r->Ok_0.resolution matches HitResolution::Resumed(action) ==> action
                            == resume_action(notified(notification->0), ResumeAction::Continue)
                        &&& match hit_line(old(self).breakpoint_manager, id, variables@) {
                            Some(text) => r->Ok_0.output matches Some(DebugEvent::Output { message })
                                && message@ == text,
                            None => r->Ok_0.output is None,
                        }
                    },
                    _ => r->Ok_0.resolution == HitResolution::Ignored && r->Ok_0.output is None
                        && final(self).breakpoint_manager == old(self).breakpoint_manager,
                }
            },
    {
        let event = match self.handle_notification(notification) {
            Ok(e) => e,
            Err(e) => {
                return Err(e);
            },
        };
        let (resolution, output) = self.handle_debug_event(&event, variables);
        let step = Self::loop_step(resolution);
        Ok(Advanced { event, output, resolution, step })
    }
}

} // verus!
