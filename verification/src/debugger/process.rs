//! The state of the debuggee and what the notifications of the operating
//! system do to it.
use vstd::prelude::*;

verus! {

/// Exception code of a trap instruction.
pub const EXCEPTION_BREAKPOINT: u32 = 0x8000_0003;

/// Exception code of a completed single step.
pub const EXCEPTION_SINGLE_STEP: u32 = 0x8000_0004;

/// Why the engine could not do what was asked of the debuggee.
#[derive(Debug, Clone, Copy, PartialEq, Eq, Structural)]
pub enum ProcessError {
    /// No debuggee has been launched.
    NoActiveProcess,
    /// The debuggee could not be started, or its symbols not be loaded.
    LaunchFailed,
    /// Waiting for the next notification failed.
    EventWaitFailed,
    /// The operating system could not let the debuggee run on.
    ResumeFailed,
}

/// Why the debuggee is suspended.
#[derive(Debug, Clone, Copy, PartialEq, Eq, Structural)]
pub enum StopCause {
    /// A trap instruction was executed at the address.
    Breakpoint { address: usize },
    /// The single step that was asked for is complete.
    StepComplete,
    /// Any other exception.
    Exception { code: u32, address: usize },
    /// A notification that is no exception.
    Notification,
}

/// The state of the debuggee.
#[derive(Debug, Clone, Copy, PartialEq, Eq, Structural)]
pub enum ProcessState {
    NotStarted,
    Running,
    Suspended(StopCause),
    Exited(u32),
}

/// What the operating system is to do so that the debuggee runs on.
#[derive(Debug, Clone, Copy, PartialEq, Eq, Structural)]
pub enum ResumeAction {
    /// Nothing: the debuggee is not suspended.
    Nothing,
    /// Let the debuggee continue.
    Continue,
    /// Set the single-instruction trap of the thread, then let the
    /// debuggee continue: it is suspended again after one instruction.
    SingleStep,
}

/// One notification of the operating system about the debuggee.
#[derive(Debug, Clone, Copy, PartialEq, Eq, Structural)]
pub enum Notification {
    Exception { code: u32, address: usize, thread_id: u32 },
    ProcessExited { exit_code: u32 },
    ThreadCreated { thread_id: u32 },
    ThreadExited { thread_id: u32 },
    Other { code: u32 },
}

/// The cause of the stop that a notification brings.
pub open spec fn cause_of(notification: Notification) -> StopCause {
    match notification {
        Notification::Exception { code, address, thread_id } => if code == EXCEPTION_BREAKPOINT {
            StopCause::Breakpoint { address }
        } else if code == EXCEPTION_SINGLE_STEP {
            StopCause::StepComplete
        } else {
            StopCause::Exception { code, address }
        },
        _ => StopCause::Notification,
    }
}

/// The state after a notification: the debuggee has exited, or it is
/// suspended for the cause that the notification brings.
pub open spec fn notified(notification: Notification) -> ProcessState {
    match notification {
        Notification::ProcessExited { exit_code } => ProcessState::Exited(exit_code),
        _ => ProcessState::Suspended(cause_of(notification)),
    }
}

/// The state after a request to run on that the operating system
/// carried out: a suspended debuggee runs, any other state stays.
pub open spec fn resumed(state: ProcessState) -> ProcessState {
    match state {
        ProcessState::Suspended(_) => ProcessState::Running,
        other => other,
    }
}

/// What a request to run on asks of the operating system: `wanted` for a
/// suspended debuggee, nothing in any other state.
pub open spec fn resume_action(state: ProcessState, wanted: ResumeAction) -> ResumeAction {
    match state {
        ProcessState::Suspended(_) => wanted,
        _ => ResumeAction::Nothing,
    }
}

/// What a request to run on gives, and the state after it.  `succeeded`
/// says whether the operating system carried out what
/// `resume_action(state, wanted)` asked of it.  A debuggee that is not
/// suspended stays as it is, which is no error.  A suspended debuggee
/// runs where the operating system let it; where it did not, that is an
/// error and the debuggee stays suspended.
pub open spec fn run_on(state: ProcessState, wanted: ResumeAction, succeeded: bool) -> (
    ProcessState,
    Result<ResumeAction, ProcessError>,
) {
    match state {
        ProcessState::Suspended(_) => if succeeded {
            (ProcessState::Running, Ok(wanted))
        } else {
            (state, Err(ProcessError::ResumeFailed))
        },
        _ => (state, Ok(ResumeAction::Nothing)),
    }
}

/// A debuggee that has been launched.
#[derive(Debug, Clone, Copy, PartialEq, Eq, Structural)]
pub struct DebuggedProcess {
    pub pid: u32,
    pub thread_id: u32,
    pub state: ProcessState,
}

impl DebuggedProcess {
    /// The debuggee as it is after its start: `spawned` holds its process
    /// and thread ids, or `None` where it could not be started.
    pub fn launch(spawned: Option<(u32, u32)>) -> (r: Result<Self, ProcessError>)
        ensures
            r == match spawned {
                Some((pid, thread_id)) => Ok::<Self, ProcessError>(
                    DebuggedProcess { pid, thread_id, state: ProcessState::Running },
                ),
                None => Err(ProcessError::LaunchFailed),
            },
    {
        match spawned {
            Some((pid, thread_id)) => Ok(
                DebuggedProcess { pid, thread_id, state: ProcessState::Running },
            ),
            None => Err(ProcessError::LaunchFailed),
        }
    }

    /// What is to be asked of the operating system so that the debuggee
    /// runs on as `wanted`: nothing while it is not suspended.  Nothing
    /// changes; the outcome is handed to `continue_execution` or `step`.
    pub fn resume_plan(&self, wanted: ResumeAction) -> (action: ResumeAction)
        ensures
            action == resume_action(self.state, wanted),
    {
        match self.state {
            ProcessState::Suspended(_) => wanted,
            _ => ResumeAction::Nothing,
        }
    }

    /// Takes in what a request to run on gave.
    fn run_on(&mut self, wanted: ResumeAction, succeeded: bool) -> (r: Result<
        ResumeAction,
        ProcessError,
    >)
        ensures
            final(self).state == run_on(old(self).state, wanted, succeeded).0,
            r == run_on(old(self).state, wanted, succeeded).1,
            final(self).pid == old(self).pid,
            final(self).thread_id == old(self).thread_id,
    {
        match self.state {
            ProcessState::Suspended(_) => {
                if succeeded {
                    self.state = ProcessState::Running;
                    Ok(wanted)
                } else {
                    Err(ProcessError::ResumeFailed)
                }
            },
            _ => Ok(ResumeAction::Nothing),
        }
    }

    /// Lets a suspended debuggee continue.  `succeeded` says whether the
    /// operating system carried out `resume_plan(ResumeAction::Continue)`.
    /// While the debuggee is not suspended this does nothing and is no
    /// error.  Where the operating system failed, the debuggee stays
    /// suspended.
    pub fn continue_execution(&mut self, succeeded: bool) -> (r: Result<ResumeAction, ProcessError>)
        ensures
            final(self).state == run_on(old(self).state, ResumeAction::Continue, succeeded).0,
            r == run_on(old(self).state, ResumeAction::Continue, succeeded).1,
            final(self).pid == old(self).pid,
            final(self).thread_id == old(self).thread_id,
    {
        self.run_on(ResumeAction::Continue, succeeded)
    }

    /// Lets a suspended debuggee execute one instruction.  `succeeded`
    /// says whether the operating system carried out
    /// `resume_plan(ResumeAction::SingleStep)`.  While the debuggee is not
    /// suspended this does nothing and is no error.  Where the operating
    /// system failed, the debuggee stays suspended.
    pub fn step(&mut self, succeeded: bool) -> (r: Result<ResumeAction, ProcessError>)
        ensures
            final(self).state == run_on(old(self).state, ResumeAction::SingleStep, succeeded).0,
            r == run_on(old(self).state, ResumeAction::SingleStep, succeeded).1,
            final(self).pid == old(self).pid,
            final(self).thread_id == old(self).thread_id,
    {
        self.run_on(ResumeAction::SingleStep, succeeded)
    }

    /// Takes in what waiting for a notification gave: `None` where the
    /// wait failed, which changes nothing.  Any notification suspends the
    /// debuggee, but for the one of its exit; the cause is returned.
    pub fn wait_for_event(&mut self, notification: Option<Notification>) -> (r: Result<
        ProcessState,
        ProcessError,
    >)
        ensures
            final(self).pid == old(self).pid,
            final(self).thread_id == old(self).thread_id,
            match notification {
                None => r == Err::<ProcessState, ProcessError>(ProcessError::EventWaitFailed)
                    && final(self).state == old(self).state,
                Some(n) => r == Ok::<ProcessState, ProcessError>(notified(n)) && final(self).state
                    == notified(n),
            },
    {
        let n = match notification {
            Some(n) => n,
            None => {
                return Err(ProcessError::EventWaitFailed);
            },
        };
        let state = match n {
            Notification::ProcessExited { exit_code } => ProcessState::Exited(exit_code),
            Notification::Exception { code, address, thread_id } => {
                if code == EXCEPTION_BREAKPOINT {
                    ProcessState::Suspended(StopCause::Breakpoint { address })
                } else if code == EXCEPTION_SINGLE_STEP {
                    ProcessState::Suspended(StopCause::StepComplete)
                } else {
                    ProcessState::Suspended(StopCause::Exception { code, address })
                }
            },
            _ => ProcessState::Suspended(StopCause::Notification),
        };
        self.state = state;
        Ok(state)
    }

    /// Whether the debuggee is suspended.
    pub fn is_suspended(&self) -> (r: bool)
        ensures
            r == self.state is Suspended,
    {
        match self.state {
            ProcessState::Suspended(_) => true,
            _ => false,
        }
    }
}

/// A suspended debuggee that is let run on asks for exactly the resume
/// that was wanted; it runs where that was carried out and stays
/// suspended, with an error, where it was not.  A debuggee that runs
/// stays as it is and asks for nothing, which is no error.
pub proof fn lemma_resume(cause: StopCause, wanted: ResumeAction, succeeded: bool)
    ensures
        resume_action(ProcessState::Suspended(cause), wanted) == wanted,
        run_on(ProcessState::Suspended(cause), wanted, true) == (
            ProcessState::Running,
            Ok::<ResumeAction, ProcessError>(wanted),
        ),
        run_on(ProcessState::Suspended(cause), wanted, false) == (
            ProcessState::Suspended(cause),
            Err::<ResumeAction, ProcessError>(ProcessError::ResumeFailed),
        ),
        resume_action(ProcessState::Running, wanted) == ResumeAction::Nothing,
        run_on(ProcessState::Running, wanted, succeeded) == (
            ProcessState::Running,
            Ok::<ResumeAction, ProcessError>(ResumeAction::Nothing),
        ),
{
}

} // verus!
