//! What the engine reports to whoever drives it.
use vstd::prelude::*;

verus! {

/// One report of the engine about the debuggee.
#[derive(Debug)]
pub enum DebugEvent {
    ProcessStarted { pid: u32 },
    ProcessExited { exit_code: i32 },
    BreakpointHit { id: usize, thread_id: u32 },
    WatchpointHit { address: usize, old_value: Vec<u8>, new_value: Vec<u8> },
    Exception { code: u32, address: usize },
    ThreadCreated { thread_id: u32 },
    ThreadExited { thread_id: u32 },
    ModuleLoaded { name: String, base_address: usize },
    Output { message: String },
}

} // verus!
