//! Support at run time: the arena and the errors of the runtime.
pub mod memory;

use crate::text::{chars_of, decimal_text, push_all, push_decimal, string_from_chars};
use vstd::prelude::*;

verus! {

/// What can go wrong at run time.
#[derive(Debug)]
pub enum RuntimeError {
    MemoryAllocationError,
    ThreadPoolError(String),
    SIMDError(String),
    IndexOutOfBounds { index: usize, len: usize },
}

/// The text of an error.
pub open spec fn error_text(error: RuntimeError) -> Seq<char> {
    match error {
        RuntimeError::MemoryAllocationError => "Memory allocation failed"@,
        RuntimeError::ThreadPoolError(msg) => "Thread pool error: "@ + msg@,
        RuntimeError::SIMDError(msg) => "SIMD operation error: "@ + msg@,
        RuntimeError::IndexOutOfBounds { index, len } => "Index "@ + decimal_text(index as nat)
            + " out of bounds for length "@ + decimal_text(len as nat),
    }
}

impl RuntimeError {
    /// The text of the error.
    pub fn message(&self) -> (text: String)
        ensures
            text@ == error_text(*self),
    {
        let mut out: Vec<char> = Vec::new();
        match self {
            RuntimeError::MemoryAllocationError => {
                let head = chars_of("Memory allocation failed");
                push_all(&mut out, &head);
            },
            RuntimeError::ThreadPoolError(msg) => {
                let head = chars_of("Thread pool error: ");
                push_all(&mut out, &head);
                let detail = chars_of(msg.as_str());
                push_all(&mut out, &detail);
            },
            RuntimeError::SIMDError(msg) => {
                let head = chars_of("SIMD operation error: ");
                push_all(&mut out, &head);
                let detail = chars_of(msg.as_str());
                push_all(&mut out, &detail);
            },
            RuntimeError::IndexOutOfBounds { index, len } => {
                let head = chars_of("Index ");
                push_all(&mut out, &head);
                push_decimal(&mut out, *index as u64);
                let middle = chars_of(" out of bounds for length ");
                push_all(&mut out, &middle);
                push_decimal(&mut out, *len as u64);
            },
        }
        assert(out@ =~= error_text(*self));
        string_from_chars(&out)
    }
}

} // verus!
