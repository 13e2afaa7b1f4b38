//! Engine of a native process debugger, with the front end of the language
//! whose expressions it evaluates.
//!
//! The crate holds the decisions of the debugger: which byte a breakpoint
//! saves and writes back, when a hit stops the debuggee, which watchpoint an
//! access fault belongs to, how a call stack is assembled, how addresses map
//! to symbols, how the process state moves, and how messages are written,
//! framed and correlated on the wire.  It performs no operating-system call
//! itself: a caller hands in what the operating system returned and carries
//! out the memory patches, protection changes and resume requests that come
//! back.
//!
//! Beside it stand the scanner, the parser, the type checker and the
//! formatter of the language, a growable vector and an arena.
pub mod compiler;
pub mod debugger;
pub mod formatter;
pub mod lsp;
pub mod runtime;
pub mod seqs;
pub mod stdlib;
pub mod text;
