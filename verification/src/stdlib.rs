//! Collections of the language's standard library.
pub mod collections;

pub use crate::stdlib::collections::Vector;
