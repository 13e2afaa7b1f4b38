//! The remote protocol: its messages, their framing on the wire, and the
//! two ends that correlate requests and responses.
pub mod client;
pub mod codec;
pub mod framing;
pub mod json;
pub mod lossless;
pub mod protocol;
pub mod server;
pub mod size;
