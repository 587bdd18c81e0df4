//! Length-prefixed binary request/response protocol for a symbolic-execution
//! worker: message framing, response encoding, request parsing, the session
//! state machine, and the trace-collection pipeline that drains per-path
//! results from a concurrent queue into a bracketed response stream.

pub mod codec;
pub mod config;
pub mod pipeline;
pub mod queue;
pub mod request;
pub mod response;
pub mod session;
