//! Verified core of a serial caller-ID monitor.
//!
//! The library parses caller-ID records out of a line-oriented serial byte
//! stream: a pure line parser, a byte-to-line reassembler, a connection
//! manager owning at most one open device, and the decision logic of the
//! cancellable listener loop. The surrounding application supplies the
//! thread, the sleeps, and the event sink.

pub mod events;
pub mod connection;
pub mod parser;
pub mod listener;
pub mod reassembler;
