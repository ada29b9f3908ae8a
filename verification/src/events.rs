//! The structured values the listener publishes and the typed failures the
//! control operations surface.

use vstd::prelude::*;

verus! {

/// One successfully parsed caller-ID record: the phone number and the
/// instant of detection.
#[derive(Debug, Clone)]
pub struct CallerEvent {
    pub phone_number: String,
    pub timestamp: String,
}

/// The kind of a transient fault the listener reports and retries.
#[derive(Debug, Clone, Copy, PartialEq, Eq, Structural)]
pub enum NoticeKind {
    NotConnected,
    ReadFailure,
}

/// An advisory error notice published by the listener loop; never fatal.
#[derive(Debug, Clone)]
pub struct ErrorNotice {
    pub kind: NoticeKind,
    pub message: String,
}

/// A typed failure surfaced by a control operation.
#[derive(Debug)]
pub enum CallerIdError {
    /// Listing the available ports failed.
    EnumerationError(String),
    /// Opening the named device failed.
    ConnectionError(String),
    /// `start` was called while the listener was already running.
    AlreadyListening,
}

} // verus!
