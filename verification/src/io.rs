//! Outcomes of file-system and socket calls, as plain values.

use vstd::prelude::*;

verus! {

/// The classes of I/O failure that decisions depend on.
#[derive(Debug, Clone, Copy, PartialEq, Eq, Structural)]
pub enum IoKind {
    /// The path does not exist.
    NotFound,
    /// Nobody listens at the other end.
    ConnectionRefused,
    /// The other end dropped the connection.
    ConnectionReset,
    /// The stream ended early.
    UnexpectedEof,
    /// Any other failure.
    Other,
}

/// One failed I/O call.
#[derive(Debug, PartialEq, Eq)]
pub struct IoFailure {
    /// What kind of failure it was.
    pub kind: IoKind,
    /// The failure's message.
    pub text: String,
}

/// What an [`IoFailure`] says.
pub struct IoFailureView {
    pub kind: IoKind,
    pub text: Seq<char>,
}

impl View for IoFailure {
    type V = IoFailureView;

    open spec fn view(&self) -> IoFailureView {
        IoFailureView { kind: self.kind, text: self.text@ }
    }
}

} // verus!
