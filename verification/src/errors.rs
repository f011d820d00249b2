//! Error taxonomy shared by every component: a kind that classifies the
//! failure and a human-readable message.

use vstd::prelude::*;

verus! {

/// Classifies a `ChatError`: transport failures, registration conflicts,
/// room-lifecycle failures, malformed client commands, frame decode
/// failures, and the catch-all internal kind.
#[derive(Debug, Clone, Copy, PartialEq, Eq, Structural)]
pub enum ChatErrorKind {
    Connection,
    Authentication,
    Room,
    Message,
    Internal,
    Command,
    IO,
    Serialization,
}

/// One failure: its kind and a message meant for the originating user.
#[derive(Debug, Clone)]
pub struct ChatError {
    pub kind: ChatErrorKind,
    pub message: String,
}

impl ChatError {
    /// Builds an error of the given kind carrying the given message.
    pub fn new(kind: ChatErrorKind, message: String) -> (e: ChatError)
        ensures
            e.kind == kind,
            e.message@ == message@,
    {
        ChatError { kind, message }
    }

    /// The message text, for reporting back to the originating user.
    pub fn text(&self) -> (t: &String)
        ensures
            t@ == self.message@,
    {
        &self.message
    }
}

} // verus!
