//! Error values surfaced by the runtime's adapter boundary.
use vstd::prelude::*;

verus! {

/// An error carried back to a caller, as a plain message.
#[derive(PartialEq, Eq, Debug)]
pub struct ErrorMessage {
    pub message: String,
}

impl Clone for ErrorMessage {
    fn clone(&self) -> (r: Self)
        ensures
            r.message@ == self.message@,
    {
        ErrorMessage { message: self.message.clone() }
    }
}

impl ErrorMessage {
    /// Build an error from a message text.
    pub fn new(message: &str) -> (r: ErrorMessage)
        ensures
            r.message@ == message@,
    {
        ErrorMessage { message: message.to_owned() }
    }
}

/// Why an append to the event log was rejected as a whole.
#[derive(Clone, Copy, PartialEq, Eq, Structural, Debug)]
pub enum AppendError {
    /// Another writer chained off the same `previous_id`: the batch lost
    /// the optimistic-concurrency race and nothing was written.
    VersionConflict,
    /// An event's `(decider, event_name)` pair is not registered.
    UnregisteredEvent,
    /// The stream already holds a final event; nothing may follow it.
    StreamClosed,
    /// An event id in the batch is not globally fresh.
    DuplicateEventId,
}

/// Why an acknowledgement was rejected.
#[derive(Clone, Copy, PartialEq, Eq, Structural, Debug)]
pub enum AckError {
    /// No lock row exists for this `(subscriber, stream)` pair.
    LeaseMissing,
}

/// Why a command could not be handled by an aggregate.
#[derive(Clone, Copy, PartialEq, Eq, Structural, Debug)]
pub enum HandleError {
    /// A stored event of the stream could not be decoded.
    DecodeFailure,
    /// The append of the decided events was rejected.
    Append(AppendError),
}

impl AppendError {
    /// The message text of this error.
    pub fn to_message(&self) -> (r: ErrorMessage)
        ensures
            self is VersionConflict ==> r.message@ == "version conflict"@,
            self is UnregisteredEvent ==> r.message@ == "unregistered event"@,
            self is StreamClosed ==> r.message@ == "stream closed"@,
            self is DuplicateEventId ==> r.message@ == "duplicate event id"@,
    {
        let r: ErrorMessage = match self {
            AppendError::VersionConflict => ErrorMessage::new("version conflict"),
            AppendError::UnregisteredEvent => ErrorMessage::new("unregistered event"),
            AppendError::StreamClosed => ErrorMessage::new("stream closed"),
            AppendError::DuplicateEventId => ErrorMessage::new("duplicate event id"),
        };
        proof {
            reveal_strlit("version conflict");
            reveal_strlit("unregistered event");
            reveal_strlit("stream closed");
            reveal_strlit("duplicate event id");
        }
        r
    }
}

} // verus!
