//! The errors that the operations of this library report.

use vstd::prelude::*;

verus! {

/// What went wrong.
#[derive(Debug, Clone, Copy, PartialEq, Eq, Structural)]
pub enum ErrorKind {
    /// A project, service or method that was asked for does not exist.
    NotFound,
    /// A name that must be unique is already taken.
    Conflict,
    /// A file could not be opened, read or written.
    IOFailure,
    /// A persisted record is malformed.
    SerializationFailure,
    /// The request could not be carried out.
    TransportFailure,
    /// The operation does not fit the state it was called in.
    InvalidState,
}

/// An error: its kind and a message for the reader.
#[derive(Debug)]
pub struct RockeryError {
    pub kind: ErrorKind,
    pub message: String,
}

impl RockeryError {
    /// Puts a kind and a message together.
    pub fn new(kind: ErrorKind, message: String) -> (r: RockeryError)
        ensures
            r.kind == kind,
            r.message@ == message@,
    {
        RockeryError { kind, message }
    }

    /// Whether this error has the given kind and message.
    pub open spec fn is(&self, kind: ErrorKind, message: Seq<char>) -> bool {
        self.kind == kind && self.message@ == message
    }

    /// The kind of this error.
    pub fn kind(&self) -> (r: ErrorKind)
        ensures
            r == self.kind,
    {
        self.kind
    }

    /// The message of this error.
    pub fn to_string(&self) -> (r: String)
        ensures
            r@ == self.message@,
    {
        self.message.clone()
    }
}

} // verus!
