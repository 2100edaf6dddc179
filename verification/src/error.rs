//! The error type every fallible operation of the library reports.

use vstd::prelude::*;

verus! {

/// The semantic kind of a failure.
///
/// `SerdeJson` and `IO` are reserved for failures propagated from the
/// encode/decode and file collaborators around the library; the core never
/// produces them itself.
#[derive(Clone, Copy, Debug, PartialEq, Eq, Structural)]
pub enum ErrorKind {
    /// A JSON text could not be decoded at all.
    SerdeJson,
    /// A file could not be read or written.
    IO,
    /// A JSON field had the wrong shape or type for its schema position.
    JsonInvalidType,
    /// An unrecognized `usage` discriminator value.
    UsageInvalid,
    /// Fewer than two command sets where a ring requires at least two.
    CommandSetLenUnder2,
    /// A required string field was empty.
    FieldEmpty,
}

impl ErrorKind {
    /// Attach a message to this kind.
    pub fn msg(self, msg: String) -> (e: Error)
        ensures
            e.kind == self,
            e.msg == msg,
    {
        Error::new(self, msg)
    }
}

/// A failure: its kind, and a message with enough context to pinpoint the
/// faulty input without re-inspecting the source document.
#[derive(Debug)]
pub struct Error {
    pub kind: ErrorKind,
    pub msg: String,
}

impl Error {
    /// An error of the given kind carrying the given message.
    pub fn new(kind: ErrorKind, msg: String) -> (e: Error)
        ensures
            e.kind == kind,
            e.msg == msg,
    {
        Error { kind, msg }
    }

    /// An error of the given kind with an empty message.
    pub fn kind(kind: ErrorKind) -> (e: Error)
        ensures
            e.kind == kind,
            e.msg@ == Seq::<char>::empty(),
    {
        Error::new(kind, String::new())
    }
}

} // verus!
