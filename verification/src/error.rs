//! The error type shared by all stages.
use vstd::prelude::*;

verus! {

/// The stage that rejected its input.
#[derive(Debug, Clone, Copy, PartialEq, Eq, Structural)]
pub enum ErrorKind {
    /// A schema has a bad shape, an unsupported data type or inconsistent
    /// nullability.
    Schema,
    /// Lowering, linking or validating a program failed.
    Compile,
    /// The traced events conflict or end inside an open container.
    Trace,
    /// An event does not match the program or the expected value.
    Interpret,
    /// A strategy name is unknown.
    Strategy,
}

/// A failure with the stage it came from and a message for humans.
#[derive(Debug, Clone, PartialEq, Eq)]
pub struct Error {
    pub kind: ErrorKind,
    pub message: String,
}

impl Error {
    /// An error of the given kind with the given message.
    pub fn new(kind: ErrorKind, message: &str) -> (res: Error)
        ensures
            res.kind == kind,
            res.message@ == message@,
    {
        Error { kind, message: message.to_owned() }
    }

    /// The message of this error.
    pub fn message(&self) -> (res: String)
        ensures
            res@ == self.message@,
    {
        self.message.clone()
    }
}

/// Whether a result is a failure of the given kind.
pub open spec fn fails_with<T>(res: Result<T, Error>, kind: ErrorKind) -> bool {
    res matches Err(e) && e.kind == kind
}

/// Shorthand for a failed result of the given kind.
pub fn fail<T>(kind: ErrorKind, message: &str) -> (res: Result<T, Error>)
    ensures
        fails_with(res, kind),
        res matches Err(e) && e.message@ == message@,
{
    Err(Error::new(kind, message))
}

} // verus!
