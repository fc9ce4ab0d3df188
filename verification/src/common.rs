//! The error type shared by every parser.

use vstd::prelude::*;

verus! {

/// The class of a failure.
#[derive(Debug, PartialEq, Eq, Clone, Copy, Structural)]
pub enum ErrorKind {
    /// The input ended before the value was complete.
    UnexpectedEof,
    /// The input holds a value that is not valid where it stands.
    InvalidData,
    /// An argument is not valid.
    InvalidInput,
    /// The address is in use already.
    AddrInUse,
    /// The operation is not supported.
    Unsupported,
    /// The operation would have to wait.
    WouldBlock,
    /// There is no peer.
    NotConnected,
    /// The network cannot be reached.
    NetworkUnreachable,
    /// The host cannot be reached.
    HostUnreachable,
    /// There is no room for what the operation needs.
    OutOfMemory,
    /// Any other failure.
    Other,
}

/// A failure: its class and a message for a human reader.
#[derive(Debug)]
pub struct Error {
    pub kind: ErrorKind,
    pub message: String,
}

impl View for Error {
    type V = (ErrorKind, Seq<char>);

    open spec fn view(&self) -> (ErrorKind, Seq<char>) {
        (self.kind, self.message@)
    }
}

/// What a fallible call came to, with the error taken by its view.
pub open spec fn outcome<T>(result: Result<T, Error>) -> Result<T, (ErrorKind, Seq<char>)> {
    match result {
        Ok(value) => Ok(value),
        Err(error) => Err(error@),
    }
}

impl Error {
    /// An error of the given class with the given message.
    pub fn new(kind: ErrorKind, message: &str) -> (error: Self)
        ensures
            error@ == (kind, message@),
    {
        Error { kind, message: message.to_owned() }
    }

    /// The class of this error.
    pub fn kind(&self) -> (kind: ErrorKind)
        ensures
            kind == self@.0,
    {
        self.kind
    }

    /// The message of this error.
    pub fn message(&self) -> (message: &str)
        ensures
            message@ == self@.1,
    {
        self.message.as_str()
    }
}

/// The message of an error that has another one as its cause.
pub open spec fn caused_by(message: Seq<char>, cause: Seq<char>) -> Seq<char> {
    message + ": "@ + cause
}

/// Reports a failed conversion as an input that ended too early. The message of the cause follows
/// the given one.
pub fn err_as_eof(message: &str, cause: &str) -> (error: Error)
    ensures
        error@ == (ErrorKind::UnexpectedEof, caused_by(message@, cause@)),
{
    let mut text: String = message.to_owned();
    text.append(": ");
    text.append(cause);
    Error { kind: ErrorKind::UnexpectedEof, message: text }
}

} // verus!
