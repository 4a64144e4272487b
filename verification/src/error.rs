//! The error that every fallible operation of this crate returns.
use vstd::prelude::*;

verus! {

/// The category of an [`Error`].
#[derive(Debug, Clone, Copy, PartialEq, Eq, Hash, Structural)]
pub enum ErrorKind {
    /// The remote side refused the connection.
    ConnectionRefused,
    /// The remote side reset the connection.
    ConnectionReset,
    /// The remote side aborted the connection.
    ConnectionAborted,
    /// The session is not established.
    NotConnected,
    /// The other end of a pipe is gone.
    BrokenPipe,
    /// The operation would have to block.
    WouldBlock,
    /// A parameter was not valid.
    InvalidInput,
    /// Data was not valid for the operation.
    InvalidData,
    /// The operation took too long.
    TimedOut,
    /// The operation was interrupted.
    Interrupted,
    /// The stream ended too early.
    UnexpectedEof,
    /// Memory could not be allocated.
    OutOfMemory,
    /// Any other error.
    Other,
}

/// A transport or protocol-level error.
#[derive(Debug)]
pub struct Error {
    pub kind: ErrorKind,
    pub message: String,
}

impl Error {
    /// Create an error of the given kind with the given text.
    pub fn new(kind: ErrorKind, message: &str) -> (r: Self)
        ensures
            r.kind == kind,
            r.message@ == message@,
    {
        Self { kind, message: message.to_owned() }
    }

    /// The category of the error.
    pub fn kind(&self) -> (r: ErrorKind)
        ensures
            r == self.kind,
    {
        self.kind
    }
}

impl Clone for Error {
    fn clone(&self) -> (r: Self)
        ensures
            r == *self,
    {
        Self { kind: self.kind, message: self.message.clone() }
    }
}

/// Whether `r` is an error of the given kind and text.
pub open spec fn fails<T>(r: Result<T, Error>, kind: ErrorKind, message: Seq<char>) -> bool {
    r matches Err(e) && e.kind == kind && e.message@ == message
}

/// A failure is an error and no success, with the kind and the text that it was made with; two failures of the same result
/// have the same kind and the same text.
pub proof fn failure_has_one_kind_and_text<T>(
    r: Result<T, Error>,
    kind: ErrorKind,
    message: Seq<char>,
    other_kind: ErrorKind,
    other_message: Seq<char>,
)
    requires
        fails(r, kind, message),
    ensures
        r is Err,
        r->Err_0.kind == kind,
        r->Err_0.message@ == message,
        fails(r, other_kind, other_message) <==> other_kind == kind && other_message == message,
{
}

} // verus!
