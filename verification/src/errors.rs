//! The errors of the runtime: what a caller can be told, what travels in a
//! response frame, and what a transport reports.

use vstd::prelude::*;
use vstd::std_specs::convert::FromSpecImpl;

verus! {

/// All the ways in which a call can fail for its caller.
#[derive(Debug, Clone, PartialEq, Eq)]
pub enum Error<E> {
    /// The transport closed or failed while the call was open, or the call was
    /// made after that.
    Disconnected,
    /// The deadline of the call passed before an answer came.
    DeadlineExceeded,
    /// The server answered with an error of its own. Its type belongs to the
    /// service; the runtime hands it on as it came.
    Application(E),
    /// The framing refused the request, or the server did, for its size.
    PayloadTooLarge,
    /// The peer broke the protocol, or the space of identifiers is used up.
    ProtocolViolation,
}

/// What the error arm of a response frame can hold.
#[derive(Debug, Clone, PartialEq, Eq)]
pub enum WireError<E> {
    /// The server gave the handler up at the deadline of the request.
    DeadlineExceeded,
    /// The server refused the request for its size.
    PayloadTooLarge,
    /// The handler answered with an error.
    Application(E),
}

/// The kinds of transport failure that the runtime tells apart.
#[derive(Debug, Clone, Copy, PartialEq, Eq, Structural)]
pub enum IoErrorKind {
    ConnectionRefused,
    ConnectionReset,
    ConnectionAborted,
    NotConnected,
    BrokenPipe,
    TimedOut,
    UnexpectedEof,
    InvalidData,
    Other,
}

/// A failure that a transport reports: its kind, and a text for people.
#[derive(Debug, Clone)]
pub struct IoError {
    pub kind: IoErrorKind,
    pub message: String,
}

/// A failure of the TLS layer below a transport, as the text that the layer
/// gives for it.
#[derive(Debug, Clone)]
pub struct TlsError {
    pub message: String,
}

impl IoError {
    /// A failure of the given kind.
    pub fn new(kind: IoErrorKind, message: String) -> (err: IoError)
        ensures
            err.kind == kind,
            err.message == message,
    {
        IoError { kind, message }
    }

    /// A failure of no particular kind.
    pub fn other(message: String) -> (err: IoError)
        ensures
            err.kind == IoErrorKind::Other,
            err.message == message,
    {
        IoError { kind: IoErrorKind::Other, message }
    }
}

/// Turns a failure of the TLS layer into a transport failure: one of kind
/// `Other`, with the same text.
pub fn native_to_io(e: TlsError) -> (err: IoError)
    ensures
        err.kind == IoErrorKind::Other,
        err.message == e.message,
{
    IoError::other(e.message)
}

impl<E> Error<E> {
    /// What a caller is told when a response frame holds `error`.
    pub open spec fn spec_from_wire(error: WireError<E>) -> Error<E> {
        match error {
            WireError::DeadlineExceeded => Error::DeadlineExceeded,
            WireError::PayloadTooLarge => Error::PayloadTooLarge,
            WireError::Application(e) => Error::Application(e),
        }
    }

    /// What a caller is told when a response frame holds `error`.
    pub fn from_wire(error: WireError<E>) -> (err: Error<E>)
        ensures
            err == Self::spec_from_wire(error),
    {
        match error {
            WireError::DeadlineExceeded => Error::DeadlineExceeded,
            WireError::PayloadTooLarge => Error::PayloadTooLarge,
            WireError::Application(e) => Error::Application(e),
        }
    }

    /// The text of `description`.
    pub open spec fn spec_description(self) -> Seq<char> {
        match self {
            Error::Disconnected => "the transport closed while the call was open"@,
            Error::DeadlineExceeded => "the deadline passed before an answer came"@,
            Error::Application(_) => "the server answered with an error"@,
            Error::PayloadTooLarge => "the request is too large"@,
            Error::ProtocolViolation => "the peer broke the protocol"@,
        }
    }

    /// A short text that names the failure.
    pub fn description(&self) -> (text: &'static str)
        ensures
            text@ == self.spec_description(),
    {
        match self {
            Error::Disconnected => "the transport closed while the call was open",
            Error::DeadlineExceeded => "the deadline passed before an answer came",
            Error::Application(_) => "the server answered with an error",
            Error::PayloadTooLarge => "the request is too large",
            Error::ProtocolViolation => "the peer broke the protocol",
        }
    }
}

impl<E> From<IoError> for Error<E> {
    /// Every failure of the transport reaches the caller as `Disconnected`.
    fn from(err: IoError) -> (out: Error<E>) {
        Error::Disconnected
    }
}

impl<E> FromSpecImpl<IoError> for Error<E> {
    open spec fn obeys_from_spec() -> bool {
        true
    }

    open spec fn from_spec(err: IoError) -> Error<E> {
        Error::Disconnected
    }
}

} // verus!
