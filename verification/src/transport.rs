//! The transport boundary: the error taxonomy and the four capability traits
//! that decouple both endpoints from any concrete input/output mechanism.

use vstd::prelude::*;

verus! {

/// The kind of an input/output failure, as the embedding application
/// classifies it from the platform's error codes.
#[derive(Debug, PartialEq, Eq, Clone, Copy)]
pub enum IoKind {
    NotFound,
    PermissionDenied,
    ConnectionRefused,
    ConnectionReset,
    ConnectionAborted,
    NotConnected,
    AddrInUse,
    AddrNotAvailable,
    BrokenPipe,
    TimedOut,
    WouldBlock,
    WriteZero,
    Interrupted,
    Other,
}

/// Errors that a transport layer can report.
#[derive(Debug, PartialEq, Eq, Clone, Copy)]
pub enum TransportError {
    /// The transport reached end-of-file or the like and can carry nothing
    /// more.
    EndOfFile,
    /// An operation timed out.
    TimedOut,
    /// The thread was interrupted while waiting.
    Interrupted,
    /// Received data could not be parsed.
    ParseError,
    /// Data to be sent could not be encoded.
    EncodeError,
    /// No payload handler was set before a send needed one.
    MissingCallback,
    /// The destination could not be found.
    NotFound,
    /// Any other input/output failure, passed through by kind.
    IOError(IoKind),
}

/// How an input/output failure classifies into the transport taxonomy:
/// a connection torn down is an end of file; a stalled operation is a
/// timeout; an interruption stays one; everything else passes through.
pub open spec fn io_error_class(kind: IoKind) -> TransportError {
    match kind {
        IoKind::ConnectionRefused => TransportError::EndOfFile,
        IoKind::ConnectionReset => TransportError::EndOfFile,
        IoKind::ConnectionAborted => TransportError::EndOfFile,
        IoKind::BrokenPipe => TransportError::EndOfFile,
        IoKind::TimedOut => TransportError::TimedOut,
        IoKind::WouldBlock => TransportError::TimedOut,
        IoKind::WriteZero => TransportError::TimedOut,
        IoKind::Interrupted => TransportError::Interrupted,
        _ => TransportError::IOError(kind),
    }
}

impl From<IoKind> for TransportError {
    /// Classifies an input/output failure kind.
    fn from(kind: IoKind) -> (r: TransportError) {
        match kind {
            IoKind::ConnectionRefused => TransportError::EndOfFile,
            IoKind::ConnectionReset => TransportError::EndOfFile,
            IoKind::ConnectionAborted => TransportError::EndOfFile,
            IoKind::BrokenPipe => TransportError::EndOfFile,
            IoKind::TimedOut => TransportError::TimedOut,
            IoKind::WouldBlock => TransportError::TimedOut,
            IoKind::WriteZero => TransportError::TimedOut,
            IoKind::Interrupted => TransportError::Interrupted,
            _ => TransportError::IOError(kind),
        }
    }
}

impl vstd::std_specs::convert::FromSpecImpl<IoKind> for TransportError {
    open spec fn obeys_from_spec() -> bool {
        true
    }

    open spec fn from_spec(kind: IoKind) -> TransportError {
        io_error_class(kind)
    }
}

/// Whether a failure on the server's read path only spoils the current
/// frame: the read loop skips such a frame and goes on; any other failure
/// ends that connection's read loop.
pub open spec fn read_transient(e: TransportError) -> bool {
    e == TransportError::TimedOut || e == TransportError::Interrupted || e
        == TransportError::ParseError
}

/// Something notified of each payload that arrives for a client: exactly
/// once per inbound message, with the text or with a transport error, which
/// is not by itself fatal.
pub trait PayloadHandler: Sized + Send + 'static {
    fn payload_received(&mut self, result: Result<String, TransportError>);
}

/// A transport a client sends payloads through.  `send` must not block:
/// delivery and any response are reported later through the payload handler.
pub trait ClientTransport: Sized + Send + 'static {
    fn set_payload_handler<H: PayloadHandler>(&mut self, handler: H);

    fn send(&mut self, payload: &str) -> Result<(), TransportError>;
}

/// Something that answers one inbound request text with an optional reply
/// text; no reply is how a notification's silence is expressed.
pub trait ServerCallback: Sized + Send + Sync + 'static {
    fn handle_request(&mut self, request: String) -> Option<String>;
}

/// A transport a server serves connections through: `run` blocks until the
/// underlying connection reaches end-of-stream or a fatal error.
pub trait ServerTransport: Sized + Send + 'static {
    fn set_callback<C: ServerCallback>(&mut self, callback: C);

    fn run(self);
}

} // verus!
