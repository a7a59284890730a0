use vstd::prelude::*;

verus! {

/// The kind of an I/O failure, as the transport reports it.
#[derive(Debug, Clone, Copy, PartialEq, Eq, Structural)]
pub enum IoErrorKind {
    NotFound,
    PermissionDenied,
    ConnectionRefused,
    ConnectionReset,
    ConnectionAborted,
    NotConnected,
    AddrInUse,
    AddrNotAvailable,
    BrokenPipe,
    AlreadyExists,
    WouldBlock,
    InvalidInput,
    InvalidData,
    TimedOut,
    WriteZero,
    Interrupted,
    Unsupported,
    UnexpectedEof,
    OutOfMemory,
    Other,
}

/// An I/O failure: its kind and the transport's description of it.
#[derive(Debug, Clone, PartialEq, Eq)]
pub struct IoError {
    pub kind: IoErrorKind,
    pub message: String,
}

/// Every way a session operation can fail.
#[derive(Debug)]
#[allow(inconsistent_fields)]
pub enum NNTPError {
    Unknown,
    Io(IoError),
    ArticleUnavailable,
    FailedReadingArticle { error: IoError },
    FailedReadingResponse { error: IoError },
    FailedWritingRequest { error: IoError },
    FailedConnecting { error: Box<NNTPError>, expected: String },
    DecodingError,
    InvalidResponse { response: String },
    InvalidMessage { message: String, reason: String },
    ResponseCode { expected: isize, received: isize },
}

/// The kinds after which the connection is gone and a reconnect is needed.
pub open spec fn is_network_kind(k: IoErrorKind) -> bool {
    match k {
        IoErrorKind::ConnectionRefused
        | IoErrorKind::ConnectionReset
        | IoErrorKind::ConnectionAborted
        | IoErrorKind::BrokenPipe
        | IoErrorKind::NotConnected
        | IoErrorKind::TimedOut
        | IoErrorKind::WouldBlock
        | IoErrorKind::Interrupted
        | IoErrorKind::UnexpectedEof => true,
        _ => false,
    }
}

/// An error is a network error when it is an I/O error of a network kind.
pub open spec fn is_network(e: NNTPError) -> bool {
    match e {
        NNTPError::Io(err) => is_network_kind(err.kind),
        _ => false,
    }
}

/// Tells whether `error` means that the connection must be re-established.
pub fn check_network_error(error: NNTPError) -> (r: bool)
    ensures
        r == is_network(error),
{
    match error {
        NNTPError::Io(err) => check_io_network_error(&err),
        _ => false,
    }
}

/// Tells whether an I/O error is of a network kind.
pub fn check_io_network_error(err: &IoError) -> (r: bool)
    ensures
        r == is_network_kind(err.kind),
{
    match err.kind {
        IoErrorKind::ConnectionRefused
        | IoErrorKind::ConnectionReset
        | IoErrorKind::ConnectionAborted
        | IoErrorKind::BrokenPipe
        | IoErrorKind::NotConnected
        | IoErrorKind::TimedOut
        | IoErrorKind::WouldBlock
        | IoErrorKind::Interrupted
        | IoErrorKind::UnexpectedEof => true,
        _ => false,
    }
}

/// How a failed read of a status line or payload is reported.
pub open spec fn response_failure(error: IoError) -> NNTPError {
    if is_network_kind(error.kind) {
        NNTPError::Io(error)
    } else {
        NNTPError::FailedReadingResponse { error }
    }
}

/// How a failed write of a request is reported.
pub open spec fn write_failure(error: IoError) -> NNTPError {
    if is_network_kind(error.kind) {
        NNTPError::Io(error)
    } else {
        NNTPError::FailedWritingRequest { error }
    }
}

/// How a failure while exchanging an article is reported.
pub open spec fn article_failure(error: IoError) -> NNTPError {
    if is_network_kind(error.kind) {
        NNTPError::Io(error)
    } else {
        NNTPError::FailedReadingArticle { error }
    }
}

/// Wraps a read failure: `Io` for a network kind, else `FailedReadingResponse`.
pub fn response_error_or_network(error: IoError) -> (r: NNTPError)
    ensures
        r == response_failure(error),
{
    if check_io_network_error(&error) {
        return NNTPError::Io(error);
    }
    NNTPError::FailedReadingResponse { error }
}

/// Wraps a write failure: `Io` for a network kind, else `FailedWritingRequest`.
pub fn write_error_or_network(error: IoError) -> (r: NNTPError)
    ensures
        r == write_failure(error),
{
    if check_io_network_error(&error) {
        return NNTPError::Io(error);
    }
    NNTPError::FailedWritingRequest { error }
}

/// Wraps an article failure: `Io` for a network kind, else `FailedReadingArticle`.
pub fn article_error_or_network(error: IoError) -> (r: NNTPError)
    ensures
        r == article_failure(error),
{
    if check_io_network_error(&error) {
        return NNTPError::Io(error);
    }
    NNTPError::FailedReadingArticle { error }
}

/// Exactly the nine network kinds are classified as network errors, and only
/// an `Io` error can be one.
pub proof fn lemma_network_classification(e: NNTPError)
    ensures
        is_network(e) <==> (e is Io && (e->Io_0.kind == IoErrorKind::ConnectionRefused
            || e->Io_0.kind == IoErrorKind::ConnectionReset
            || e->Io_0.kind == IoErrorKind::ConnectionAborted
            || e->Io_0.kind == IoErrorKind::BrokenPipe
            || e->Io_0.kind == IoErrorKind::NotConnected
            || e->Io_0.kind == IoErrorKind::TimedOut
            || e->Io_0.kind == IoErrorKind::WouldBlock
            || e->Io_0.kind == IoErrorKind::Interrupted
            || e->Io_0.kind == IoErrorKind::UnexpectedEof)),
{
}

} // verus!
