//! Types shared by every backing.
use vstd::prelude::*;

verus! {

#[verifier::external_type_specification]
#[verifier::external_body]
pub struct ExPathBuf(std::path::PathBuf);

#[verifier::external_type_specification]
#[verifier::external_body]
pub struct ExIoError(std::io::Error);

/// Possible errors while preparing a project directory or binding a listener.
#[derive(Debug)]
pub enum InitError {
    /// Expected a project folder, but instead was provided with a path that does not
    /// exist or is not a folder.
    NotAFolder(std::path::PathBuf),
    /// Could not canonicalize the provided project path.
    FailedToCanonicalizeProjectPath(std::path::PathBuf, std::io::Error),
    /// Could not create a folder.
    CreateDirError(std::path::PathBuf, std::io::Error),
    /// Failed to bind to address.
    TcpListenerBindError(std::io::Error),
}

/// Interruption signals that might possibly be received.
#[derive(Debug, Clone, Copy, PartialEq, Eq, Structural)]
pub enum InterruptSignals {
    /// A `SIGINT` signal was received.
    Interrupt,
    /// A `SIGTERM` signal was received.
    TerminationRequest,
    /// A generic interrupt signal was received.
    GenericInterruptSignal,
}

/// Return value on `try_recv_stream` success.
#[derive(Debug)]
pub enum TryRecvStreamResult {
    /// A new merge has been completed.
    NewCompleted(Vec<u8>),
    /// More pages might reside in the buffer, waiting to be merged. Will be returned
    /// whenever a page was obtained in that run of `try_recv_stream`.
    PotentiallyAvailable,
    /// Out of any accessible pages to merge for now. Will be returned whenever a page
    /// was unable to be obtained in that run of `try_recv_stream`.
    OutOfAccessible,
}

} // verus!
