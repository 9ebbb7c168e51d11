//! The error taxonomy of the viewer protocol.  Every failure is returned to
//! the caller as a typed value; nothing is retried automatically except the
//! two bounded polling loops, which retry only "not yet available" reads.

use vstd::prelude::*;
use vstd::string::StringExecFns;
use crate::text::{append_dec_u64, spec_dec_u64};

verus! {

/// Errors that can occur when orchestrating a viewer process.
#[derive(Debug, Clone)]
pub enum ViewerError {
    /// The viewer binary could not be found.
    BinaryNotFound(String),
    /// The viewer process could not be started.
    SpawnFailed(String),
    /// The working area or the request artifact could not be created.
    ConfigWriteFailed(String),
    /// The result artifact never became readable within the retry budget.
    ResultReadFailed(String),
    /// The result artifact was readable but malformed, or its identity did
    /// not match the request.
    InvalidResponse(String),
    /// The two sides speak incompatible protocol versions.
    VersionMismatch { library: String, viewer: String, suggestion: String },
    /// The viewer timed out.
    Timeout,
    /// An I/O error occurred.
    IoError(String),
    /// The request could not be serialized.
    SerdeError(String),
    /// A live-update command was not acknowledged in time.
    CommandTimeout { seq: u64, timeout_secs: u64 },
    /// The viewer acknowledged a live-update command with a failure.
    CommandFailed(String),
    /// The request did not opt in to live updates.
    RefreshNotSupported(String),
}

/// The user-facing description of an error value.
pub open spec fn spec_message(e: ViewerError) -> Seq<char> {
    match e {
        ViewerError::BinaryNotFound(m) => "html_view_app binary not found: "@ + m@,
        ViewerError::SpawnFailed(m) => "failed to spawn html_view_app: "@ + m@,
        ViewerError::ConfigWriteFailed(m) => "failed to write configuration file: "@ + m@,
        ViewerError::ResultReadFailed(m) => "failed to read result file: "@ + m@,
        ViewerError::InvalidResponse(m) => "invalid response from viewer: "@ + m@,
        ViewerError::VersionMismatch { library, viewer, suggestion } => "protocol version mismatch: library v"@
            + library@ + ", viewer v"@ + viewer@ + ": "@ + suggestion@,
        ViewerError::Timeout => "viewer timed out"@,
        ViewerError::IoError(m) => "I/O error: "@ + m@,
        ViewerError::SerdeError(m) => "serialization error: "@ + m@,
        ViewerError::CommandTimeout { seq, timeout_secs } => "command "@ + spec_dec_u64(
            seq as int,
        ) + " timed out after "@ + spec_dec_u64(timeout_secs as int) + " seconds"@,
        ViewerError::CommandFailed(m) => "command failed: "@ + m@,
        ViewerError::RefreshNotSupported(m) => "refresh not supported: "@ + m@,
    }
}

impl ViewerError {
    /// The user-facing description of this error.
    pub fn message(&self) -> (r: String)
        ensures
            r@ == spec_message(*self),
    {
        match self {
            ViewerError::BinaryNotFound(m) => {
                let mut s = String::from_str("html_view_app binary not found: ");
                s.append(m.as_str());
                s
            },
            ViewerError::SpawnFailed(m) => {
                let mut s = String::from_str("failed to spawn html_view_app: ");
                s.append(m.as_str());
                s
            },
            ViewerError::ConfigWriteFailed(m) => {
                let mut s = String::from_str("failed to write configuration file: ");
                s.append(m.as_str());
                s
            },
            ViewerError::ResultReadFailed(m) => {
                let mut s = String::from_str("failed to read result file: ");
                s.append(m.as_str());
                s
            },
            ViewerError::InvalidResponse(m) => {
                let mut s = String::from_str("invalid response from viewer: ");
                s.append(m.as_str());
                s
            },
            ViewerError::VersionMismatch { library, viewer, suggestion } => {
                let mut s = String::from_str("protocol version mismatch: library v");
                s.append(library.as_str());
                s.append(", viewer v");
                s.append(viewer.as_str());
                s.append(": ");
                s.append(suggestion.as_str());
                assert(s@ =~= spec_message(*self));
                s
            },
            ViewerError::Timeout => String::from_str("viewer timed out"),
            ViewerError::IoError(m) => {
                let mut s = String::from_str("I/O error: ");
                s.append(m.as_str());
                s
            },
            ViewerError::SerdeError(m) => {
                let mut s = String::from_str("serialization error: ");
                s.append(m.as_str());
                s
            },
            ViewerError::CommandTimeout { seq, timeout_secs } => {
                let mut s = String::from_str("command ");
                append_dec_u64(&mut s, *seq);
                s.append(" timed out after ");
                append_dec_u64(&mut s, *timeout_secs);
                s.append(" seconds");
                assert(s@ =~= spec_message(*self));
                s
            },
            ViewerError::CommandFailed(m) => {
                let mut s = String::from_str("command failed: ");
                s.append(m.as_str());
                s
            },
            ViewerError::RefreshNotSupported(m) => {
                let mut s = String::from_str("refresh not supported: ");
                s.append(m.as_str());
                s
            },
        }
    }
}

} // verus!
