use vstd::prelude::*;

verus! {

/// The error kinds of the crate. Each variant carries only the plain values
/// its message needs; the caller renders them for the user.
#[derive(Debug, Clone, PartialEq, Eq)]
pub enum GrabError {
    /// Filesystem or process I/O failed.
    Io(String),
    /// A registry or manifest body could not be decoded.
    Parse(String),
    /// A registry lookup missed.
    NotFound(String),
    /// Validation of app fields or user input failed.
    InvalidInput(String),
    /// A network request failed or returned a non-success status.
    Http(String),
    /// An input held no dotted version triplet.
    InvalidRegexInput(String),
    /// A local process exited with a non-zero status.
    CommandFailed { command: String, exit_code: i32, stderr: String },
    /// A concurrent unit of work was cancelled or panicked.
    TaskJoin(String),
    /// No release asset name matched the configured pattern.
    AssetNotFound(String),
}

} // verus!
