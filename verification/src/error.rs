//! The error kinds every operation of the library reports.

use vstd::prelude::*;
use vstd::string::*;

verus! {

/// What went wrong, by class.
#[derive(Clone, Copy, Debug, PartialEq, Eq, Structural)]
pub enum ErrorKind {
    /// The transport could not reach or keep the peer.
    Connection,
    /// A credential was rejected, or the profile lacks the secret it declares.
    Authentication,
    /// The channel, the terminal or the shell request was turned down.
    ChannelSetup,
    /// No live session carries the identifier.
    SessionNotFound,
    /// A remote file operation failed.
    RemoteOperation,
    /// The local file system failed.
    Io,
    /// A local path could not be observed.
    WatchSetup,
}

/// An error: its kind and a text for people.
#[derive(Clone, Debug)]
pub struct SshError {
    pub kind: ErrorKind,
    pub message: String,
}

impl SshError {
    /// Whether this error has the given kind and text.
    pub open spec fn is(&self, kind: ErrorKind, message: Seq<char>) -> bool {
        self.kind == kind && self.message@ == message
    }

    /// An error with the given text.
    pub fn new(kind: ErrorKind, message: &str) -> (e: SshError)
        ensures
            e.is(kind, message@),
    {
        SshError { kind, message: message.to_owned() }
    }

    /// An error whose text is `prefix` followed by `detail`.
    pub fn with_detail(kind: ErrorKind, prefix: &str, detail: &str) -> (e: SshError)
        ensures
            e.is(kind, prefix@ + detail@),
    {
        SshError { kind, message: prefix.to_owned().concat(detail) }
    }

    /// The error every session-addressed operation gives for an identifier
    /// that the registry does not hold.
    pub fn session_not_found() -> (e: SshError)
        ensures
            e.is(ErrorKind::SessionNotFound, "Session not found"@),
    {
        SshError::new(ErrorKind::SessionNotFound, "Session not found")
    }

    /// The text of the error.
    pub fn text(&self) -> (r: String)
        ensures
            r@ == self.message@,
    {
        self.message.clone()
    }
}

} // verus!
