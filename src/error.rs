//! How errors that end or trouble a connection are reported.
use vstd::prelude::*;
use crate::handshake::DeserializerError;

verus! {

/// How loud an error is to be logged.
#[derive(Clone, Copy, Debug, PartialEq, Eq, Structural)]
pub enum Severity {
    Error,
    Warn,
    Info,
}

/// An error met while serving a client.
pub trait PumpkinError {
    /// Whether the client is to be kicked for it.
    fn is_kick(&self) -> bool;

    fn severity(&self) -> Severity;

    /// The reason shown to a kicked client, where there is one to show.
    fn client_kick_reason(&self) -> Option<String>;
}

/// A packet whose fields cannot be read is never trusted: the client is
/// kicked, and not told why.
impl PumpkinError for DeserializerError {
    fn is_kick(&self) -> bool {
        true
    }

    fn severity(&self) -> Severity {
        Severity::Error
    }

    fn client_kick_reason(&self) -> Option<String> {
        None
    }
}

} // verus!
