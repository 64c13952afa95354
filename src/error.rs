use vstd::prelude::*;

verus! {

/// The classes of failure the input layer distinguishes.
#[derive(Debug, Clone, Copy, PartialEq, Eq, Structural)]
pub enum ErrorKind {
    /// The event source could not be initialised.
    SourceUnavailable,
    /// A wait was cancelled or interrupted; benign and retryable.
    Interrupted,
    /// The terminal did not answer a cursor-position query in time.
    CursorTimeout,
    /// Any other failure of the event source or the terminal.
    Other,
}

/// An error of the input layer: a kind and a human-readable message.
#[derive(Debug, Clone, PartialEq, Eq)]
pub struct Error {
    kind: ErrorKind,
    message: String,
}

impl Error {
    pub closed spec fn spec_kind(&self) -> ErrorKind {
        self.kind
    }

    pub closed spec fn spec_message(&self) -> Seq<char> {
        self.message@
    }

    pub fn new(kind: ErrorKind, message: &str) -> (r: Error)
        ensures
            r.spec_kind() == kind,
            r.spec_message() == message@,
    {
        Error { kind, message: message.to_owned() }
    }

    /// The error of a reader whose event source could not be initialised.
    pub fn source_unavailable() -> (r: Error)
        ensures
            r.spec_kind() == ErrorKind::SourceUnavailable,
    {
        Error::new(ErrorKind::SourceUnavailable, "Failed to initialize input reader")
    }

    pub fn kind(&self) -> (r: ErrorKind)
        ensures
            r == self.spec_kind(),
    {
        self.kind
    }

    pub fn message(&self) -> (r: &str)
        ensures
            r@ == self.spec_message(),
    {
        self.message.as_str()
    }

    pub fn is_interrupted(&self) -> (r: bool)
        ensures
            r == (self.spec_kind() == ErrorKind::Interrupted),
    {
        match self.kind {
            ErrorKind::Interrupted => true,
            _ => false,
        }
    }
}

} // verus!
