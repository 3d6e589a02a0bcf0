//! The library's error type.

use vstd::prelude::*;

verus! {

/// An error of a memory-store operation, carrying a human readable message.
#[derive(Debug, Clone, PartialEq, Eq)]
pub enum Error {
    InvalidConfig(String),
    InvalidRequest(String),
    Conflict(String),
    Unsupported(String),
    Backend(String),
}

/// The kind of an [`Error`], without its message.
#[derive(Debug, Clone, Copy, PartialEq, Eq, Structural)]
pub enum ErrorKind {
    InvalidConfig,
    InvalidRequest,
    Conflict,
    Unsupported,
    Backend,
}

/// The text of an error of `kind` with `message`: a prefix naming the kind,
/// then the message.
pub open spec fn spec_error_text(kind: ErrorKind, message: Seq<char>) -> Seq<char> {
    match kind {
        ErrorKind::InvalidConfig => "invalid config: "@ + message,
        ErrorKind::InvalidRequest => "invalid request: "@ + message,
        ErrorKind::Conflict => "conflict: "@ + message,
        ErrorKind::Unsupported => "unsupported: "@ + message,
        ErrorKind::Backend => "backend error: "@ + message,
    }
}

impl Error {
    pub open spec fn spec_kind(&self) -> ErrorKind {
        match self {
            Error::InvalidConfig(_) => ErrorKind::InvalidConfig,
            Error::InvalidRequest(_) => ErrorKind::InvalidRequest,
            Error::Conflict(_) => ErrorKind::Conflict,
            Error::Unsupported(_) => ErrorKind::Unsupported,
            Error::Backend(_) => ErrorKind::Backend,
        }
    }

    /// Whether this error is of `kind` and carries `message`.
    pub open spec fn spec_is(&self, kind: ErrorKind, message: Seq<char>) -> bool {
        self.spec_kind() == kind && self.spec_message() == message
    }

    /// The message an error carries.
    pub open spec fn spec_message(&self) -> Seq<char> {
        match self {
            Error::InvalidConfig(m) => m@,
            Error::InvalidRequest(m) => m@,
            Error::Conflict(m) => m@,
            Error::Unsupported(m) => m@,
            Error::Backend(m) => m@,
        }
    }

    /// The text an error is shown as: a prefix naming its kind, then the message.
    pub open spec fn spec_to_string(&self) -> Seq<char> {
        match self {
            Error::InvalidConfig(m) => "invalid config: "@ + m@,
            Error::InvalidRequest(m) => "invalid request: "@ + m@,
            Error::Conflict(m) => "conflict: "@ + m@,
            Error::Unsupported(m) => "unsupported: "@ + m@,
            Error::Backend(m) => "backend error: "@ + m@,
        }
    }

    /// Renders the error as text.
    pub fn to_string(&self) -> (r: String)
        ensures
            r@ == self.spec_to_string(),
            r@ == spec_error_text(self.spec_kind(), self.spec_message()),
    {
        let (prefix, message) = match self {
            Error::InvalidConfig(m) => ("invalid config: ", m),
            Error::InvalidRequest(m) => ("invalid request: ", m),
            Error::Conflict(m) => ("conflict: ", m),
            Error::Unsupported(m) => ("unsupported: ", m),
            Error::Backend(m) => ("backend error: ", m),
        };
        let mut out = String::from_str(prefix);
        out.append(message.as_str());
        out
    }
}

} // verus!
