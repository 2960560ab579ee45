//! The library's error type and the process exit status each error maps to.

use vstd::prelude::*;

use crate::text;

verus! {

/// Everything that can go wrong talking to a JMAP server or validating a request.
#[derive(Debug, Clone)]
pub enum Error {
    /// A local I/O failure, with its description.
    Io(String),
    /// A transport failure (connection, TLS, non-success HTTP status), with its description.
    Http(String),
    /// A malformed JSON document, with its description.
    Json(String),
    /// A JMAP method-level failure.
    Jmap { method: String, message: String },
    /// A request whose parameters the library refuses.
    InvalidParams(String),
    /// No API token could be found.
    MissingToken,
}

/// The text an error displays.
pub open spec fn error_text(e: Error) -> Seq<char> {
    match e {
        Error::Io(s) => "IO error: "@ + s@,
        Error::Http(s) => "HTTP error: "@ + s@,
        Error::Json(s) => "JSON error: "@ + s@,
        Error::Jmap { method, message } => "JMAP error in "@ + method@ + ": "@ + message@,
        Error::InvalidParams(s) => "invalid params: "@ + s@,
        Error::MissingToken => "FASTMAIL_API_TOKEN environment variable not set"@,
    }
}

/// The process exit status for an error: 1 for a startup failure, 2 for invalid
/// arguments, 3 for an API failure.
pub open spec fn exit_status(e: Error) -> i32 {
    match e {
        Error::MissingToken => 1,
        Error::InvalidParams(_) => 2,
        Error::Jmap { .. } => 3,
        Error::Http(_) => 3,
        Error::Io(_) => 1,
        Error::Json(_) => 1,
    }
}

impl Error {
    /// The text this error displays.
    pub fn message(&self) -> (r: String)
        ensures
            r@ == error_text(*self),
    {
        match self {
            Error::Io(s) => text::concat("IO error: ", s.as_str()),
            Error::Http(s) => text::concat("HTTP error: ", s.as_str()),
            Error::Json(s) => text::concat("JSON error: ", s.as_str()),
            Error::Jmap { method, message } => {
                let head = text::concat3("JMAP error in ", method.as_str(), ": ");
                text::concat(head.as_str(), message.as_str())
            },
            Error::InvalidParams(s) => text::concat("invalid params: ", s.as_str()),
            Error::MissingToken => text::own("FASTMAIL_API_TOKEN environment variable not set"),
        }
    }

    /// A JMAP method-level failure of `method` with `message`.
    pub fn jmap(method: &str, message: &str) -> (r: Error)
        ensures
            r matches Error::Jmap { method: m, message: g } && m@ == method@ && g@ == message@,
    {
        Error::Jmap { method: text::own(method), message: text::own(message) }
    }

    /// A refused request, explained by `message`.
    pub fn invalid(message: &str) -> (r: Error)
        ensures
            r matches Error::InvalidParams(m) && m@ == message@,
    {
        Error::InvalidParams(text::own(message))
    }
}

/// Map an error to the process exit status.
pub fn exit_code(e: &Error) -> (r: i32)
    ensures
        r == exit_status(*e),
{
    match e {
        Error::MissingToken => 1,
        Error::InvalidParams(_) => 2,
        Error::Jmap { .. } => 3,
        Error::Http(_) => 3,
        Error::Io(_) => 1,
        Error::Json(_) => 1,
    }
}

} // verus!
