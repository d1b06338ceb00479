//! Error types for qork.
//!
//! Small surface: a bad URL, an API/network failure, or local I/O. Messages
//! are written for an end user reading them in a terminal.
use vstd::prelude::*;

use crate::text::join2;

verus! {

/// `std::io::Error`, carried by [`AppError::Io`].
#[verifier::external_type_specification]
#[verifier::external_body]
pub struct ExIoError(std::io::Error);

/// Result alias used throughout the crate.
pub type Result<T> = std::result::Result<T, AppError>;

#[derive(Debug)]
pub enum AppError {
    /// The URL failed a client-side check before we ever called the server.
    InvalidUrl(String),
    /// The API returned an error, or we couldn't reach / parse it. The string
    /// is already user-facing (often the server's own `error` message).
    Api(String),
    /// Local I/O failed (e.g. removing the binary during uninstall).
    Io(std::io::Error),
}

impl AppError {
    pub fn invalid_url(message: &str) -> (e: Self)
        ensures
            e matches AppError::InvalidUrl(m) && m@ == message@,
    {
        AppError::InvalidUrl(String::from_str(message))
    }

    pub fn api(message: &str) -> (e: Self)
        ensures
            e matches AppError::Api(m) && m@ == message@,
    {
        AppError::Api(String::from_str(message))
    }

    /// The user-facing text of the error (what the error prints as).
    pub fn message(&self) -> (s: String)
        ensures
            self matches AppError::InvalidUrl(m) ==> s@ == "invalid URL: "@ + m@,
            self matches AppError::Api(m) ==> s@ == m@,
            self is Io ==> "I/O error: "@.is_prefix_of(s@),
    {
        match self {
            AppError::InvalidUrl(m) => join2("invalid URL: ", m.as_str()),
            AppError::Api(m) => String::from_str(m.as_str()),
            AppError::Io(e) => {
                let t = io_error_to_string(e);
                let r = join2("I/O error: ", t.as_str());
                assert("I/O error: "@ =~= r@.subrange(0, "I/O error: "@.len() as int));
                r
            },
        }
    }
}

/// Formats a `std::io::Error` with its `Display` impl (`format!("{e}")`).
/// Nothing is claimed of the text: it comes from the operating system's
/// error descriptions.
#[verifier::external_body]
fn io_error_to_string(e: &std::io::Error) -> String {
    format!("{e}")
}

impl From<std::io::Error> for AppError {
    fn from(e: std::io::Error) -> (r: Self)
        ensures
            r matches AppError::Io(x) && x == e,
    {
        AppError::Io(e)
    }
}

impl vstd::std_specs::convert::FromSpecImpl<std::io::Error> for AppError {
    open spec fn obeys_from_spec() -> bool {
        true
    }

    open spec fn from_spec(e: std::io::Error) -> Self {
        AppError::Io(e)
    }
}

} // verus!
