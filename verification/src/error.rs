//! Project-wide error type.
use vstd::prelude::*;
use crate::text::{decimal, decimal_string};

verus! {

/// All errors in the library.
#[derive(Debug)]
pub enum Error {
    /// HTTP request failed.
    Http(ureq::Error),
    /// JSON serialization/deserialization failed.
    Json(serde_json::Error),
    /// IO operation failed.
    Io(std::io::Error),
    /// Provider returned an error response.
    Provider { status: u16, message: String },
    /// Missing required configuration.
    Config { field: String },
    /// Embedding dimension mismatch.
    DimensionMismatch { expected: usize, got: usize },
}

/// The text of an error whose every part is the library's own.
pub open spec fn own_error_text(e: Error) -> Seq<char> {
    match e {
        Error::Provider { status, message } => "provider error ("@ + decimal(status as nat) + "): "@
            + message@,
        Error::Config { field } => "missing config: "@ + field@,
        Error::DimensionMismatch { expected, got } => "dimension mismatch: expected "@ + decimal(
            expected as nat,
        ) + ", got "@ + decimal(got as nat),
        _ => Seq::empty(),
    }
}

/// The fixed beginning of the text of an error that wraps an outside error.
pub open spec fn wrapped_error_prefix(e: Error) -> Seq<char> {
    match e {
        Error::Http(_) => "HTTP error: "@,
        Error::Json(_) => "JSON error: "@,
        Error::Io(_) => "IO error: "@,
        _ => Seq::empty(),
    }
}

/// Whether the error wraps an error of an outside crate or of std, whose
/// text follows the prefix.
pub open spec fn wraps_outside_error(e: Error) -> bool {
    e is Http || e is Json || e is Io
}

impl Error {
    /// The human-readable text of the error.  That of a wrapped error is
    /// its prefix followed by the wrapped error's own `Display` text.
    pub fn to_string(&self) -> (s: String)
        ensures
            !wraps_outside_error(*self) ==> s@ == own_error_text(*self),
            self matches Error::Http(e) ==> exists|t: String|
                vstd::string::to_string_from_display_ensures::<ureq::Error>(&e, t) && s@
                    == wrapped_error_prefix(*self) + t@,
            self matches Error::Json(e) ==> exists|t: String|
                vstd::string::to_string_from_display_ensures::<serde_json::Error>(&e, t) && s@
                    == wrapped_error_prefix(*self) + t@,
            self matches Error::Io(e) ==> exists|t: String|
                vstd::string::to_string_from_display_ensures::<std::io::Error>(&e, t) && s@
                    == wrapped_error_prefix(*self) + t@,
    {
        proof {
            reveal_strlit("HTTP error: ");
            reveal_strlit("JSON error: ");
            reveal_strlit("IO error: ");
        }
        match self {
            Error::Http(e) => {
                let mut s = String::from_str("HTTP error: ");
                let inner = e.to_string();
                s.append(inner.as_str());
                s
            },
            Error::Json(e) => {
                let mut s = String::from_str("JSON error: ");
                let inner = e.to_string();
                s.append(inner.as_str());
                s
            },
            Error::Io(e) => {
                let mut s = String::from_str("IO error: ");
                let inner = e.to_string();
                s.append(inner.as_str());
                s
            },
            Error::Provider { status, message } => {
                let mut s = String::from_str("provider error (");
                let code = decimal_string(*status as u64);
                s.append(code.as_str());
                s.append("): ");
                s.append(message.as_str());
                s
            },
            Error::Config { field } => {
                let mut s = String::from_str("missing config: ");
                s.append(field.as_str());
                s
            },
            Error::DimensionMismatch { expected, got } => {
                let mut s = String::from_str("dimension mismatch: expected ");
                let e = decimal_string(*expected as u64);
                s.append(e.as_str());
                s.append(", got ");
                let g = decimal_string(*got as u64);
                s.append(g.as_str());
                s
            },
        }
    }
}

impl From<ureq::Error> for Error {
    fn from(e: ureq::Error) -> (r: Self) {
        Error::Http(e)
    }
}

impl vstd::std_specs::convert::FromSpecImpl<ureq::Error> for Error {
    open spec fn obeys_from_spec() -> bool {
        true
    }

    open spec fn from_spec(e: ureq::Error) -> Self {
        Error::Http(e)
    }
}

impl From<serde_json::Error> for Error {
    fn from(e: serde_json::Error) -> (r: Self) {
        Error::Json(e)
    }
}

impl vstd::std_specs::convert::FromSpecImpl<serde_json::Error> for Error {
    open spec fn obeys_from_spec() -> bool {
        true
    }

    open spec fn from_spec(e: serde_json::Error) -> Self {
        Error::Json(e)
    }
}

impl From<std::io::Error> for Error {
    fn from(e: std::io::Error) -> (r: Self) {
        Error::Io(e)
    }
}

impl vstd::std_specs::convert::FromSpecImpl<std::io::Error> for Error {
    open spec fn obeys_from_spec() -> bool {
        true
    }

    open spec fn from_spec(e: std::io::Error) -> Self {
        Error::Io(e)
    }
}

} // verus!
