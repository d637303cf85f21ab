//! The closed error taxonomy of the library.
//!
//! Every failure path of the pipeline maps to exactly one of these values:
//! local validation failures surface before any request is constructed,
//! encoding failures before any network call, and a failed exchange becomes a
//! single server error for the whole call.

use vstd::prelude::*;

verus! {

/// An error of the request/response pipeline.
#[derive(Clone, Debug, PartialEq, Eq)]
pub enum CustomError {
    /// A local validation failure, raised before any network call.
    InvalidArgument(String),
    /// The outgoing body could not be encoded.
    SerializeErr(String),
    /// The compression step failed.
    GzipErr(String),
    /// The response bytes could not be decoded into the expected shape, or
    /// held an unrecognized status discriminator.
    DeserializeErr(String),
    /// A transport-level failure, or a non-success status code.
    ServerErr(String),
}

/// An error of message construction, raised by the builder's finalizer.
#[derive(Clone, Debug, PartialEq, Eq)]
pub enum ValidationError {
    /// The recipient list is empty or holds a malformed push token.
    InvalidToken,
    /// A free-form priority string is not one of "default", "normal", "high".
    InvalidPriority,
    /// A free-form sound string is not "default".
    InvalidSound,
}

impl CustomError {
    /// The human-readable description of the error.
    pub fn message(&self) -> (r: String)
        ensures
            r@ == self.message_spec(),
    {
        let (label, detail): (&str, &String) = match self {
            CustomError::InvalidArgument(s) => ("Invalid argument: ", s),
            CustomError::SerializeErr(s) => ("Serialize error: ", s),
            CustomError::GzipErr(s) => ("Gzip error: ", s),
            CustomError::DeserializeErr(s) => ("Deserialize error: ", s),
            CustomError::ServerErr(s) => ("Server error: ", s),
        };
        let mut r = label.to_owned();
        r.append(detail.as_str());
        r
    }

    /// What `message` returns: a fixed label followed by the carried detail.
    pub open spec fn message_spec(&self) -> Seq<char> {
        match self {
            CustomError::InvalidArgument(s) => "Invalid argument: "@ + s@,
            CustomError::SerializeErr(s) => "Serialize error: "@ + s@,
            CustomError::GzipErr(s) => "Gzip error: "@ + s@,
            CustomError::DeserializeErr(s) => "Deserialize error: "@ + s@,
            CustomError::ServerErr(s) => "Server error: "@ + s@,
        }
    }
}

impl ValidationError {
    /// The human-readable description of the error.
    pub fn message(&self) -> (r: String)
        ensures
            r@ == self.message_spec(),
    {
        let label: &str = match self {
            ValidationError::InvalidToken => "Invalid token",
            ValidationError::InvalidPriority => "Invalid priority",
            ValidationError::InvalidSound => "Invalid sound",
        };
        label.to_owned()
    }

    /// What `message` returns.
    pub open spec fn message_spec(&self) -> Seq<char> {
        match self {
            ValidationError::InvalidToken => "Invalid token"@,
            ValidationError::InvalidPriority => "Invalid priority"@,
            ValidationError::InvalidSound => "Invalid sound"@,
        }
    }
}

} // verus!
