//! Closed error taxonomy and its mapping to the wire format.
//!
//! Every failure in the pipeline is one of these kinds.  At the single
//! boundary where an error leaves the system it is turned into a
//! `{code, message}` body with a matching HTTP status; server-class
//! errors are additionally reported to an external collaborator by the
//! composition root.

use vstd::prelude::*;

verus! {

/// The closed set of failure kinds of the pipeline.
pub enum Error {
    /// Client-caused: oversized body, undecodable compression, malformed
    /// id or path.  Never retried.
    BadRequest(String),
    /// Decompressed content failed structural validation.  Carries the
    /// human-readable reason and the offending text; routed to its own
    /// monitoring channel.  Never retried.
    InvalidPaste(String, String),
    /// Unknown identifier at read time.  Carries the requested id.
    NotFound(String),
    /// Backend failure that survived the retry budget.
    StorageError(String),
    /// Anything unanticipated.
    InternalError(String),
}

impl Error {
    /// The HTTP status code this error is serialized with.
    pub open spec fn spec_code(&self) -> u16 {
        match self {
            Error::BadRequest(_) => 400,
            Error::InvalidPaste(_, _) => 400,
            Error::NotFound(_) => 404,
            Error::StorageError(_) => 502,
            Error::InternalError(_) => 500,
        }
    }

    /// Server-class errors are forwarded to the external error reporter;
    /// client-caused errors are not.
    pub open spec fn spec_is_server_class(&self) -> bool {
        self.spec_code() >= 500
    }

    pub fn code(&self) -> (c: u16)
        ensures
            c == self.spec_code(),
    {
        match self {
            Error::BadRequest(_) => 400,
            Error::InvalidPaste(_, _) => 400,
            Error::NotFound(_) => 404,
            Error::StorageError(_) => 502,
            Error::InternalError(_) => 500,
        }
    }

    pub fn is_server_class(&self) -> (b: bool)
        ensures
            b == self.spec_is_server_class(),
    {
        self.code() >= 500
    }

    /// The short message exposed to the client.  No internal diagnostic
    /// detail beyond this string is ever serialized.
    pub open spec fn spec_message(&self) -> Seq<char> {
        match self {
            Error::BadRequest(m) => m@,
            Error::InvalidPaste(m, _) => m@,
            Error::NotFound(_) => "not found"@,
            Error::StorageError(m) => m@,
            Error::InternalError(m) => m@,
        }
    }

    pub fn message(&self) -> (m: String)
        ensures
            m@ == self.spec_message(),
    {
        match self {
            Error::BadRequest(m) => m.clone(),
            Error::InvalidPaste(m, _) => m.clone(),
            Error::NotFound(_) => "not found".to_owned(),
            Error::StorageError(m) => m.clone(),
            Error::InternalError(m) => m.clone(),
        }
    }
}

/// The uniform wire shape of a terminal error: the HTTP status and the
/// message, serialized as `{"code": <int>, "message": <string>}`.
pub struct ErrorResponse {
    pub code: u16,
    pub message: String,
}

impl ErrorResponse {
    /// Normalizes an error to its wire shape: status code per kind, the
    /// short client-visible message, nothing else.
    pub fn from_error(err: &Error) -> (r: ErrorResponse)
        ensures
            r.code == err.spec_code(),
            r.message@ == err.spec_message(),
    {
        ErrorResponse { code: err.code(), message: err.message() }
    }
}

} // verus!
