//! Errors for HTTP start-line parsing.
use vstd::prelude::*;
use vstd::string::StringExecFns;
use crate::http_value::status::StatusCode;

verus! {

/// Errors raised while parsing a request or response start line.
#[derive(Debug, Clone, Copy, PartialEq, Eq, Structural)]
#[non_exhaustive]
pub enum StartLineError {
    /// Input line was empty or whitespace-only.
    Empty,
    /// The line could not be parsed as either a request or a response start line.
    Unrecognised,
    /// Response status code was not a parseable number.
    InvalidStatusCode,
    /// The HTTP version field is not syntactically valid, for example `HTTPX`.
    MalformedHttpVersion,
    /// The HTTP version is syntactically valid but unsupported by this parser or protocol implementation.
    UnsupportedHttpVersion,
    /// The request method is not a valid HTTP token.
    InvalidMethodToken,
}

impl StartLineError {
    pub open spec fn spec_message(&self) -> Seq<char> {
        match self {
            StartLineError::Empty => "start line is empty"@,
            StartLineError::Unrecognised => "start line could not be parsed"@,
            StartLineError::InvalidStatusCode => "response status code is not a number"@,
            StartLineError::MalformedHttpVersion => "HTTP version is malformed"@,
            StartLineError::UnsupportedHttpVersion => "HTTP version is not supported"@,
            StartLineError::InvalidMethodToken => "request method is not a valid HTTP token"@,
        }
    }

    /// The human-readable description of the error.
    pub fn to_string(&self) -> (r: String)
        ensures
            r@ == self.spec_message(),
    {
        match self {
            StartLineError::Empty => String::from_str("start line is empty"),
            StartLineError::Unrecognised => String::from_str("start line could not be parsed"),
            StartLineError::InvalidStatusCode => String::from_str("response status code is not a number"),
            StartLineError::MalformedHttpVersion => String::from_str("HTTP version is malformed"),
            StartLineError::UnsupportedHttpVersion => String::from_str("HTTP version is not supported"),
            StartLineError::InvalidMethodToken => String::from_str("request method is not a valid HTTP token"),
        }
    }

    /// A malformed start line means the request boundary is intact but the
    /// contents are garbage — respond with 400 and keep the socket.
    pub fn can_continue(&self) -> (r: bool)
        ensures
            r,
    {
        true
    }

    pub open spec fn spec_status_code(&self) -> StatusCode {
        match self {
            StartLineError::UnsupportedHttpVersion => StatusCode(505),
            _ => StatusCode(400),
        }
    }

    /// The status code a server answers this error with.
    pub fn status_code(&self) -> (r: StatusCode)
        ensures
            r == self.spec_status_code(),
    {
        match self {
            StartLineError::UnsupportedHttpVersion => StatusCode::HTTP_VERSION_NOT_SUPPORTED(),
            _ => StatusCode::BAD_REQUEST(),
        }
    }
}

impl From<&StartLineError> for StatusCode {
    /// The status code a server answers the error with.
    fn from(error: &StartLineError) -> (r: Self) {
        error.status_code()
    }
}

impl vstd::std_specs::convert::FromSpecImpl<&StartLineError> for StatusCode {
    open spec fn obeys_from_spec() -> bool {
        true
    }

    open spec fn from_spec(error: &StartLineError) -> Self {
        error.spec_status_code()
    }
}

} // verus!
