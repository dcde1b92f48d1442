//! Errors for header field-line syntax, header values and their uniqueness.
use vstd::prelude::*;
use vstd::string::StringExecFns;
use crate::http_value::status::StatusCode;

verus! {

/// Errors raised while parsing one raw HTTP header field line.
#[derive(Debug, Clone, PartialEq, Eq, Structural)]
#[non_exhaustive]
pub enum HeaderLineError {
    /// The field line did not contain a colon separator.
    MissingColon,
    /// The field name before the colon was empty.
    EmptyName,
    /// The field name was not a valid HTTP token.
    InvalidName,
    /// The field value contained a prohibited control byte.
    InvalidValue,
}

impl HeaderLineError {
    pub open spec fn spec_message(&self) -> Seq<char> {
        match self {
            HeaderLineError::MissingColon => "header line is missing ':'"@,
            HeaderLineError::EmptyName => "header field name is empty"@,
            HeaderLineError::InvalidName => "header field name is invalid"@,
            HeaderLineError::InvalidValue => "header field value is invalid"@,
        }
    }

    /// The human-readable description of the error.
    pub fn to_string(&self) -> (r: String)
        ensures
            r@ == self.spec_message(),
    {
        match self {
            HeaderLineError::MissingColon => String::from_str("header line is missing ':'"),
            HeaderLineError::EmptyName => String::from_str("header field name is empty"),
            HeaderLineError::InvalidName => String::from_str("header field name is invalid"),
            HeaderLineError::InvalidValue => String::from_str("header field value is invalid"),
        }
    }
}

/// Errors raised while validating a header value or its uniqueness.
///
/// The name payload is a `String`; sanitize before surfacing error text to
/// external systems as it may carry wire-supplied bytes.
#[derive(Debug, Clone, PartialEq, Eq)]
#[non_exhaustive]
pub enum HeaderError {
    /// A raw header field-line failed syntax validation.
    ParseError(HeaderLineError),
    /// A header value failed validation for its declared type.
    InvalidHeaderValue(String),
    /// A numeric header value parsed but overflowed its target type.
    HeaderValueOverflow(String),
    /// A header that must appear at most once appeared more than once.
    MultipleValues(String),
    /// A header that was required by the caller was not present.
    Missing(String),
}

impl HeaderError {
    pub open spec fn spec_message(&self) -> Seq<char> {
        match self {
            HeaderError::ParseError(e) => e.spec_message(),
            HeaderError::InvalidHeaderValue(n) => "invalid "@ + n@ + " header value"@,
            HeaderError::HeaderValueOverflow(n) => n@ + " header value overflowed"@,
            HeaderError::MultipleValues(n) => "multiple "@ + n@ + " header values"@,
            HeaderError::Missing(n) => "required "@ + n@ + " header is missing"@,
        }
    }

    /// The human-readable description of the error.
    pub fn to_string(&self) -> (r: String)
        ensures
            r@ == self.spec_message(),
    {
        match self {
            HeaderError::ParseError(e) => e.to_string(),
            HeaderError::InvalidHeaderValue(n) => {
                let mut s = String::from_str("invalid ");
                s.append(n.as_str());
                s.append(" header value");
                s
            },
            HeaderError::HeaderValueOverflow(n) => {
                let mut s = n.clone();
                s.append(" header value overflowed");
                s
            },
            HeaderError::MultipleValues(n) => {
                let mut s = String::from_str("multiple ");
                s.append(n.as_str());
                s.append(" header values");
                s
            },
            HeaderError::Missing(n) => {
                let mut s = String::from_str("required ");
                s.append(n.as_str());
                s.append(" header is missing");
                s
            },
        }
    }

    /// The wrapped field-line error, the only variant with an inner cause.
    pub fn source(&self) -> (r: Option<&HeaderLineError>)
        ensures
            r == (match self {
                HeaderError::ParseError(e) => Some(e),
                _ => None,
            }),
    {
        match self {
            HeaderError::ParseError(e) => Some(e),
            _ => None,
        }
    }

    pub open spec fn spec_can_continue(&self) -> bool {
        !(self is ParseError)
    }

    /// Header field-line parse failures fail closed. Header-value failures
    /// don't lose reader sync — the socket can carry on. Both map to 400.
    pub fn can_continue(&self) -> (r: bool)
        ensures
            r == self.spec_can_continue(),
    {
        !matches!(self, HeaderError::ParseError(_))
    }
}

/// `e` reports the header `name` as missing.
pub open spec fn is_missing(e: HeaderError, name: Seq<char>) -> bool {
    e matches HeaderError::Missing(n) && n@ == name
}

/// `e` reports the header `name` as holding several values.
pub open spec fn is_multiple_values(e: HeaderError, name: Seq<char>) -> bool {
    e matches HeaderError::MultipleValues(n) && n@ == name
}

/// `e` reports the value of the header `name` as invalid.
pub open spec fn is_invalid_value(e: HeaderError, name: Seq<char>) -> bool {
    e matches HeaderError::InvalidHeaderValue(n) && n@ == name
}

/// `e` reports the value of the header `name` as out of range.
pub open spec fn is_overflow(e: HeaderError, name: Seq<char>) -> bool {
    e matches HeaderError::HeaderValueOverflow(n) && n@ == name
}

impl From<HeaderLineError> for HeaderError {
    fn from(error: HeaderLineError) -> (r: Self) {
        HeaderError::ParseError(error)
    }
}

impl vstd::std_specs::convert::FromSpecImpl<HeaderLineError> for HeaderError {
    open spec fn obeys_from_spec() -> bool {
        true
    }

    open spec fn from_spec(error: HeaderLineError) -> Self {
        HeaderError::ParseError(error)
    }
}

impl From<&HeaderError> for StatusCode {
    /// Every header failure is answered with 400.
    fn from(_error: &HeaderError) -> (r: Self) {
        StatusCode::BAD_REQUEST()
    }
}

impl vstd::std_specs::convert::FromSpecImpl<&HeaderError> for StatusCode {
    open spec fn obeys_from_spec() -> bool {
        true
    }

    open spec fn from_spec(_error: &HeaderError) -> Self {
        StatusCode(400)
    }
}

} // verus!
