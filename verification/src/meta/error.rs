//! Error type for HTTP metadata parsing and framing.
use vstd::prelude::*;
use vstd::string::StringExecFns;
use crate::header::error::HeaderError;
use crate::http_value::status::StatusCode;
use crate::start_line::error::StartLineError;
use crate::util::connection::ConnectionError;
use crate::util::encoding::EncodingError;

verus! {

/// Errors raised while parsing or framing HTTP metadata.
#[derive(Debug, Clone, PartialEq, Eq)]
#[non_exhaustive]
pub enum MetaError {
    /// A header line exceeded the per-line size limit.
    HeaderLineTooLong,
    /// The total header block exceeded the byte-size limit.
    HeadersTooLarge,
    /// The number of header lines exceeded the configured maximum.
    TooManyHeaders,
    /// A header line was structurally invalid (no `:`, illegal name, etc.).
    InvalidHeader,
    /// Content-Length and Transfer-Encoding both present — smuggling risk.
    ConflictingFraming,
    /// A start-line parse failure.
    StartLine(StartLineError),
    /// A header-level failure (bad value, overflow, unexpected duplicate).
    Header(HeaderError),
    /// A Transfer-Encoding or Content-Encoding header failed validation.
    Encoding(EncodingError),
    /// The Connection header failed validation.
    Connection(ConnectionError),
}

/// The inner error a wrapping variant of [`MetaError`] carries.
#[derive(Debug)]
pub enum MetaErrorSource<'a> {
    StartLine(&'a StartLineError),
    Header(&'a HeaderError),
    Encoding(&'a EncodingError),
    Connection(&'a ConnectionError),
}

impl MetaError {
    pub open spec fn spec_message(&self) -> Seq<char> {
        match self {
            MetaError::HeaderLineTooLong => "header line too long"@,
            MetaError::HeadersTooLarge => "header block too large"@,
            MetaError::TooManyHeaders => "too many headers"@,
            MetaError::InvalidHeader => "invalid header line"@,
            MetaError::ConflictingFraming => "Content-Length cannot be combined with Transfer-Encoding"@,
            MetaError::StartLine(e) => e.spec_message(),
            MetaError::Header(e) => e.spec_message(),
            MetaError::Encoding(e) => e.spec_message(),
            MetaError::Connection(e) => e.spec_message(),
        }
    }

    /// The human-readable description of the error; wrapping variants use
    /// the description of the inner error.
    pub fn to_string(&self) -> (r: String)
        ensures
            r@ == self.spec_message(),
    {
        match self {
            MetaError::HeaderLineTooLong => String::from_str("header line too long"),
            MetaError::HeadersTooLarge => String::from_str("header block too large"),
            MetaError::TooManyHeaders => String::from_str("too many headers"),
            MetaError::InvalidHeader => String::from_str("invalid header line"),
            MetaError::ConflictingFraming => String::from_str("Content-Length cannot be combined with Transfer-Encoding"),
            MetaError::StartLine(e) => e.to_string(),
            MetaError::Header(e) => e.to_string(),
            MetaError::Encoding(e) => e.to_string(),
            MetaError::Connection(e) => e.to_string(),
        }
    }

    /// The wrapped component error; `None` for the variants owned by this type.
    pub fn source(&self) -> (r: Option<MetaErrorSource<'_>>)
        ensures
            r is Some <==> (self is StartLine || self is Header || self is Encoding || self is Connection),
    {
        match self {
            MetaError::StartLine(e) => Some(MetaErrorSource::StartLine(e)),
            MetaError::Header(e) => Some(MetaErrorSource::Header(e)),
            MetaError::Encoding(e) => Some(MetaErrorSource::Encoding(e)),
            MetaError::Connection(e) => Some(MetaErrorSource::Connection(e)),
            _ => None,
        }
    }

    pub open spec fn spec_can_continue(&self) -> bool {
        match self {
            MetaError::StartLine(_) => true,
            MetaError::Header(e) => e.spec_can_continue(),
            MetaError::Encoding(_) => false,
            MetaError::Connection(_) => true,
            MetaError::HeaderLineTooLong | MetaError::HeadersTooLarge | MetaError::TooManyHeaders => false,
            MetaError::ConflictingFraming => false,
            MetaError::InvalidHeader => true,
        }
    }

    /// Whether the connection can continue after this error. Header
    /// boundary-loss variants force `false`; wrapped component variants
    /// delegate to the component's own policy.
    pub fn can_continue(&self) -> (r: bool)
        ensures
            r == self.spec_can_continue(),
    {
        match self {
            // A malformed field line: the message cannot be trusted any further.
            MetaError::StartLine(e) => e.can_continue(),
            MetaError::Header(e) => e.can_continue(),
            MetaError::Encoding(e) => e.can_continue(),
            MetaError::Connection(e) => e.can_continue(),
            // Header block boundary lost — cannot trust where the next request starts.
            MetaError::HeaderLineTooLong | MetaError::HeadersTooLarge | MetaError::TooManyHeaders => false,
            // Framing ambiguity — smuggling class.
            MetaError::ConflictingFraming => false,
            MetaError::InvalidHeader => true,
        }
    }

    pub open spec fn spec_status_code(&self) -> StatusCode {
        match self {
            MetaError::StartLine(e) => e.spec_status_code(),
            MetaError::HeaderLineTooLong | MetaError::HeadersTooLarge | MetaError::TooManyHeaders => StatusCode(431),
            _ => StatusCode(400),
        }
    }

    /// The status code a server answers this error with. Wrapped component
    /// variants delegate to the component's own mapping.
    pub fn status_code(&self) -> (r: StatusCode)
        ensures
            r == self.spec_status_code(),
    {
        match self {
            MetaError::StartLine(e) => e.status_code(),
            MetaError::Header(_) => StatusCode::BAD_REQUEST(),
            MetaError::Encoding(e) => e.status_code(),
            MetaError::Connection(e) => e.status_code(),
            MetaError::HeaderLineTooLong | MetaError::HeadersTooLarge | MetaError::TooManyHeaders => StatusCode::REQUEST_HEADER_FIELDS_TOO_LARGE(),
            MetaError::InvalidHeader | MetaError::ConflictingFraming => StatusCode::BAD_REQUEST(),
        }
    }
}

impl From<StartLineError> for MetaError {
    fn from(error: StartLineError) -> (r: Self) {
        MetaError::StartLine(error)
    }
}

impl vstd::std_specs::convert::FromSpecImpl<StartLineError> for MetaError {
    open spec fn obeys_from_spec() -> bool {
        true
    }

    open spec fn from_spec(error: StartLineError) -> Self {
        MetaError::StartLine(error)
    }
}

impl From<HeaderError> for MetaError {
    fn from(error: HeaderError) -> (r: Self) {
        MetaError::Header(error)
    }
}

impl vstd::std_specs::convert::FromSpecImpl<HeaderError> for MetaError {
    open spec fn obeys_from_spec() -> bool {
        true
    }

    open spec fn from_spec(error: HeaderError) -> Self {
        MetaError::Header(error)
    }
}

impl From<EncodingError> for MetaError {
    fn from(error: EncodingError) -> (r: Self) {
        MetaError::Encoding(error)
    }
}

impl vstd::std_specs::convert::FromSpecImpl<EncodingError> for MetaError {
    open spec fn obeys_from_spec() -> bool {
        true
    }

    open spec fn from_spec(error: EncodingError) -> Self {
        MetaError::Encoding(error)
    }
}

impl From<ConnectionError> for MetaError {
    fn from(error: ConnectionError) -> (r: Self) {
        MetaError::Connection(error)
    }
}

impl vstd::std_specs::convert::FromSpecImpl<ConnectionError> for MetaError {
    open spec fn obeys_from_spec() -> bool {
        true
    }

    open spec fn from_spec(error: ConnectionError) -> Self {
        MetaError::Connection(error)
    }
}

impl From<&MetaError> for StatusCode {
    /// The status code a server answers the error with.
    fn from(error: &MetaError) -> (r: Self) {
        error.status_code()
    }
}

impl vstd::std_specs::convert::FromSpecImpl<&MetaError> for StatusCode {
    open spec fn obeys_from_spec() -> bool {
        true
    }

    open spec fn from_spec(error: &MetaError) -> Self {
        error.spec_status_code()
    }
}

} // verus!
