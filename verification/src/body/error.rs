//! HTTP-body processing errors.
use vstd::prelude::*;
use vstd::string::StringExecFns;
use crate::http_value::status::StatusCode;
use crate::meta::error::MetaError;
use crate::util::encoding::EncodingError;

verus! {

/// Errors raised while decoding a chunked-transfer body at read time.
#[derive(Debug, Clone, Copy, PartialEq, Eq, Structural)]
#[non_exhaustive]
pub enum ChunkingError {
    /// Chunk size line exceeded the configured per-line limit.
    LineTooLong,
    /// Chunk size was not valid hex.
    InvalidSize,
    /// Chunk data was not terminated by CRLF.
    InvalidTerminator,
}

impl ChunkingError {
    pub open spec fn spec_message(&self) -> Seq<char> {
        match self {
            ChunkingError::LineTooLong => "chunk size line exceeds maximum length"@,
            ChunkingError::InvalidSize => "invalid chunk size"@,
            ChunkingError::InvalidTerminator => "invalid chunk terminator"@,
        }
    }

    /// The human-readable description of the error.
    pub fn to_string(&self) -> (r: String)
        ensures
            r@ == self.spec_message(),
    {
        match self {
            ChunkingError::LineTooLong => String::from_str("chunk size line exceeds maximum length"),
            ChunkingError::InvalidSize => String::from_str("invalid chunk size"),
            ChunkingError::InvalidTerminator => String::from_str("invalid chunk terminator"),
        }
    }

    /// Chunked framing violations force the socket to close: once the byte
    /// stream is out of step the next request boundary cannot be trusted.
    pub fn can_continue(&self) -> (r: bool)
        ensures
            !r,
    {
        false
    }

    /// The status code a server answers this error with.
    pub fn status_code(&self) -> (r: StatusCode)
        ensures
            r == StatusCode(400),
    {
        StatusCode::BAD_REQUEST()
    }
}

/// Applying a content coding to a body failed.
#[derive(Debug, Clone, PartialEq, Eq)]
#[non_exhaustive]
pub enum CompressionError {
    /// The named content coding is not one this library applies.
    UnsupportedCoding(String),
}

impl CompressionError {
    pub open spec fn spec_message(&self) -> Seq<char> {
        match self {
            CompressionError::UnsupportedCoding(c) => "unsupported content coding: "@ + c@,
        }
    }

    /// The human-readable description of the error.
    pub fn to_string(&self) -> (r: String)
        ensures
            r@ == self.spec_message(),
    {
        match self {
            CompressionError::UnsupportedCoding(c) => {
                let mut s = String::from_str("unsupported content coding: ");
                s.append(c.as_str());
                s
            },
        }
    }

    /// The body was read in full; the connection can carry on.
    pub fn can_continue(&self) -> (r: bool)
        ensures
            r,
    {
        true
    }

    /// An unsupported content coding is answered with 415.
    pub fn status_code(&self) -> (r: StatusCode)
        ensures
            r == StatusCode(415),
    {
        StatusCode::UNSUPPORTED_MEDIA_TYPE()
    }
}

/// An error produced while parsing or extracting an HTTP body.
#[derive(Debug, Clone, PartialEq, Eq)]
#[non_exhaustive]
pub enum BodyError {
    /// A required request body was not supplied.
    Missing,
    /// The body exceeds the configured size limit.
    TooLarge,
    /// The request did not include a Content-Type header.
    MissingContentType,
    /// The supplied Content-Type does not match the requested extraction.
    /// Contains the normalized Content-Type received from the request.
    UnsupportedContentType(String),
    /// The body is not valid UTF-8.
    InvalidUtf8,
    /// The body is not valid JSON. Details must not contain body contents.
    InvalidJson(String),
    /// The body is not a valid URL-encoded form.
    InvalidForm(String),
    /// The body is not valid multipart form data.
    InvalidMultipart(String),
    /// The body ended before the declared representation was complete.
    IncompleteBody,
    /// The content coding of the body could not be applied or removed.
    InvalidEncoding,
    /// A Transfer-Encoding / Content-Encoding header failed validation.
    Encoding(EncodingError),
    /// Applying a content coding to the body payload failed.
    Compression(CompressionError),
    /// Chunked transfer-encoding framing was violated at body-read time.
    Chunking(ChunkingError),
}

/// The inner error a wrapping variant of [`BodyError`] carries.
#[derive(Debug)]
pub enum BodyErrorSource<'a> {
    Encoding(&'a EncodingError),
    Compression(&'a CompressionError),
    Chunking(&'a ChunkingError),
}

impl BodyError {
    pub open spec fn spec_message(&self) -> Seq<char> {
        match self {
            BodyError::Missing => "request body is missing"@,
            BodyError::TooLarge => "request body is too large"@,
            BodyError::MissingContentType => "request body Content-Type is missing"@,
            BodyError::UnsupportedContentType(a) => "unsupported request body Content-Type: "@ + a@,
            BodyError::InvalidUtf8 => "request body is not valid UTF-8"@,
            BodyError::InvalidJson(d) => "request body contains invalid JSON: "@ + d@,
            BodyError::InvalidForm(d) => "request body contains an invalid form: "@ + d@,
            BodyError::InvalidMultipart(d) => "request body contains invalid multipart data: "@ + d@,
            BodyError::IncompleteBody => "request body is incomplete"@,
            BodyError::InvalidEncoding => "request body content coding could not be applied"@,
            BodyError::Encoding(e) => e.spec_message(),
            BodyError::Compression(e) => e.spec_message(),
            BodyError::Chunking(e) => e.spec_message(),
        }
    }

    /// The human-readable description of the error; wrapping variants use
    /// the description of the inner error.
    pub fn to_string(&self) -> (r: String)
        ensures
            r@ == self.spec_message(),
    {
        match self {
            BodyError::Missing => String::from_str("request body is missing"),
            BodyError::TooLarge => String::from_str("request body is too large"),
            BodyError::MissingContentType => String::from_str("request body Content-Type is missing"),
            BodyError::UnsupportedContentType(a) => {
                let mut s = String::from_str("unsupported request body Content-Type: ");
                s.append(a.as_str());
                s
            },
            BodyError::InvalidUtf8 => String::from_str("request body is not valid UTF-8"),
            BodyError::InvalidJson(d) => {
                let mut s = String::from_str("request body contains invalid JSON: ");
                s.append(d.as_str());
                s
            },
            BodyError::InvalidForm(d) => {
                let mut s = String::from_str("request body contains an invalid form: ");
                s.append(d.as_str());
                s
            },
            BodyError::InvalidMultipart(d) => {
                let mut s = String::from_str("request body contains invalid multipart data: ");
                s.append(d.as_str());
                s
            },
            BodyError::IncompleteBody => String::from_str("request body is incomplete"),
            BodyError::InvalidEncoding => String::from_str("request body content coding could not be applied"),
            BodyError::Encoding(e) => e.to_string(),
            BodyError::Compression(e) => e.to_string(),
            BodyError::Chunking(e) => e.to_string(),
        }
    }

    /// The wrapped component error; `None` for the variants owned by this type.
    pub fn source(&self) -> (r: Option<BodyErrorSource<'_>>)
        ensures
            r is Some <==> (self is Encoding || self is Compression || self is Chunking),
    {
        match self {
            BodyError::Encoding(e) => Some(BodyErrorSource::Encoding(e)),
            BodyError::Compression(e) => Some(BodyErrorSource::Compression(e)),
            BodyError::Chunking(e) => Some(BodyErrorSource::Chunking(e)),
            _ => None,
        }
    }

    pub open spec fn spec_can_continue(&self) -> bool {
        match self {
            BodyError::Encoding(_) => false,
            BodyError::Compression(_) => true,
            BodyError::Chunking(_) => false,
            BodyError::TooLarge | BodyError::IncompleteBody => false,
            _ => true,
        }
    }

    /// Whether the connection can continue after this error. Wrapped
    /// component variants delegate; a body too large (the client keeps
    /// sending) or incomplete (the reader is mid-stream) forces `false`.
    pub fn can_continue(&self) -> (r: bool)
        ensures
            r == self.spec_can_continue(),
    {
        match self {
            BodyError::Encoding(e) => e.can_continue(),
            BodyError::Compression(e) => e.can_continue(),
            BodyError::Chunking(e) => e.can_continue(),
            BodyError::TooLarge | BodyError::IncompleteBody => false,
            _ => true,
        }
    }

    pub open spec fn spec_status_code(&self) -> StatusCode {
        match self {
            BodyError::Compression(_) => StatusCode(415),
            BodyError::TooLarge => StatusCode(413),
            BodyError::MissingContentType | BodyError::UnsupportedContentType(_) => StatusCode(415),
            _ => StatusCode(400),
        }
    }

    /// The status code a server answers this error with. Wrapped component
    /// variants delegate; body-owned variants map inline.
    pub fn status_code(&self) -> (r: StatusCode)
        ensures
            r == self.spec_status_code(),
    {
        match self {
            BodyError::Encoding(e) => e.status_code(),
            BodyError::Compression(e) => e.status_code(),
            BodyError::Chunking(e) => e.status_code(),
            BodyError::TooLarge => StatusCode::PAYLOAD_TOO_LARGE(),
            BodyError::MissingContentType | BodyError::UnsupportedContentType(_) => StatusCode::UNSUPPORTED_MEDIA_TYPE(),
            _ => StatusCode::BAD_REQUEST(),
        }
    }
}

impl From<EncodingError> for BodyError {
    fn from(error: EncodingError) -> (r: Self) {
        BodyError::Encoding(error)
    }
}

impl vstd::std_specs::convert::FromSpecImpl<EncodingError> for BodyError {
    open spec fn obeys_from_spec() -> bool {
        true
    }

    open spec fn from_spec(error: EncodingError) -> Self {
        BodyError::Encoding(error)
    }
}

impl From<CompressionError> for BodyError {
    fn from(error: CompressionError) -> (r: Self) {
        BodyError::Compression(error)
    }
}

impl vstd::std_specs::convert::FromSpecImpl<CompressionError> for BodyError {
    open spec fn obeys_from_spec() -> bool {
        true
    }

    open spec fn from_spec(error: CompressionError) -> Self {
        BodyError::Compression(error)
    }
}

impl From<ChunkingError> for BodyError {
    fn from(error: ChunkingError) -> (r: Self) {
        BodyError::Chunking(error)
    }
}

impl vstd::std_specs::convert::FromSpecImpl<ChunkingError> for BodyError {
    open spec fn obeys_from_spec() -> bool {
        true
    }

    open spec fn from_spec(error: ChunkingError) -> Self {
        BodyError::Chunking(error)
    }
}

/// An error of reading a message: of its head or of its body.
#[derive(Debug, Clone, PartialEq, Eq)]
pub enum HttpError {
    /// The metadata was invalid.
    Meta(MetaError),
    /// The body was invalid.
    Body(BodyError),
}

impl From<&ChunkingError> for StatusCode {
    /// The status code a server answers the error with.
    fn from(error: &ChunkingError) -> (r: Self) {
        error.status_code()
    }
}

impl vstd::std_specs::convert::FromSpecImpl<&ChunkingError> for StatusCode {
    open spec fn obeys_from_spec() -> bool {
        true
    }

    open spec fn from_spec(error: &ChunkingError) -> Self {
        StatusCode(400)
    }
}

impl From<&BodyError> for StatusCode {
    /// The status code a server answers the error with.
    fn from(error: &BodyError) -> (r: Self) {
        error.status_code()
    }
}

impl vstd::std_specs::convert::FromSpecImpl<&BodyError> for StatusCode {
    open spec fn obeys_from_spec() -> bool {
        true
    }

    open spec fn from_spec(error: &BodyError) -> Self {
        error.spec_status_code()
    }
}

} // verus!
