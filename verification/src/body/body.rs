//! HTTP bodies: buffered bytes, their parsed forms, and the rules that turn
//! one into the other.
use vstd::prelude::*;
use vstd::string::StringExecFns;
use vstd::utf8::{decode_utf8, encode_utf8, valid_utf8};
use crate::body::error::BodyError;
use crate::http_value::content::HttpContentType;
use crate::text::{after_first, ascii_lower_seq, ascii_lowercase, before_first, split_chars, split_once_char, split_seq, str_eq, trim_ws, trim_str};

verus! {

#[verifier::external_type_specification]
#[verifier::external_body]
pub struct ExAkariValue(akari::Value);

/// What `akari::Value::from_json` says of the text `s`: `None` when it
/// parses, else the message of its error. A function of `s` alone.
pub uninterp spec fn akari_json_error(s: Seq<char>) -> Option<Seq<char>>;

/// akari's `Value::from_json`. The contract claims only that success and the
/// error message are those named by `akari_json_error` on the text; the
/// parsed value is not described.
#[verifier::external_body]
fn json_from_str(s: &str) -> (r: Result<akari::Value, String>)
    ensures
        match akari_json_error(s@) {
            None => r is Ok,
            Some(m) => r matches Err(e) && e@ == m,
        },
{
    akari::Value::from_json(s)
}

/// akari's `Value::into_json`: the JSON text of a value. The contract claims
/// only that the text is not empty: every value akari writes gives at least
/// one character, and a value it cannot write gives `null`. Which text is not
/// claimed: a dictionary's entries come out in its hash map's order, which
/// each process seeds anew.
#[verifier::external_body]
pub(crate) fn json_to_string(value: &akari::Value) -> (r: String)
    ensures
        r@.len() > 0,
{
    value.into_json()
}

/// std's `String::from_utf8`: the text the bytes encode, when they are valid
/// UTF-8. The contract claims `Some` exactly for valid UTF-8 (vstd's
/// `valid_utf8`), holding the decoded characters (vstd's `decode_utf8`).
#[verifier::external_body]
fn string_from_utf8(bytes: Vec<u8>) -> (r: Option<String>)
    ensures
        r is Some <==> valid_utf8(bytes@),
        r matches Some(s) ==> s@ == decode_utf8(bytes@),
{
    String::from_utf8(bytes).ok()
}

/// The UTF-8 bytes of a text.
pub(crate) fn text_bytes(text: &str) -> (r: Vec<u8>)
    ensures
        r@ == encode_utf8(text@),
{
    vstd::slice::slice_to_vec(text.as_bytes())
}

/// Limits on a message body.
#[derive(Debug, Clone, Copy)]
pub struct BodyLimits {
    /// Largest body in bytes; `None` for no limit.
    pub max_body_size: Option<usize>,
}

/// `size` bytes are within the body limit `max`.
pub open spec fn body_size_ok(max: Option<usize>, size: int) -> bool {
    match max {
        Some(m) => size <= m,
        None => true,
    }
}

impl BodyLimits {
    /// No limit.
    pub fn new() -> (r: Self)
        ensures
            r.max_body_size is None,
    {
        BodyLimits { max_body_size: None }
    }

    /// Sets the largest body allowed.
    pub fn set_max_body_size(&mut self, max: Option<usize>)
        ensures
            final(self).max_body_size == max,
    {
        self.max_body_size = max;
    }

    /// A body of `size` bytes is allowed.
    pub fn check_body_size(&self, size: usize) -> (r: bool)
        ensures
            r == body_size_ok(self.max_body_size, size as int),
    {
        match self.max_body_size {
            Some(m) => size <= m,
            None => true,
        }
    }

    /// The body size after `add` more bytes, when it is allowed (and fits in
    /// `usize`).
    pub fn check_body_size_delta(&self, current: usize, add: usize) -> (r: Option<usize>)
        ensures
            (current + add <= usize::MAX && body_size_ok(self.max_body_size, current + add)) ==> r == Some((current + add) as usize),
            !(current + add <= usize::MAX && body_size_ok(self.max_body_size, current + add)) ==> r is None,
    {
        if current > usize::MAX - add {
            return None;
        }
        let total = current + add;
        if self.check_body_size(total) {
            Some(total)
        } else {
            None
        }
    }
}

/// An HTTP body.
#[derive(Debug)]
pub enum HttpBody {
    /// Text.
    Text(String),
    /// Bytes.
    Binary(Vec<u8>),
    /// A URL-encoded form, as sent.
    Form(Vec<u8>),
    /// A multipart form, as sent, with its boundary.
    Files { data: Vec<u8>, boundary: String },
    /// A JSON value.
    Json(akari::Value),
    /// No body.
    Empty,
    /// Not read yet.
    Unparsed,
    /// Read but not parsed: the bytes, their content type and the content
    /// codings applied to them.
    Buffer { data: Vec<u8>, content_type: HttpContentType, content_coding: Vec<String> },
}

impl Default for HttpBody {
    fn default() -> (r: Self)
        ensures
            r is Unparsed,
    {
        HttpBody::Unparsed
    }
}

/// How a body of a media type is parsed.
pub enum BodyKind {
    Json,
    Text,
    Form,
    Files,
    Binary,
}

/// The kind of body the media type `media` (lower case) holds.
pub open spec fn body_kind(media: Seq<char>) -> BodyKind {
    if media == "application/json"@ {
        BodyKind::Json
    } else if media == "text/html"@ || media == "text/plain"@ {
        BodyKind::Text
    } else if media == "application/x-www-form-urlencoded"@ {
        BodyKind::Form
    } else if media == "multipart/form-data"@ {
        BodyKind::Files
    } else {
        BodyKind::Binary
    }
}

/// A parameter `boundary=...` (name trimmed, any case).
pub open spec fn is_boundary_param(p: Seq<char>) -> bool {
    p.contains('=') && ascii_lower_seq(trim_ws(before_first(p, '='))) == "boundary"@
}

/// The value of the first `boundary` parameter among `pieces`.
pub open spec fn boundary_in(pieces: Seq<Seq<char>>) -> Option<Seq<char>>
    decreases pieces.len(),
{
    if pieces.len() == 0 {
        None
    } else if is_boundary_param(pieces[0]) {
        Some(trim_ws(after_first(pieces[0], '=')))
    } else {
        boundary_in(pieces.drop_first())
    }
}

/// The multipart boundary of the parameters `params` (`a=b; boundary=c`).
pub open spec fn boundary_of(params: Seq<char>) -> Option<Seq<char>> {
    boundary_in(split_seq(params, ';'))
}

/// The boundary parameter of a content type's parameters.
pub(crate) fn find_boundary(params: &str) -> (r: Option<String>)
    ensures
        match boundary_of(params@) {
            Some(b) => r matches Some(s) && s@ == b,
            None => r is None,
        },
{
    let pieces = split_chars(params, ';');
    let ghost ps = pieces.deep_view();
    assert(ps.skip(0) =~= ps);
    let mut i: usize = 0;
    while i < pieces.len()
        invariant
            i <= pieces@.len(),
            ps == pieces.deep_view(),
            ps == split_seq(params@, ';'),
            boundary_in(ps) == boundary_in(ps.skip(i as int)),
        decreases pieces.len() - i,
    {
        let piece = pieces[i].as_str();
        let (name, value) = split_once_char(piece, '=');
        let name = ascii_lowercase(trim_str(name.as_str()).as_str());
        let has_eq = crate::text::find_char(&crate::text::chars_of(piece), '=').is_some();
        proof {
            assert(ps.skip(i as int)[0] == piece@);
            assert(ps.skip(i as int).drop_first() =~= ps.skip(i + 1));
        }
        if has_eq && str_eq(name.as_str(), "boundary") {
            return Some(trim_str(value.as_str()));
        }
        i += 1;
    }
    None
}

/// All content codings are `identity`: the body bytes are the representation.
pub open spec fn all_identity(codings: Seq<Seq<char>>) -> bool {
    forall|i: int| 0 <= i < codings.len() ==> codings[i] == "identity"@
}

/// Applies (or removes) content codings: only `identity` is supported, which
/// leaves the bytes as they are; any other coding fails.
pub(crate) fn apply_codings(codings: &Vec<String>, data: Vec<u8>) -> (r: Result<Vec<u8>, BodyError>)
    ensures
        all_identity(codings.deep_view()) ==> (r matches Ok(d) && d@ == data@),
        !all_identity(codings.deep_view()) ==> r == Err::<Vec<u8>, BodyError>(BodyError::InvalidEncoding),
{
    let mut i: usize = 0;
    while i < codings.len()
        invariant
            i <= codings@.len(),
            forall|k: int| 0 <= k < i ==> codings.deep_view()[k] == "identity"@,
        decreases codings.len() - i,
    {
        if !str_eq(codings[i].as_str(), "identity") {
            assert(codings.deep_view()[i as int] != "identity"@);
            return Err(BodyError::InvalidEncoding);
        }
        i += 1;
    }
    Ok(data)
}

impl HttpBody {
    /// Get the raw data of a **binary** body; any other body gives no bytes.
    pub fn raw(self) -> (r: Vec<u8>)
        ensures
            match self {
                HttpBody::Binary(d) => r@ == d@,
                _ => r@.len() == 0,
            },
    {
        match self {
            HttpBody::Binary(data) => data,
            _ => Vec::new(),
        }
    }

    /// Parses a buffered body according to its declared content type. Other
    /// bodies are returned unchanged.
    ///
    /// The size limit applies to the bytes read and to the bytes after the
    /// content codings are removed; `application/json` becomes `Json`,
    /// `text/html` and `text/plain` become `Text` (both must be UTF-8),
    /// `application/x-www-form-urlencoded` becomes `Form`,
    /// `multipart/form-data` becomes `Files` (its boundary parameter is
    /// required), anything else `Binary`.
    pub fn parse_buffer(self, limits: &BodyLimits) -> (r: Result<HttpBody, BodyError>)
        ensures
            match self {
                HttpBody::Buffer { data, content_type, content_coding } => {
                    if !body_size_ok(limits.max_body_size, data@.len() as int) {
                        r == Err::<HttpBody, BodyError>(BodyError::TooLarge)
                    } else if !all_identity(content_coding.deep_view()) {
                        r == Err::<HttpBody, BodyError>(BodyError::InvalidEncoding)
                    } else {
                        match body_kind(content_type@.0) {
                            BodyKind::Json => if !valid_utf8(data@) {
                                r == Err::<HttpBody, BodyError>(BodyError::InvalidUtf8)
                            } else {
                                match akari_json_error(decode_utf8(data@)) {
                                    Some(m) => r matches Err(BodyError::InvalidJson(e)) && e@ == m,
                                    None => r matches Ok(HttpBody::Json(_)),
                                }
                            },
                            BodyKind::Text => if !valid_utf8(data@) {
                                r == Err::<HttpBody, BodyError>(BodyError::InvalidUtf8)
                            } else {
                                r matches Ok(HttpBody::Text(t)) && t@ == decode_utf8(data@)
                            },
                            BodyKind::Form => r matches Ok(HttpBody::Form(d)) && d@ == data@,
                            BodyKind::Files => match boundary_of(content_type@.1) {
                                Some(b) => r matches Ok(HttpBody::Files { data: d, boundary }) && d@ == data@ && boundary@ == b,
                                None => r matches Err(BodyError::InvalidMultipart(m)) && m@ == "multipart/form-data boundary is missing"@,
                            },
                            BodyKind::Binary => r matches Ok(HttpBody::Binary(d)) && d@ == data@,
                        }
                    }
                },
                _ => r == Ok::<HttpBody, BodyError>(self),
            },
    {
        match self {
            HttpBody::Buffer { data, content_type, content_coding } => {
                if !limits.check_body_size(data.len()) {
                    return Err(BodyError::TooLarge);
                }
                let data = match apply_codings(&content_coding, data) {
                    Ok(d) => d,
                    Err(e) => return Err(e),
                };
                if !limits.check_body_size(data.len()) {
                    return Err(BodyError::TooLarge);
                }
                let media = content_type.media_type();
                if str_eq(media, "application/json") {
                    match string_from_utf8(data) {
                        Some(text) => match json_from_str(text.as_str()) {
                            Ok(value) => Ok(HttpBody::Json(value)),
                            Err(e) => Err(BodyError::InvalidJson(e)),
                        },
                        None => Err(BodyError::InvalidUtf8),
                    }
                } else if str_eq(media, "text/html") || str_eq(media, "text/plain") {
                    match string_from_utf8(data) {
                        Some(text) => Ok(HttpBody::Text(text)),
                        None => Err(BodyError::InvalidUtf8),
                    }
                } else if str_eq(media, "application/x-www-form-urlencoded") {
                    Ok(HttpBody::Form(data))
                } else if str_eq(media, "multipart/form-data") {
                    match find_boundary(content_type.params()) {
                        Some(boundary) => Ok(HttpBody::Files { data, boundary }),
                        None => Err(BodyError::InvalidMultipart(String::from_str("multipart/form-data boundary is missing"))),
                    }
                } else {
                    Ok(HttpBody::Binary(data))
                }
            },
            other => Ok(other),
        }
    }
}

} // verus!
