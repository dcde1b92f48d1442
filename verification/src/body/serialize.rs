//! Serialising a body and filling the metadata it implies.
use vstd::prelude::*;
use vstd::string::StringExecFns;
use vstd::utf8::{decode_utf8, encode_utf8, encode_utf8_decode_utf8, encode_utf8_valid_utf8, valid_utf8};
use crate::body::body::{HttpBody, apply_codings, all_identity, boundary_of, find_boundary, json_to_string, text_bytes};
use crate::body::error::BodyError;
use crate::http_value::content::{HttpContentType, media_part, params_part};
use crate::meta::{HttpMeta, MetaCaches, header_first};
use crate::meta::content_length::{LengthField, content_length_field};
use crate::meta::encoding::header_encoding;
use crate::text::{before_first, split_once_char, str_eq};
use crate::util::encoding::codings_of;

verus! {

/// The boundary a multipart body is written with when its metadata names
/// none.
pub open spec fn default_boundary() -> Seq<char> {
    "----DefaultBoundary7MA4YWxkTrZu0gW"@
}

/// The Content-Length the metadata declares: its cache, else a valid header.
pub open spec fn declared_length(m: HttpMeta) -> Option<u64> {
    match m.caches().content_length {
        Some(n) => Some(n),
        None => match content_length_field(m.header@) {
            LengthField::Value(n) => Some(n),
            _ => None,
        },
    }
}

/// The content type the metadata declares: its cache, else the header.
pub open spec fn declared_content_type(m: HttpMeta) -> Option<(Seq<char>, Seq<char>)> {
    match m.caches().content_type {
        Some(c) => Some(c),
        None => match header_first(m.header@, "content-type"@) {
            Some(s) => Some((media_part(s), params_part(s))),
            None => None,
        },
    }
}

/// The encodings the metadata declares: its cache, else the headers.
pub open spec fn declared_encoding(m: HttpMeta) -> (Option<Seq<char>>, Option<Seq<char>>) {
    match m.caches().encoding {
        Some(e) => e,
        None => header_encoding(m.header@),
    }
}

/// A multipart media type (`multipart/...`).
pub open spec fn is_multipart(media: Seq<char>) -> bool {
    media.contains('/') && before_first(media, '/') == "multipart"@
}

/// The boundary a multipart body is written with: the one the declared
/// multipart content type names, else the default.
pub open spec fn boundary_for(ct: Option<(Seq<char>, Seq<char>)>) -> Seq<char> {
    match ct {
        Some((m, p)) => if is_multipart(m) && boundary_of(p) is Some {
            boundary_of(p)->Some_0
        } else {
            default_boundary()
        },
        None => default_boundary(),
    }
}

/// The bytes a body is written as (unknown for JSON, which akari writes).
pub open spec fn body_bytes(b: HttpBody) -> Option<Seq<u8>> {
    match b {
        HttpBody::Text(t) => Some(encode_utf8(t@)),
        HttpBody::Binary(d) => Some(d@),
        HttpBody::Form(d) => Some(d@),
        HttpBody::Files { data, .. } => Some(data@),
        HttpBody::Json(_) => None,
        _ => Some(Seq::empty()),
    }
}

/// The content type a body is written with when the metadata declares none
/// (`None`: the body sets no content type).
pub open spec fn default_type(b: HttpBody, declared: Option<(Seq<char>, Seq<char>)>) -> Option<(Seq<char>, Seq<char>)> {
    match b {
        HttpBody::Text(_) => Some(("text/html"@, Seq::empty())),
        HttpBody::Binary(_) => Some(("application/octet-stream"@, Seq::empty())),
        HttpBody::Json(_) => Some(("application/json"@, Seq::empty())),
        HttpBody::Form(_) => Some(("application/x-www-form-urlencoded"@, Seq::empty())),
        HttpBody::Files { .. } => Some(("multipart/form-data"@, "boundary="@ + boundary_for(declared))),
        _ => None,
    }
}

/// The caches `into_static` leaves on `m1` from `m0` for the body `b`: the
/// declared content type, else the body's own (an empty or unparsed body
/// sets none); the declared encodings; the other caches as they were (the
/// Content-Length is stated apart).
pub open spec fn static_caches(b: HttpBody, m0: HttpMeta, m1: HttpMeta) -> bool {
    m1.caches() == (MetaCaches {
        content_length: m1.caches().content_length,
        content_type: match default_type(b, declared_content_type(m0)) {
            Some(d) => Some(match declared_content_type(m0) {
                Some(c) => c,
                None => d,
            }),
            None => m0.caches().content_type,
        },
        encoding: Some(declared_encoding(m0)),
        ..m0.caches()
    })
}

/// The content type serialising a body leaves on metadata that declares
/// none: `text/html` for text, `application/octet-stream` for bytes,
/// `application/json` for JSON, `application/x-www-form-urlencoded` for a
/// URL-encoded form, `multipart/form-data` with the default boundary for a
/// multipart form, and none for an empty, unparsed or buffered body. A
/// declared content type is kept whatever the body.
pub proof fn law_into_static_content_type(b: HttpBody, m0: HttpMeta, m1: HttpMeta)
    requires
        static_caches(b, m0, m1),
    ensures
        declared_content_type(m0) is Some && !(b is Empty || b is Unparsed || b is Buffer)
            ==> m1.caches().content_type == declared_content_type(m0),
        declared_content_type(m0) is None ==> m1.caches().content_type == (match b {
            HttpBody::Text(_) => Some(("text/html"@, Seq::<char>::empty())),
            HttpBody::Binary(_) => Some(("application/octet-stream"@, Seq::<char>::empty())),
            HttpBody::Json(_) => Some(("application/json"@, Seq::<char>::empty())),
            HttpBody::Form(_) => Some(("application/x-www-form-urlencoded"@, Seq::<char>::empty())),
            HttpBody::Files { .. } => Some(("multipart/form-data"@, "boundary=----DefaultBoundary7MA4YWxkTrZu0gW"@)),
            _ => None,
        }),
{
    reveal_strlit("boundary=");
    reveal_strlit("----DefaultBoundary7MA4YWxkTrZu0gW");
    reveal_strlit("boundary=----DefaultBoundary7MA4YWxkTrZu0gW");
    if declared_content_type(m0) is None {
        assert(m0.caches().content_type is None);
        if b is Files {
            assert("boundary="@ + default_boundary() =~= "boundary=----DefaultBoundary7MA4YWxkTrZu0gW"@);
        }
    }
}

fn is_multipart_media(media: &str) -> (r: bool)
    ensures
        r == is_multipart(media@),
{
    let cs = crate::text::chars_of(media);
    let has_slash = crate::text::find_char(&cs, '/').is_some();
    let (head, _) = split_once_char(media, '/');
    has_slash && str_eq(head.as_str(), "multipart")
}

impl HttpBody {
    /// Serialises the body and fills the metadata it implies: a missing
    /// Content-Length becomes the body's length, a missing content type the
    /// body's own (`text/html`, `application/octet-stream`,
    /// `application/json`, `application/x-www-form-urlencoded`,
    /// `multipart/form-data` with its boundary; an empty or unparsed body
    /// sets none). Then the declared content codings are applied; only
    /// `identity` is supported, any other gives `InvalidEncoding`.
    pub fn into_static(self, meta: &mut HttpMeta) -> (r: Result<Vec<u8>, BodyError>)
        ensures
            final(meta).start_line == old(meta).start_line,
            final(meta).header == old(meta).header,
            static_caches(self, *old(meta), *final(meta)),
            final(meta).caches().content_length is Some,
            declared_length(*old(meta)) matches Some(n) ==> final(meta).caches().content_length == Some(n),
            declared_length(*old(meta)) is None && body_bytes(self) is Some ==>
                final(meta).caches().content_length == Some(body_bytes(self)->Some_0.len() as u64),
            declared_length(*old(meta)) is None && r is Ok ==>
                final(meta).caches().content_length == Some(r->Ok_0@.len() as u64),
            all_identity(codings_of(declared_encoding(*old(meta)).1)) ==> (r matches Ok(v)
                && (body_bytes(self) matches Some(b) ==> v@ == b)),
            !all_identity(codings_of(declared_encoding(*old(meta)).1)) ==> r == Err::<Vec<u8>, BodyError>(BodyError::InvalidEncoding),
            self is Json && all_identity(codings_of(declared_encoding(*old(meta)).1)) ==> (r matches Ok(v)
                && v@.len() > 0 && valid_utf8(v@)),
    {
        let ghost m0 = *meta;
        let (bin, default) = match self {
            HttpBody::Text(text) => (text_bytes(text.as_str()), Some(HttpContentType::TextHtml())),
            HttpBody::Binary(binary) => (binary, Some(HttpContentType::ApplicationOctetStream())),
            HttpBody::Json(json) => {
                let text = json_to_string(&json);
                let bytes = text_bytes(text.as_str());
                proof {
                    encode_utf8_valid_utf8(text@);
                    encode_utf8_decode_utf8(text@);
                    if bytes@.len() == 0 {
                        assert(bytes@ =~= Seq::<u8>::empty());
                        assert(decode_utf8(Seq::<u8>::empty()) =~= Seq::<char>::empty());
                    }
                }
                (bytes, Some(HttpContentType::ApplicationJson()))
            },
            HttpBody::Form(form) => (form, Some(HttpContentType::ApplicationUrlEncodedForm())),
            HttpBody::Files { data, .. } => {
                let boundary = match meta.get_content_type() {
                    Some(ct) => if is_multipart_media(ct.media_type()) {
                        match find_boundary(ct.params()) {
                            Some(b) => b,
                            None => String::from_str("----DefaultBoundary7MA4YWxkTrZu0gW"),
                        }
                    } else {
                        String::from_str("----DefaultBoundary7MA4YWxkTrZu0gW")
                    },
                    None => String::from_str("----DefaultBoundary7MA4YWxkTrZu0gW"),
                };
                let mut params = String::from_str("boundary=");
                params.append(boundary.as_str());
                (data, Some(HttpContentType::from_parts(String::from_str("multipart/form-data"), params)))
            },
            _ => (Vec::new(), None),
        };
        let declared = match meta.get_content_length() {
            Ok(Some(_)) => true,
            _ => false,
        };
        if !declared {
            meta.set_content_length(bin.len());
        }
        if let Some(d) = default {
            if meta.get_content_type().is_none() {
                meta.set_content_type(d);
            }
        }
        let codings = match meta.get_encoding() {
            Some(e) => e.content_codings(),
            None => Vec::new(),
        };
        apply_codings(&codings, bin)
    }
}

} // verus!
