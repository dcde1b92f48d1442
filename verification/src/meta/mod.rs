//! HTTP metadata: the start line, the header block and typed header caches.
//!
//! Each typed header has a cache beside the raw header block. `get_*` answers
//! from the cache and otherwise reads the header; `parse_*` always reads the
//! header and fills the cache; `set_*` fills the cache; `clear_*` empties it
//! and keeps the header; `delete_*` empties it and removes the header.

pub mod error;
pub mod attributes;
pub mod connection;
pub mod content_disposition;
pub mod content_length;
pub mod content_type;
pub mod cookie;
pub mod encoding;
pub mod host_language;
pub mod line_read;
pub mod location;
pub mod serialize;
pub mod stream;

pub use error::{MetaError, MetaErrorSource};
pub use crate::header::value::HeaderValue;

use vstd::prelude::*;
use vstd::string::StringExecFns;
use crate::header::map::HeaderMap;
use crate::header::value::{HeaderValueView, copy_string};
use crate::http_value::content::{AcceptLang, ContentDisposition, HttpContentType};
use crate::http_value::method::HttpMethod;
use crate::http_value::version::HttpVersion;
use crate::start_line::request::is_default_request;
use crate::start_line::start_line::HttpStartLine;
use crate::util::connection::ConnectionOptions;
use crate::util::cookie::CookieMap;
use crate::util::encoding::HttpEncoding;

verus! {

/// One cookie entry by its view: name, then value and attributes.
pub type CookieEntry = (Seq<char>, (Seq<char>, Seq<char>));

/// The typed caches of an [`HttpMeta`], each by its view.
pub struct MetaCaches {
    pub content_type: Option<(Seq<char>, Seq<char>)>,
    pub content_length: Option<u64>,
    pub cookies: Option<Seq<CookieEntry>>,
    pub content_disposition: Option<(Seq<char>, Seq<char>)>,
    pub encoding: Option<(Option<Seq<char>>, Option<Seq<char>>)>,
    pub host: Option<Seq<char>>,
    pub lang: Option<Seq<char>>,
    pub location: Option<Seq<char>>,
    pub connection: Option<Seq<Seq<char>>>,
}

/// The first value stored in `v`, or the empty string if there is none.
pub open spec fn first_of(v: HeaderValueView) -> Seq<char> {
    if v.items().len() > 0 {
        v.items()[0]
    } else {
        Seq::empty()
    }
}

/// The first value of the header `name` in `h`, if the header is present.
pub open spec fn header_first(h: Map<Seq<char>, HeaderValueView>, name: Seq<char>) -> Option<Seq<char>> {
    if h.contains_key(name) {
        Some(first_of(h[name]))
    } else {
        None
    }
}

/// All caches empty.
pub open spec fn empty_caches() -> MetaCaches {
    MetaCaches {
        content_type: None,
        content_length: None,
        cookies: None,
        content_disposition: None,
        encoding: None,
        host: None,
        lang: None,
        location: None,
        connection: None,
    }
}

/// The metadata of an HTTP message: start line, header block and the typed
/// header caches. The caches are public so that contracts can speak of them;
/// use the accessor methods to read and change them.
#[derive(Debug)]
pub struct HttpMeta {
    pub start_line: HttpStartLine,
    pub header: HeaderMap,
    // Content-Type header, overrides the header block when present
    pub content_type: Option<HttpContentType>,
    // Content-Length header, overrides the header block when present
    pub content_length: Option<u64>,
    // Cookie header in a request, Set-Cookie header in a response
    pub cookies: Option<CookieMap>,
    // Content-Disposition header
    pub content_disposition: Option<ContentDisposition>,
    // Transfer-Encoding and Content-Encoding headers
    pub encoding: Option<HttpEncoding>,
    // Host header
    pub host: Option<String>,
    // Accept-Language in a request, Content-Language in a response
    pub lang: Option<AcceptLang>,
    // Location header
    pub location: Option<String>,
    // Connection header
    pub connection: Option<ConnectionOptions>,
}

impl HttpMeta {
    /// The typed caches, by their views.
    pub open spec fn caches(&self) -> MetaCaches {
        MetaCaches {
            content_type: match self.content_type {
                Some(c) => Some(c@),
                None => None,
            },
            content_length: self.content_length,
            cookies: match self.cookies {
                Some(c) => Some(c.spec_entries()),
                None => None,
            },
            content_disposition: match self.content_disposition {
                Some(c) => Some(c@),
                None => None,
            },
            encoding: match self.encoding {
                Some(e) => Some(e@),
                None => None,
            },
            host: match self.host {
                Some(h) => Some(h@),
                None => None,
            },
            lang: match self.lang {
                Some(l) => Some(l@),
                None => None,
            },
            location: match self.location {
                Some(l) => Some(l@),
                None => None,
            },
            connection: match self.connection {
                Some(c) => Some(c@),
                None => None,
            },
        }
    }

    /// Same start line and header block as `other`.
    pub open spec fn same_message(&self, other: &HttpMeta) -> bool {
        self.start_line == other.start_line && self.header == other.header
    }

    /// Creates metadata from a start line and a header block; every cache is
    /// empty.
    pub fn new(start_line: HttpStartLine, headers: HeaderMap) -> (r: Self)
        ensures
            r.start_line == start_line,
            r.header == headers,
            r.caches() == empty_caches(),
    {
        HttpMeta {
            start_line,
            header: headers,
            content_type: None,
            content_length: None,
            cookies: None,
            content_disposition: None,
            encoding: None,
            host: None,
            lang: None,
            location: None,
            connection: None,
        }
    }
}

impl Clone for HttpMeta {
    fn clone(&self) -> (r: Self)
        ensures
            r.start_line.same_as(&self.start_line),
            r.header@ == self.header@,
            r.header.spec_entries() == self.header.spec_entries(),
            r.caches() == self.caches(),
    {
        let cookies = match &self.cookies {
            Some(c) => Some(c.clone()),
            None => None,
        };
        let content_type = match &self.content_type {
            Some(c) => Some(c.clone()),
            None => None,
        };
        let content_disposition = match &self.content_disposition {
            Some(c) => Some(c.clone()),
            None => None,
        };
        let encoding = match &self.encoding {
            Some(c) => Some(c.clone()),
            None => None,
        };
        let lang = match &self.lang {
            Some(c) => Some(c.clone()),
            None => None,
        };
        let connection = match &self.connection {
            Some(c) => Some(c.clone()),
            None => None,
        };
        let host = match &self.host {
            Some(c) => Some(copy_string(c)),
            None => None,
        };
        let location = match &self.location {
            Some(c) => Some(copy_string(c)),
            None => None,
        };
        HttpMeta {
            start_line: self.start_line.clone(),
            header: self.header.clone(),
            content_type,
            content_length: self.content_length,
            cookies,
            content_disposition,
            encoding,
            host,
            lang,
            location,
            connection,
        }
    }
}

impl Default for HttpMeta {
    /// `GET / HTTP/1.1` with no headers.
    fn default() -> (r: Self)
        ensures
            r.start_line matches HttpStartLine::Request(q) && is_default_request(q),
            r.header@ == Map::<Seq<char>, HeaderValueView>::empty(),
            r.caches() == empty_caches(),
    {
        HttpMeta::new(
            HttpStartLine::new_request(HttpVersion::Http11, HttpMethod::GET, String::from_str("/")),
            HeaderMap::new(),
        )
    }
}

} // verus!
