//! The raw header block, the request target and the method.
use vstd::prelude::*;
use crate::header::map::HeaderMap;
use crate::header::value::HeaderValue;
use crate::http_value::method::HttpMethod;
use crate::http_value::path::{path_segments, spec_url_arg};
use crate::meta::HttpMeta;
use crate::start_line::start_line::HttpStartLine;
use crate::text::{before_first, split_once_char, to_lowercase, trim_str, trim_ws, unicode_lowercase};

verus! {

/// The request target a start line answers with: the parsed target when
/// cached, else the target text; `/` for a status line.
pub open spec fn target_of(s: HttpStartLine) -> Seq<char> {
    match s {
        HttpStartLine::Request(q) => match q.url {
            Some(u) => u@,
            None => q.path@,
        },
        HttpStartLine::Response(_) => "/"@,
    }
}

/// The target text of a start line; `/` for a status line.
pub open spec fn path_text(s: HttpStartLine) -> Seq<char> {
    match s {
        HttpStartLine::Request(q) => q.path@,
        HttpStartLine::Response(_) => "/"@,
    }
}

/// The name a header key is stored under: trimmed, in lower case.
pub open spec fn header_key(key: Seq<char>) -> Seq<char> {
    unicode_lowercase(trim_ws(key))
}

impl HttpMeta {
    /// Replaces the whole header block.
    pub fn set_header_hashmap(&mut self, header: HeaderMap)
        ensures
            final(self).start_line == old(self).start_line,
            final(self).header == header,
            final(self).caches() == old(self).caches(),
    {
        self.header = header;
    }

    /// The raw header block. Change it through
    /// [`set_attribute`](HttpMeta::set_attribute).
    pub fn get_header_hashmap(&self) -> (r: &HeaderMap)
        ensures
            *r == self.header,
    {
        &self.header
    }

    /// The value(s) of the header `key` (trimmed, lower-cased), joined with
    /// `, `.
    pub fn get_header(&self, key: &str) -> (r: Option<String>)
        ensures
            match r {
                Some(v) => self.header@.contains_key(header_key(key@)) && v@ == self.header@[header_key(key@)].joined(),
                None => !self.header@.contains_key(header_key(key@)),
            },
    {
        let trimmed = trim_str(key);
        let name = to_lowercase(trimmed.as_str());
        match self.header.get(name.as_str()) {
            Some(v) => Some(v.as_str()),
            None => None,
        }
    }

    /// Stores `value` under the header `key` (trimmed, lower-cased),
    /// replacing what was there.
    pub fn set_attribute(&mut self, key: &str, value: HeaderValue)
        ensures
            final(self).start_line == old(self).start_line,
            final(self).header@ == old(self).header@.insert(header_key(key@), value@),
            final(self).caches() == old(self).caches(),
    {
        let trimmed = trim_str(key);
        let name = to_lowercase(trimmed.as_str());
        self.header.insert(name, value);
    }

    /// The `part`-th non-empty segment of the request path, or the empty
    /// string. A request caches its parsed target.
    pub fn get_path(&mut self, part: usize) -> (r: String)
        ensures
            r@ == (if part < path_segments(target_of(old(self).start_line)).len() {
                path_segments(target_of(old(self).start_line))[part as int]
            } else {
                Seq::empty()
            }),
            final(self).header == old(self).header,
            final(self).caches() == old(self).caches(),
            target_of(final(self).start_line) == target_of(old(self).start_line),
    {
        let url = self.start_line.get_url();
        url.url_part(part)
    }

    /// The request target as written (`/` for a response).
    pub fn url(&self) -> (r: String)
        ensures
            r@ == path_text(self.start_line),
    {
        self.start_line.path()
    }

    /// The path part of the request target: the text before the first `?`.
    pub fn path(&self) -> (r: String)
        ensures
            r@ == before_first(path_text(self.start_line), '?'),
    {
        let target = self.start_line.path();
        let (path, _) = split_once_char(target.as_str(), '?');
        path
    }

    /// The value of the query argument `key` of the request target. A
    /// request caches its parsed target.
    pub fn get_url_args(&mut self, key: &str) -> (r: Option<String>)
        ensures
            match spec_url_arg(target_of(old(self).start_line), key@) {
                Some(v) => r matches Some(s) && s@ == v,
                None => r is None,
            },
            final(self).header == old(self).header,
            final(self).caches() == old(self).caches(),
            target_of(final(self).start_line) == target_of(old(self).start_line),
    {
        let url = self.start_line.get_url();
        url.get_url_args(key)
    }

    /// The request method (`GET` for a response).
    pub fn method(&self) -> (r: HttpMethod)
        ensures
            match self.start_line {
                HttpStartLine::Request(q) => r@ == q.method@ && (r is Other) == (q.method is Other),
                HttpStartLine::Response(_) => r == HttpMethod::GET,
            },
    {
        self.start_line.method()
    }
}

} // verus!
