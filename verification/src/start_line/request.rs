//! The request line: method, request target and HTTP version.
use vstd::prelude::*;
use vstd::string::StringExecFns;
use crate::header::value::copy_string;
use crate::http_value::method::{HttpMethod, is_method_token, is_standard_method};
use crate::http_value::path::RequestPath;
use crate::http_value::version::HttpVersion;
use crate::start_line::error::StartLineError;
use crate::text::{lemma_words_concat, lemma_words_single, no_whitespace, spec_is_whitespace, split_words, words};
use crate::header::line::spec_is_tchar;
use crate::http_value::version::lemma_version_parse_roundtrip;

verus! {

/// The outcome of parsing a request line: method text, target and version,
/// or the first rule broken.
pub open spec fn spec_parse_request_line(s: Seq<char>) -> Result<(Seq<char>, Seq<char>, HttpVersion), StartLineError> {
    let parts = words(s);
    if parts.len() == 0 {
        Err(StartLineError::Empty)
    } else if parts.len() != 3 {
        Err(StartLineError::Unrecognised)
    } else if !is_method_token(parts[0]) {
        Err(StartLineError::InvalidMethodToken)
    } else {
        match HttpVersion::spec_parse(parts[2]) {
            Err(e) => Err(e),
            Ok(v) => Ok((parts[0], parts[1], v)),
        }
    }
}

/// The request line `method target version`.
pub open spec fn spec_request_text(method: Seq<char>, path: Seq<char>, version: HttpVersion) -> Seq<char> {
    method + " "@ + path + " "@ + version.spec_text()
}

/// `r` is what parsing the request line `line` gives: the method (its own
/// variant for a standard name, else `Other`), target and version with no
/// parsed target, or the first rule broken.
pub open spec fn parsed_request_line(line: Seq<char>, r: Result<RequestStartLine, StartLineError>) -> bool {
    match spec_parse_request_line(line) {
        Ok((m, p, v)) => r matches Ok(rl) && rl.method@ == m && (rl.method is Other <==> !is_standard_method(m))
            && rl.path@ == p && rl.http_version == v && rl.url is None,
        Err(e) => r == Err::<RequestStartLine, StartLineError>(e),
    }
}

/// RequestStartLine is the first line of the HTTP request, which contains the method, path, and HTTP version.
#[derive(Debug)]
pub struct RequestStartLine {
    pub http_version: HttpVersion,
    pub method: HttpMethod,
    pub path: String,
    pub url: Option<RequestPath>,
}

/// The request line every fallback uses: `GET / HTTP/1.1`, target not parsed.
pub open spec fn is_default_request(r: RequestStartLine) -> bool {
    &&& r.http_version == HttpVersion::Http11
    &&& r.method == HttpMethod::GET
    &&& r.path@ == "/"@
    &&& r.url is None
}

impl RequestStartLine {
    /// The fields that carry meaning: method text, target text, version and
    /// the cached parsed target.
    pub open spec fn same_as(&self, other: &RequestStartLine) -> bool {
        &&& self.http_version == other.http_version
        &&& self.method@ == other.method@
        &&& (self.method is Other) == (other.method is Other)
        &&& self.path@ == other.path@
        &&& (self.url is Some) == (other.url is Some)
        &&& (self.url is Some ==> self.url->Some_0@ == other.url->Some_0@)
    }
}

impl Clone for RequestStartLine {
    fn clone(&self) -> (r: Self)
        ensures
            r.same_as(self),
    {
        RequestStartLine {
            http_version: self.http_version,
            method: self.method.clone(),
            path: copy_string(&self.path),
            url: match &self.url {
                Some(u) => Some(u.clone()),
                None => None,
            },
        }
    }
}

impl Default for RequestStartLine {
    fn default() -> (r: Self)
        ensures
            is_default_request(r),
    {
        RequestStartLine::new(HttpVersion::Http11, HttpMethod::GET, String::from_str("/"))
    }
}

impl RequestStartLine {
    /// Creates a new request line; the target is not parsed yet.
    pub fn new(http_version: HttpVersion, method: HttpMethod, path: String) -> (r: Self)
        ensures
            r.http_version == http_version,
            r.method == method,
            r.path == path,
            r.url is None,
    {
        RequestStartLine { http_version, method, path, url: None }
    }

    /// The request line as written on the wire (without the line break).
    pub fn represent(&self) -> (r: String)
        ensures
            r@ == spec_request_text(self.method@, self.path@, self.http_version),
    {
        let mut s = self.method.to_string();
        s.append(" ");
        s.append(self.path.as_str());
        s.append(" ");
        let v = self.http_version.to_string();
        s.append(v.as_str());
        s
    }

    /// Parses `METHOD target HTTP/x.y`. Words are separated by white space;
    /// exactly three are required.
    pub fn parse(line: &str) -> (r: Result<Self, StartLineError>)
        ensures
            parsed_request_line(line@, r),
    {
        let parts = split_words(line);
        if parts.len() == 0 {
            return Err(StartLineError::Empty);
        }
        if parts.len() != 3 {
            return Err(StartLineError::Unrecognised);
        }
        let method = match HttpMethod::parse(parts[0].as_str()) {
            Ok(m) => m,
            Err(e) => return Err(e),
        };
        let path = copy_string(&parts[1]);
        let http_version = match HttpVersion::parse(parts[2].as_str()) {
            Ok(v) => v,
            Err(e) => return Err(e),
        };
        Ok(RequestStartLine::new(http_version, method, path))
    }

    /// Gets the parsed target, parsing and caching it if not already present.
    pub fn get_url(&mut self) -> (r: RequestPath)
        ensures
            old(self).url is Some ==> r@ == old(self).url->Some_0@ && *final(self) == *old(self),
            old(self).url is None ==> r@ == old(self).path@ && final(self).url is Some
                && final(self).url->Some_0@ == old(self).path@,
            final(self).http_version == old(self).http_version,
            final(self).method == old(self).method,
            final(self).path == old(self).path,
    {
        match &self.url {
            Some(url) => url.clone(),
            None => self.parse_url(),
        }
    }

    /// Parses the target from the path and caches it.
    pub fn parse_url(&mut self) -> (r: RequestPath)
        ensures
            r@ == old(self).path@,
            final(self).url is Some,
            final(self).url->Some_0@ == old(self).path@,
            final(self).http_version == old(self).http_version,
            final(self).method == old(self).method,
            final(self).path == old(self).path,
    {
        let url = RequestPath::from_string(self.path.as_str());
        self.url = Some(url.clone());
        url
    }

    /// Sets the parsed target.
    pub fn set_url(&mut self, url: RequestPath)
        ensures
            final(self).url == Some(url),
            final(self).http_version == old(self).http_version,
            final(self).method == old(self).method,
            final(self).path == old(self).path,
    {
        self.url = Some(url);
    }

    /// Clears the parsed target.
    pub fn clear_url(&mut self)
        ensures
            final(self).url is None,
            final(self).http_version == old(self).http_version,
            final(self).method == old(self).method,
            final(self).path == old(self).path,
    {
        self.url = None;
    }
}

/// A request line as `represent` writes it reads back as the same method,
/// target and version, when the method is a token, the target is non-empty
/// without white space, and the version is one a request line may carry
/// (HTTP/1.0 or HTTP/1.1).
pub proof fn law_request_line_roundtrip(method: Seq<char>, path: Seq<char>, version: HttpVersion)
    requires
        is_method_token(method),
        path.len() > 0,
        no_whitespace(path),
        version == HttpVersion::Http10 || version == HttpVersion::Http11,
    ensures
        spec_parse_request_line(spec_request_text(method, path, version)) == Ok::<(Seq<char>, Seq<char>, HttpVersion), StartLineError>((method, path, version)),
{
    reveal_strlit(" ");
    reveal_strlit("HTTP/1.0");
    reveal_strlit("HTTP/1.1");
    let vt = version.spec_text();
    assert(no_whitespace(vt));
    assert(no_whitespace(method)) by {
        assert forall|k: int| 0 <= k < method.len() implies !spec_is_whitespace(#[trigger] method[k]) by {
            assert(spec_is_tchar(method[k]));
        }
    }
    lemma_words_single(method);
    lemma_words_single(path);
    lemma_words_single(vt);
    let a = method + seq![' '] + path;
    lemma_words_concat(method, ' ', path);
    lemma_words_concat(a, ' ', vt);
    assert(spec_request_text(method, path, version) =~= a + seq![' '] + vt);
    assert(words(a + seq![' '] + vt) =~= seq![method, path, vt]);
    lemma_version_parse_roundtrip(version);
}

/// A request line written by `represent` and read back by `parse` gives the
/// same method, target and version, with no parsed target. This holds when
/// the method reads back as itself (a token; `Other` only for a name outside
/// the standard set), the target is non-empty without white space, and the
/// version is one a request line may carry (HTTP/1.0 or HTTP/1.1).
pub proof fn law_request_line_write_then_read(rl: RequestStartLine, text: Seq<char>, q: Result<RequestStartLine, StartLineError>)
    requires
        is_method_token(rl.method@),
        rl.method is Other ==> !is_standard_method(rl.method@),
        rl.path@.len() > 0,
        no_whitespace(rl.path@),
        rl.http_version == HttpVersion::Http10 || rl.http_version == HttpVersion::Http11,
        text == spec_request_text(rl.method@, rl.path@, rl.http_version),
        parsed_request_line(text, q),
    ensures
        q matches Ok(p) && p.method@ == rl.method@ && (p.method is Other) == (rl.method is Other)
            && p.path@ == rl.path@ && p.http_version == rl.http_version && p.url is None,
{
    law_request_line_roundtrip(rl.method@, rl.path@, rl.http_version);
    if !(rl.method is Other) {
        reveal_strlit("GET");
        reveal_strlit("POST");
        reveal_strlit("PUT");
        reveal_strlit("DELETE");
        reveal_strlit("HEAD");
        reveal_strlit("OPTIONS");
        reveal_strlit("PATCH");
        reveal_strlit("TRACE");
        reveal_strlit("CONNECT");
        assert(is_standard_method(rl.method@));
    }
}

} // verus!
