//! A start line of either kind, with a unified API.
use vstd::prelude::*;
use vstd::string::StringExecFns;
use crate::http_value::method::{HttpMethod, is_standard_method};
use crate::http_value::path::RequestPath;
use crate::http_value::status::StatusCode;
use crate::http_value::version::HttpVersion;
use crate::start_line::error::StartLineError;
use crate::start_line::request::{RequestStartLine, is_default_request, spec_parse_request_line, spec_request_text};
use crate::start_line::response::{ResponseStartLine, spec_parse_status_line, spec_response_text};

verus! {

/// HttpStartLine is an enum that can represent either a RequestStartLine or a ResponseStartLine.
/// It provides a unified API for working with HTTP start lines regardless of their type.
#[derive(Debug)]
pub enum HttpStartLine {
    Request(RequestStartLine),
    Response(ResponseStartLine),
}

/// The outcome of `HttpStartLine::parse`: a request line if the text is one,
/// else a status line if it is one.
pub open spec fn spec_parse_either(s: Seq<char>) -> Option<bool> {
    if spec_parse_request_line(s) is Ok {
        Some(true)
    } else if spec_parse_status_line(s) is Ok {
        Some(false)
    } else {
        None
    }
}

/// `r` holds the request line read from `s`: its method (its own variant
/// for a standard name, else `Other`), target and version, with no parsed
/// target.
pub open spec fn is_parsed_request(r: RequestStartLine, s: Seq<char>) -> bool {
    spec_parse_request_line(s) matches Ok((m, p, v)) && r.method@ == m
        && (r.method is Other <==> !is_standard_method(m)) && r.path@ == p
        && r.http_version == v && r.url is None
}

/// `r` holds the status line read from `s`.
pub open spec fn is_parsed_response(r: ResponseStartLine, s: Seq<char>) -> bool {
    spec_parse_status_line(s) matches Ok((v, c)) && r == (ResponseStartLine { http_version: v, status_code: StatusCode(c) })
}

/// The default status line: `HTTP/1.1 200`.
pub open spec fn default_response() -> ResponseStartLine {
    ResponseStartLine { http_version: HttpVersion::Http11, status_code: StatusCode(200) }
}

impl HttpStartLine {
    /// Two start lines of the same kind with the same content.
    pub open spec fn same_as(&self, other: &HttpStartLine) -> bool {
        match (self, other) {
            (HttpStartLine::Request(a), HttpStartLine::Request(b)) => a.same_as(b),
            (HttpStartLine::Response(a), HttpStartLine::Response(b)) => a == b,
            _ => false,
        }
    }

    /// The text written for this start line (without the line break).
    pub open spec fn spec_text(&self) -> Seq<char> {
        match self {
            HttpStartLine::Request(r) => spec_request_text(r.method@, r.path@, r.http_version),
            HttpStartLine::Response(r) => spec_response_text(r.http_version, r.status_code),
        }
    }

    pub open spec fn spec_version(&self) -> HttpVersion {
        match self {
            HttpStartLine::Request(r) => r.http_version,
            HttpStartLine::Response(r) => r.http_version,
        }
    }
}

impl Clone for HttpStartLine {
    fn clone(&self) -> (r: Self)
        ensures
            r.same_as(self),
    {
        match self {
            HttpStartLine::Request(req) => HttpStartLine::Request(req.clone()),
            HttpStartLine::Response(res) => HttpStartLine::Response(*res),
        }
    }
}

impl Default for HttpStartLine {
    fn default() -> (r: Self)
        ensures
            r matches HttpStartLine::Request(q) && is_default_request(q),
    {
        HttpStartLine::Request(RequestStartLine::default())
    }
}

impl From<RequestStartLine> for HttpStartLine {
    fn from(request: RequestStartLine) -> (r: Self) {
        HttpStartLine::Request(request)
    }
}

impl vstd::std_specs::convert::FromSpecImpl<RequestStartLine> for HttpStartLine {
    open spec fn obeys_from_spec() -> bool {
        true
    }

    open spec fn from_spec(request: RequestStartLine) -> Self {
        HttpStartLine::Request(request)
    }
}

impl From<ResponseStartLine> for HttpStartLine {
    fn from(response: ResponseStartLine) -> (r: Self) {
        HttpStartLine::Response(response)
    }
}

impl vstd::std_specs::convert::FromSpecImpl<ResponseStartLine> for HttpStartLine {
    open spec fn obeys_from_spec() -> bool {
        true
    }

    open spec fn from_spec(response: ResponseStartLine) -> Self {
        HttpStartLine::Response(response)
    }
}

impl HttpStartLine {
    /// Creates a new HTTP request start line.
    pub fn new_request(http_version: HttpVersion, method: HttpMethod, path: String) -> (r: Self)
        ensures
            r == HttpStartLine::Request(RequestStartLine { http_version, method, path, url: None }),
    {
        HttpStartLine::Request(RequestStartLine::new(http_version, method, path))
    }

    /// Creates a new HTTP response start line.
    pub fn new_response(http_version: HttpVersion, status_code: StatusCode) -> (r: Self)
        ensures
            r == HttpStartLine::Response(ResponseStartLine { http_version, status_code }),
    {
        HttpStartLine::Response(ResponseStartLine::new(http_version, status_code))
    }

    /// Parses a string into an HTTP start line: as a request line first, then
    /// as a status line; `Unrecognised` if it is neither.
    pub fn parse(line: &str) -> (r: Result<Self, StartLineError>)
        ensures
            spec_parse_either(line@) == Some(true) ==> (r matches Ok(HttpStartLine::Request(q)) && is_parsed_request(q, line@)),
            spec_parse_either(line@) == Some(false) ==> (r matches Ok(HttpStartLine::Response(q)) && is_parsed_response(q, line@)),
            spec_parse_either(line@) is None ==> r == Err::<Self, StartLineError>(StartLineError::Unrecognised),
    {
        if let Ok(request) = Self::parse_request(line) {
            return Ok(request);
        }
        if let Ok(response) = Self::parse_response(line) {
            return Ok(response);
        }
        Err(StartLineError::Unrecognised)
    }

    /// Parses a string specifically as an HTTP request start line.
    pub fn parse_request(line: &str) -> (r: Result<Self, StartLineError>)
        ensures
            match spec_parse_request_line(line@) {
                Ok(_) => r matches Ok(HttpStartLine::Request(q)) && is_parsed_request(q, line@),
                Err(e) => r == Err::<Self, StartLineError>(e),
            },
    {
        match RequestStartLine::parse(line) {
            Ok(q) => Ok(HttpStartLine::Request(q)),
            Err(e) => Err(e),
        }
    }

    /// Parses a string specifically as an HTTP response start line.
    pub fn parse_response(line: &str) -> (r: Result<Self, StartLineError>)
        ensures
            match spec_parse_status_line(line@) {
                Ok(_) => r matches Ok(HttpStartLine::Response(q)) && is_parsed_response(q, line@),
                Err(e) => r == Err::<Self, StartLineError>(e),
            },
    {
        match ResponseStartLine::parse(line) {
            Ok(q) => Ok(HttpStartLine::Response(q)),
            Err(e) => Err(e),
        }
    }

    /// Parses a string into an HTTP start line, returning a caller-supplied default if parsing fails.
    pub fn parse_or(line: &str, default: Self) -> (r: Self)
        ensures
            spec_parse_either(line@) == Some(true) ==> (r matches HttpStartLine::Request(q) && is_parsed_request(q, line@)),
            spec_parse_either(line@) == Some(false) ==> (r matches HttpStartLine::Response(q) && is_parsed_response(q, line@)),
            spec_parse_either(line@) is None ==> r == default,
    {
        match Self::parse(line) {
            Ok(s) => s,
            Err(_) => default,
        }
    }

    /// Parses a string into an HTTP start line, returning the type default if parsing fails.
    pub fn parse_or_default(line: &str) -> (r: Self)
        ensures
            spec_parse_either(line@) == Some(true) ==> (r matches HttpStartLine::Request(q) && is_parsed_request(q, line@)),
            spec_parse_either(line@) == Some(false) ==> (r matches HttpStartLine::Response(q) && is_parsed_response(q, line@)),
            spec_parse_either(line@) is None ==> (r matches HttpStartLine::Request(q) && is_default_request(q)),
    {
        match Self::parse(line) {
            Ok(s) => s,
            Err(_) => HttpStartLine::default(),
        }
    }

    /// Parses a request line, or gives the default request (`GET /`) on failure.
    pub fn parse_request_or_default(line: &str) -> (r: Self)
        ensures
            spec_parse_request_line(line@) is Ok ==> (r matches HttpStartLine::Request(q) && is_parsed_request(q, line@)),
            spec_parse_request_line(line@) is Err ==> (r matches HttpStartLine::Request(q) && is_default_request(q)),
    {
        match Self::parse_request(line) {
            Ok(s) => s,
            Err(_) => HttpStartLine::Request(RequestStartLine::default()),
        }
    }

    /// Parses a status line, or gives the default response (`HTTP/1.1 200`) on failure.
    pub fn parse_response_or_default(line: &str) -> (r: Self)
        ensures
            spec_parse_status_line(line@) is Ok ==> (r matches HttpStartLine::Response(q) && is_parsed_response(q, line@)),
            spec_parse_status_line(line@) is Err ==> r == HttpStartLine::Response(default_response()),
    {
        match Self::parse_response(line) {
            Ok(s) => s,
            Err(_) => HttpStartLine::Response(ResponseStartLine::default()),
        }
    }

    /// Gets the HTTP version regardless of the variant.
    pub fn http_version(&self) -> (r: &HttpVersion)
        ensures
            *r == self.spec_version(),
    {
        match self {
            HttpStartLine::Request(req) => &req.http_version,
            HttpStartLine::Response(res) => &res.http_version,
        }
    }

    /// Gets a mutable reference to the HTTP version regardless of the variant.
    pub fn http_version_mut(&mut self) -> (r: &mut HttpVersion)
        ensures
            *r == old(self).spec_version(),
            match *old(self) {
                HttpStartLine::Request(q) => *final(self) == HttpStartLine::Request(RequestStartLine { http_version: *final(r), ..q }),
                HttpStartLine::Response(q) => *final(self) == HttpStartLine::Response(ResponseStartLine { http_version: *final(r), ..q }),
            },
    {
        match self {
            HttpStartLine::Request(req) => &mut req.http_version,
            HttpStartLine::Response(res) => &mut res.http_version,
        }
    }

    /// Checks if this start line is for an HTTP request.
    pub fn is_request(&self) -> (r: bool)
        ensures
            r == (self is Request),
    {
        matches!(self, HttpStartLine::Request(_))
    }

    /// Checks if this start line is for an HTTP response.
    pub fn is_response(&self) -> (r: bool)
        ensures
            r == (self is Response),
    {
        matches!(self, HttpStartLine::Response(_))
    }

    /// The request line, if this is a request.
    pub fn try_as_request(&self) -> (r: Option<&RequestStartLine>)
        ensures
            match self {
                HttpStartLine::Request(q) => r == Some(q),
                HttpStartLine::Response(_) => r is None,
            },
    {
        match self {
            HttpStartLine::Request(req) => Some(req),
            HttpStartLine::Response(_) => None,
        }
    }

    /// The request line; for a response, a default request line (`GET /`).
    pub fn as_request(&self) -> (r: RequestStartLine)
        ensures
            match self {
                HttpStartLine::Request(q) => r.same_as(q),
                HttpStartLine::Response(_) => is_default_request(r),
            },
    {
        match self.try_as_request() {
            Some(q) => q.clone(),
            None => RequestStartLine::default(),
        }
    }

    /// The request line, or the provided default for a response.
    pub fn as_request_or<'a>(&'a self, default: &'a RequestStartLine) -> (r: &'a RequestStartLine)
        ensures
            match self {
                HttpStartLine::Request(q) => r == q,
                HttpStartLine::Response(_) => r == default,
            },
    {
        match self.try_as_request() {
            Some(q) => q,
            None => default,
        }
    }

    /// A mutable reference to the request line, if this is a request.
    pub fn try_as_request_mut(&mut self) -> (r: Option<&mut RequestStartLine>)
        ensures
            match *old(self) {
                HttpStartLine::Request(q) => r matches Some(m) && *m == q && *final(self) == HttpStartLine::Request(*final(m)),
                HttpStartLine::Response(_) => r is None && *final(self) == *old(self),
            },
    {
        match self {
            HttpStartLine::Request(req) => Some(req),
            HttpStartLine::Response(_) => None,
        }
    }

    /// A mutable reference to the request line. A response is first replaced
    /// by the default request line (`GET /`).
    pub fn as_request_mut(&mut self) -> (r: &mut RequestStartLine)
        ensures
            (*old(self)) is Request ==> *r == (*old(self))->Request_0,
            (*old(self)) is Response ==> is_default_request(*r),
            *final(self) == HttpStartLine::Request(*final(r)),
    {
        if self.is_response() {
            *self = HttpStartLine::Request(RequestStartLine::default());
        }
        assert(*self is Request);
        match self {
            HttpStartLine::Request(req) => req,
            HttpStartLine::Response(_) => {
                proof {
                    assert(false);
                }
                #[verifier::loop_isolation(false)]
                loop
                    decreases 0nat,
                {
                }
            },
        }
    }

    /// The response line, if this is a response.
    pub fn try_as_response(&self) -> (r: Option<&ResponseStartLine>)
        ensures
            match self {
                HttpStartLine::Response(q) => r == Some(q),
                HttpStartLine::Request(_) => r is None,
            },
    {
        match self {
            HttpStartLine::Request(_) => None,
            HttpStartLine::Response(res) => Some(res),
        }
    }

    /// The response line; for a request, the default (`HTTP/1.1 200`).
    pub fn as_response(&self) -> (r: ResponseStartLine)
        ensures
            match self {
                HttpStartLine::Response(q) => r == *q,
                HttpStartLine::Request(_) => r == default_response(),
            },
    {
        match self.try_as_response() {
            Some(q) => *q,
            None => ResponseStartLine::default(),
        }
    }

    /// The response line, or the provided default for a request.
    pub fn as_response_or<'a>(&'a self, default: &'a ResponseStartLine) -> (r: &'a ResponseStartLine)
        ensures
            match self {
                HttpStartLine::Response(q) => r == q,
                HttpStartLine::Request(_) => r == default,
            },
    {
        match self.try_as_response() {
            Some(q) => q,
            None => default,
        }
    }

    /// A mutable reference to the response line, if this is a response.
    pub fn try_as_response_mut(&mut self) -> (r: Option<&mut ResponseStartLine>)
        ensures
            match *old(self) {
                HttpStartLine::Response(q) => r matches Some(m) && *m == q && *final(self) == HttpStartLine::Response(*final(m)),
                HttpStartLine::Request(_) => r is None && *final(self) == *old(self),
            },
    {
        match self {
            HttpStartLine::Request(_) => None,
            HttpStartLine::Response(res) => Some(res),
        }
    }

    /// A mutable reference to the response line. A request is first replaced
    /// by the default response line (`HTTP/1.1 200`).
    pub fn as_response_mut(&mut self) -> (r: &mut ResponseStartLine)
        ensures
            (*old(self)) is Response ==> *r == (*old(self))->Response_0,
            (*old(self)) is Request ==> *r == default_response(),
            *final(self) == HttpStartLine::Response(*final(r)),
    {
        if self.is_request() {
            *self = HttpStartLine::Response(ResponseStartLine::default());
        }
        assert(*self is Response);
        match self {
            HttpStartLine::Response(res) => res,
            HttpStartLine::Request(_) => {
                proof {
                    assert(false);
                }
                #[verifier::loop_isolation(false)]
                loop
                    decreases 0nat,
                {
                }
            },
        }
    }

    /// The method, if this is a request.
    pub fn try_method(&self) -> (r: Option<&HttpMethod>)
        ensures
            match self {
                HttpStartLine::Request(q) => r == Some(&q.method),
                HttpStartLine::Response(_) => r is None,
            },
    {
        match self.try_as_request() {
            Some(req) => Some(&req.method),
            None => None,
        }
    }

    /// The method; `GET` for a response.
    pub fn method(&self) -> (r: HttpMethod)
        ensures
            match self {
                HttpStartLine::Request(q) => r@ == q.method@ && (r is Other) == (q.method is Other),
                HttpStartLine::Response(_) => r == HttpMethod::GET,
            },
    {
        match self.try_method() {
            Some(m) => m.clone(),
            None => HttpMethod::default(),
        }
    }

    /// The method, or the provided default for a response.
    pub fn method_or(&self, default: HttpMethod) -> (r: HttpMethod)
        ensures
            match self {
                HttpStartLine::Request(q) => r@ == q.method@ && (r is Other) == (q.method is Other),
                HttpStartLine::Response(_) => r == default,
            },
    {
        match self.try_method() {
            Some(m) => m.clone(),
            None => default,
        }
    }

    /// A mutable reference to the method, if this is a request.
    pub fn try_method_mut(&mut self) -> (r: Option<&mut HttpMethod>)
        ensures
            match *old(self) {
                HttpStartLine::Request(q) => r matches Some(m) && *m == q.method
                    && *final(self) == HttpStartLine::Request(RequestStartLine { method: *final(m), ..q }),
                HttpStartLine::Response(_) => r is None && *final(self) == *old(self),
            },
    {
        match self {
            HttpStartLine::Request(req) => Some(&mut req.method),
            HttpStartLine::Response(_) => None,
        }
    }

    /// A mutable reference to the method; a response is first replaced by the
    /// default request line.
    pub fn method_mut(&mut self) -> (r: &mut HttpMethod)
        ensures
            (*old(self)) is Request ==> *r == (*old(self))->Request_0.method,
            (*old(self)) is Response ==> *r == HttpMethod::GET,
            (*final(self)) is Request,
            (*final(self))->Request_0.method == *final(r),
            (*old(self)) is Request ==> (*final(self))->Request_0 == (RequestStartLine { method: *final(r), ..(*old(self))->Request_0 }),
            (*old(self)) is Response ==> is_default_request(RequestStartLine { method: HttpMethod::GET, ..(*final(self))->Request_0 }),
    {
        let req = self.as_request_mut();
        &mut req.method
    }

    /// The request target, if this is a request.
    pub fn try_path(&self) -> (r: Option<&str>)
        ensures
            match self {
                HttpStartLine::Request(q) => r matches Some(p) && p@ == q.path@,
                HttpStartLine::Response(_) => r is None,
            },
    {
        match self.try_as_request() {
            Some(req) => Some(req.path.as_str()),
            None => None,
        }
    }

    /// The request target; `/` for a response.
    pub fn path(&self) -> (r: String)
        ensures
            match self {
                HttpStartLine::Request(q) => r@ == q.path@,
                HttpStartLine::Response(_) => r@ == "/"@,
            },
    {
        match self.try_path() {
            Some(p) => String::from_str(p),
            None => String::from_str("/"),
        }
    }

    /// The request target, or the provided default for a response.
    pub fn path_or(&self, default: &str) -> (r: String)
        ensures
            match self {
                HttpStartLine::Request(q) => r@ == q.path@,
                HttpStartLine::Response(_) => r@ == default@,
            },
    {
        match self.try_path() {
            Some(p) => String::from_str(p),
            None => String::from_str(default),
        }
    }

    /// A mutable reference to the target, if this is a request.
    pub fn try_path_mut(&mut self) -> (r: Option<&mut String>)
        ensures
            match *old(self) {
                HttpStartLine::Request(q) => r matches Some(m) && *m == q.path
                    && *final(self) == HttpStartLine::Request(RequestStartLine { path: *final(m), ..q }),
                HttpStartLine::Response(_) => r is None && *final(self) == *old(self),
            },
    {
        match self {
            HttpStartLine::Request(req) => Some(&mut req.path),
            HttpStartLine::Response(_) => None,
        }
    }

    /// A mutable reference to the target; a response is first replaced by the
    /// default request line.
    pub fn path_mut(&mut self) -> (r: &mut String)
        ensures
            (*old(self)) is Request ==> *r == (*old(self))->Request_0.path,
            (*old(self)) is Response ==> (*r)@ == "/"@,
            (*final(self)) is Request,
            (*final(self))->Request_0.path == *final(r),
            (*old(self)) is Request ==> (*final(self))->Request_0 == (RequestStartLine { path: *final(r), ..(*old(self))->Request_0 }),
    {
        let req = self.as_request_mut();
        &mut req.path
    }

    /// The cached parsed target, if this is a request whose target was parsed.
    pub fn try_url(&self) -> (r: Option<&RequestPath>)
        ensures
            match self {
                HttpStartLine::Request(q) => match q.url {
                    Some(u) => r == Some(&u),
                    None => r is None,
                },
                HttpStartLine::Response(_) => r is None,
            },
    {
        match self.try_as_request() {
            Some(req) => match &req.url {
                Some(u) => Some(u),
                None => None,
            },
            None => None,
        }
    }

    /// The cached parsed target, or the default target (`/`).
    pub fn url(&self) -> (r: RequestPath)
        ensures
            match self {
                HttpStartLine::Request(q) => match q.url {
                    Some(u) => r@ == u@,
                    None => r@ == "/"@,
                },
                HttpStartLine::Response(_) => r@ == "/"@,
            },
    {
        match self.try_url() {
            Some(url) => url.clone(),
            None => RequestPath::default(),
        }
    }

    /// The cached parsed target, or the provided default.
    pub fn url_or(&self, default: RequestPath) -> (r: RequestPath)
        ensures
            match self {
                HttpStartLine::Request(q) => match q.url {
                    Some(u) => r@ == u@,
                    None => r == default,
                },
                HttpStartLine::Response(_) => r == default,
            },
    {
        match self.try_url() {
            Some(url) => url.clone(),
            None => default,
        }
    }

    /// Gets or parses (and caches) the target; the default target for a response.
    pub fn get_url(&mut self) -> (r: RequestPath)
        ensures
            match *old(self) {
                HttpStartLine::Request(q) => (q.url is Some ==> r@ == q.url->Some_0@) && (q.url is None ==> r@ == q.path@)
                    && (*final(self)) is Request && (*final(self))->Request_0.url is Some
                    && (*final(self))->Request_0.url->Some_0@ == r@,
                HttpStartLine::Response(_) => r@ == "/"@ && *final(self) == *old(self),
            },
    {
        match self.try_get_url() {
            Some(url) => url,
            None => RequestPath::default(),
        }
    }

    /// Gets or parses (and caches) the target, if this is a request.
    pub fn try_get_url(&mut self) -> (r: Option<RequestPath>)
        ensures
            match *old(self) {
                HttpStartLine::Request(q) => r matches Some(u) && (q.url is Some ==> u@ == q.url->Some_0@)
                    && (q.url is None ==> u@ == q.path@)
                    && (*final(self)) is Request && (*final(self))->Request_0.url is Some
                    && (*final(self))->Request_0.url->Some_0@ == u@
                    && (*final(self))->Request_0.path == q.path
                    && (*final(self))->Request_0.method == q.method
                    && (*final(self))->Request_0.http_version == q.http_version,
                HttpStartLine::Response(_) => r is None && *final(self) == *old(self),
            },
    {
        match self {
            HttpStartLine::Request(req) => Some(req.get_url()),
            HttpStartLine::Response(_) => None,
        }
    }

    /// Parses (and caches) the target anew; the default target for a response.
    pub fn parse_url(&mut self) -> (r: RequestPath)
        ensures
            match *old(self) {
                HttpStartLine::Request(q) => r@ == q.path@ && (*final(self)) is Request
                    && (*final(self))->Request_0.url is Some && (*final(self))->Request_0.url->Some_0@ == q.path@,
                HttpStartLine::Response(_) => r@ == "/"@ && *final(self) == *old(self),
            },
    {
        match self.try_parse_url() {
            Some(url) => url,
            None => RequestPath::default(),
        }
    }

    /// Parses (and caches) the target anew, if this is a request.
    pub fn try_parse_url(&mut self) -> (r: Option<RequestPath>)
        ensures
            match *old(self) {
                HttpStartLine::Request(q) => r matches Some(u) && u@ == q.path@ && (*final(self)) is Request
                    && (*final(self))->Request_0.url is Some && (*final(self))->Request_0.url->Some_0@ == q.path@
                    && (*final(self))->Request_0.path == q.path
                    && (*final(self))->Request_0.method == q.method
                    && (*final(self))->Request_0.http_version == q.http_version,
                HttpStartLine::Response(_) => r is None && *final(self) == *old(self),
            },
    {
        match self {
            HttpStartLine::Request(req) => Some(req.parse_url()),
            HttpStartLine::Response(_) => None,
        }
    }

    /// The status code, if this is a response.
    pub fn try_status_code(&self) -> (r: Option<&StatusCode>)
        ensures
            match self {
                HttpStartLine::Response(q) => r == Some(&q.status_code),
                HttpStartLine::Request(_) => r is None,
            },
    {
        match self.try_as_response() {
            Some(res) => Some(&res.status_code),
            None => None,
        }
    }

    /// The status code; 200 for a request.
    pub fn status_code(&self) -> (r: StatusCode)
        ensures
            match self {
                HttpStartLine::Response(q) => r == q.status_code,
                HttpStartLine::Request(_) => r == StatusCode(200),
            },
    {
        match self.try_status_code() {
            Some(c) => *c,
            None => StatusCode::OK(),
        }
    }

    /// The status code, or the provided default for a request.
    pub fn status_code_or(&self, default: StatusCode) -> (r: StatusCode)
        ensures
            match self {
                HttpStartLine::Response(q) => r == q.status_code,
                HttpStartLine::Request(_) => r == default,
            },
    {
        match self.try_status_code() {
            Some(c) => *c,
            None => default,
        }
    }

    /// A mutable reference to the status code, if this is a response.
    pub fn try_status_code_mut(&mut self) -> (r: Option<&mut StatusCode>)
        ensures
            match *old(self) {
                HttpStartLine::Response(q) => r matches Some(m) && *m == q.status_code
                    && *final(self) == HttpStartLine::Response(ResponseStartLine { status_code: *final(m), ..q }),
                HttpStartLine::Request(_) => r is None && *final(self) == *old(self),
            },
    {
        match self {
            HttpStartLine::Request(_) => None,
            HttpStartLine::Response(res) => Some(&mut res.status_code),
        }
    }

    /// A mutable reference to the status code; a request is first replaced by
    /// the default response line.
    pub fn status_code_mut(&mut self) -> (r: &mut StatusCode)
        ensures
            (*old(self)) is Response ==> *r == (*old(self))->Response_0.status_code,
            (*old(self)) is Request ==> *r == StatusCode(200),
            (*old(self)) is Response ==> *final(self) == HttpStartLine::Response(ResponseStartLine { status_code: *final(r), ..(*old(self))->Response_0 }),
            (*old(self)) is Request ==> *final(self) == HttpStartLine::Response(ResponseStartLine { status_code: *final(r), ..default_response() }),
    {
        let res = self.as_response_mut();
        &mut res.status_code
    }

    /// Sets the status code. A request is replaced by an HTTP/1.1 response
    /// with that code.
    pub fn set_status_code(&mut self, status: StatusCode)
        ensures
            (*old(self)) is Response ==> *final(self) == HttpStartLine::Response(ResponseStartLine { status_code: status, ..(*old(self))->Response_0 }),
            (*old(self)) is Request ==> *final(self) == HttpStartLine::Response(ResponseStartLine { http_version: HttpVersion::Http11, status_code: status }),
    {
        if let HttpStartLine::Response(res) = self {
            res.status_code = status;
        } else {
            *self = HttpStartLine::Response(ResponseStartLine::new(HttpVersion::Http11, status));
        }
    }

    /// Sets the HTTP version of either kind of start line.
    pub fn set_http_version(&mut self, version: HttpVersion)
        ensures
            match *old(self) {
                HttpStartLine::Request(q) => *final(self) == HttpStartLine::Request(RequestStartLine { http_version: version, ..q }),
                HttpStartLine::Response(q) => *final(self) == HttpStartLine::Response(ResponseStartLine { http_version: version, ..q }),
            },
    {
        match self {
            HttpStartLine::Request(req) => req.http_version = version,
            HttpStartLine::Response(res) => res.http_version = version,
        }
    }

    /// Sets the request target and drops the cached parsed target. A response
    /// is replaced by `GET <path> HTTP/1.1`.
    pub fn set_path(&mut self, path: &str)
        ensures
            (*final(self)) is Request,
            (*final(self))->Request_0.path@ == path@,
            (*final(self))->Request_0.url is None,
            (*old(self)) is Request ==> (*final(self))->Request_0.method == (*old(self))->Request_0.method
                && (*final(self))->Request_0.http_version == (*old(self))->Request_0.http_version,
            (*old(self)) is Response ==> (*final(self))->Request_0.method == HttpMethod::GET
                && (*final(self))->Request_0.http_version == HttpVersion::Http11,
    {
        if let HttpStartLine::Request(req) = self {
            req.path = String::from_str(path);
            req.clear_url();
        } else {
            *self = HttpStartLine::Request(RequestStartLine::new(HttpVersion::Http11, HttpMethod::GET, String::from_str(path)));
        }
    }

    /// Sets the method. A response is replaced by `<method> / HTTP/1.1`.
    pub fn set_method(&mut self, method: HttpMethod)
        ensures
            (*old(self)) is Request ==> *final(self) == HttpStartLine::Request(RequestStartLine { method: method, ..(*old(self))->Request_0 }),
            (*old(self)) is Response ==> (*final(self)) is Request && (*final(self))->Request_0.method == method
                && (*final(self))->Request_0.path@ == "/"@ && (*final(self))->Request_0.http_version == HttpVersion::Http11
                && (*final(self))->Request_0.url is None,
    {
        if let HttpStartLine::Request(req) = self {
            req.method = method;
        } else {
            *self = HttpStartLine::Request(RequestStartLine::new(HttpVersion::Http11, method, String::from_str("/")));
        }
    }

    /// `POST <url> HTTP/1.1`.
    pub fn request_post(url: &str) -> (r: Self)
        ensures
            r matches HttpStartLine::Request(q) && q.method == HttpMethod::POST && q.path@ == url@
                && q.http_version == HttpVersion::Http11 && q.url is None,
    {
        HttpStartLine::Request(RequestStartLine::new(HttpVersion::Http11, HttpMethod::POST, String::from_str(url)))
    }

    /// `GET <url> HTTP/1.1`.
    pub fn request_get(url: &str) -> (r: Self)
        ensures
            r matches HttpStartLine::Request(q) && q.method == HttpMethod::GET && q.path@ == url@
                && q.http_version == HttpVersion::Http11 && q.url is None,
    {
        HttpStartLine::Request(RequestStartLine::new(HttpVersion::Http11, HttpMethod::GET, String::from_str(url)))
    }

    /// `HTTP/1.1 <status>`.
    pub fn response(status: StatusCode) -> (r: Self)
        ensures
            r == HttpStartLine::Response(ResponseStartLine { http_version: HttpVersion::Http11, status_code: status }),
    {
        HttpStartLine::Response(ResponseStartLine::new(HttpVersion::Http11, status))
    }

    /// The request line, or the start line itself back if it is a response.
    pub fn try_into_request(self) -> (r: Result<RequestStartLine, Self>)
        ensures
            match self {
                HttpStartLine::Request(q) => r == Ok::<RequestStartLine, Self>(q),
                HttpStartLine::Response(_) => r == Err::<RequestStartLine, Self>(self),
            },
    {
        match self {
            HttpStartLine::Request(req) => Ok(req),
            _ => Err(self),
        }
    }

    /// The response line, or the start line itself back if it is a request.
    pub fn try_into_response(self) -> (r: Result<ResponseStartLine, Self>)
        ensures
            match self {
                HttpStartLine::Response(q) => r == Ok::<ResponseStartLine, Self>(q),
                HttpStartLine::Request(_) => r == Err::<ResponseStartLine, Self>(self),
            },
    {
        match self {
            HttpStartLine::Response(res) => Ok(res),
            _ => Err(self),
        }
    }

    /// The request line; the default request line for a response.
    pub fn into_request(self) -> (r: RequestStartLine)
        ensures
            match self {
                HttpStartLine::Request(q) => r == q,
                HttpStartLine::Response(_) => is_default_request(r),
            },
    {
        match self {
            HttpStartLine::Request(req) => req,
            HttpStartLine::Response(_) => RequestStartLine::default(),
        }
    }

    /// The response line; the default response line for a request.
    pub fn into_response(self) -> (r: ResponseStartLine)
        ensures
            match self {
                HttpStartLine::Response(q) => r == q,
                HttpStartLine::Request(_) => r == default_response(),
            },
    {
        match self {
            HttpStartLine::Response(res) => res,
            HttpStartLine::Request(_) => ResponseStartLine::default(),
        }
    }

    /// Whether a response is 2xx; `None` for a request.
    pub fn try_is_success(&self) -> (r: Option<bool>)
        ensures
            match self {
                HttpStartLine::Response(q) => r == Some(200 <= q.status_code.0 <= 299),
                HttpStartLine::Request(_) => r is None,
            },
    {
        match self.try_status_code() {
            Some(code) => Some(code.is_success()),
            None => None,
        }
    }

    /// A response with a 2xx code.
    pub fn is_success(&self) -> (r: bool)
        ensures
            r == (self matches HttpStartLine::Response(q) && 200 <= q.status_code.0 <= 299),
    {
        match self.try_is_success() {
            Some(b) => b,
            None => false,
        }
    }

    /// Whether a response is 4xx; `None` for a request.
    pub fn try_is_client_error(&self) -> (r: Option<bool>)
        ensures
            match self {
                HttpStartLine::Response(q) => r == Some(400 <= q.status_code.0 <= 499),
                HttpStartLine::Request(_) => r is None,
            },
    {
        match self.try_status_code() {
            Some(code) => Some(code.is_client_error()),
            None => None,
        }
    }

    /// A response with a 4xx code.
    pub fn is_client_error(&self) -> (r: bool)
        ensures
            r == (self matches HttpStartLine::Response(q) && 400 <= q.status_code.0 <= 499),
    {
        match self.try_is_client_error() {
            Some(b) => b,
            None => false,
        }
    }

    /// Whether a response is 5xx; `None` for a request.
    pub fn try_is_server_error(&self) -> (r: Option<bool>)
        ensures
            match self {
                HttpStartLine::Response(q) => r == Some(500 <= q.status_code.0 <= 599),
                HttpStartLine::Request(_) => r is None,
            },
    {
        match self.try_status_code() {
            Some(code) => Some(code.is_server_error()),
            None => None,
        }
    }

    /// A response with a 5xx code.
    pub fn is_server_error(&self) -> (r: bool)
        ensures
            r == (self matches HttpStartLine::Response(q) && 500 <= q.status_code.0 <= 599),
    {
        match self.try_is_server_error() {
            Some(b) => b,
            None => false,
        }
    }

    /// The start line as written on the wire (without the line break).
    pub fn represent(&self) -> (r: String)
        ensures
            r@ == self.spec_text(),
    {
        match self {
            HttpStartLine::Request(req) => req.represent(),
            HttpStartLine::Response(res) => res.represent(),
        }
    }
}

} // verus!
