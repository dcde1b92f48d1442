//! HTTP request methods.
use vstd::prelude::*;
use vstd::string::StringExecFns;
use crate::header::line::{all_tchars, is_tchar};
use crate::header::value::copy_string;
use crate::start_line::error::StartLineError;
use crate::text::{chars_of, str_eq};

verus! {

/// An HTTP request method. Methods outside the standard set are kept as
/// `Other` with their text.
#[derive(Debug)]
pub enum HttpMethod {
    GET,
    POST,
    PUT,
    DELETE,
    HEAD,
    OPTIONS,
    PATCH,
    TRACE,
    CONNECT,
    Other(String),
}

/// `s` is the name of one of the standard methods.
pub open spec fn is_standard_method(s: Seq<char>) -> bool {
    s == "GET"@ || s == "POST"@ || s == "PUT"@ || s == "DELETE"@ || s == "HEAD"@
        || s == "OPTIONS"@ || s == "PATCH"@ || s == "TRACE"@ || s == "CONNECT"@
}

/// The method text of a request line is a valid token.
pub open spec fn is_method_token(s: Seq<char>) -> bool {
    s.len() > 0 && all_tchars(s)
}

impl View for HttpMethod {
    type V = Seq<char>;

    /// The method's text.
    open spec fn view(&self) -> Seq<char> {
        match self {
            HttpMethod::GET => "GET"@,
            HttpMethod::POST => "POST"@,
            HttpMethod::PUT => "PUT"@,
            HttpMethod::DELETE => "DELETE"@,
            HttpMethod::HEAD => "HEAD"@,
            HttpMethod::OPTIONS => "OPTIONS"@,
            HttpMethod::PATCH => "PATCH"@,
            HttpMethod::TRACE => "TRACE"@,
            HttpMethod::CONNECT => "CONNECT"@,
            HttpMethod::Other(s) => s@,
        }
    }
}

impl Clone for HttpMethod {
    fn clone(&self) -> (r: Self)
        ensures
            r@ == self@,
            (r is Other) == (self is Other),
    {
        match self {
            HttpMethod::GET => HttpMethod::GET,
            HttpMethod::POST => HttpMethod::POST,
            HttpMethod::PUT => HttpMethod::PUT,
            HttpMethod::DELETE => HttpMethod::DELETE,
            HttpMethod::HEAD => HttpMethod::HEAD,
            HttpMethod::OPTIONS => HttpMethod::OPTIONS,
            HttpMethod::PATCH => HttpMethod::PATCH,
            HttpMethod::TRACE => HttpMethod::TRACE,
            HttpMethod::CONNECT => HttpMethod::CONNECT,
            HttpMethod::Other(s) => HttpMethod::Other(copy_string(s)),
        }
    }
}

impl Default for HttpMethod {
    fn default() -> (r: Self)
        ensures
            r == HttpMethod::GET,
    {
        HttpMethod::GET
    }
}

impl HttpMethod {
    /// Parses the method field of a request line. The text must be a
    /// non-empty token; standard names (case-sensitive) get their own
    /// variant, anything else becomes `Other`.
    pub fn parse(s: &str) -> (r: Result<HttpMethod, StartLineError>)
        ensures
            is_method_token(s@) ==> (r matches Ok(m) && m@ == s@ && (m is Other <==> !is_standard_method(s@))),
            !is_method_token(s@) ==> r == Err::<HttpMethod, StartLineError>(StartLineError::InvalidMethodToken),
    {
        let cs = chars_of(s);
        if cs.len() == 0 {
            return Err(StartLineError::InvalidMethodToken);
        }
        let mut i: usize = 0;
        while i < cs.len()
            invariant
                i <= cs@.len(),
                cs@ == s@,
                forall|k: int| 0 <= k < i ==> crate::header::line::spec_is_tchar(#[trigger] cs@[k]),
            decreases cs.len() - i,
        {
            if !is_tchar(cs[i]) {
                assert(!crate::header::line::spec_is_tchar(s@[i as int]));
                return Err(StartLineError::InvalidMethodToken);
            }
            i += 1;
        }
        if str_eq(s, "GET") {
            Ok(HttpMethod::GET)
        } else if str_eq(s, "POST") {
            Ok(HttpMethod::POST)
        } else if str_eq(s, "PUT") {
            Ok(HttpMethod::PUT)
        } else if str_eq(s, "DELETE") {
            Ok(HttpMethod::DELETE)
        } else if str_eq(s, "HEAD") {
            Ok(HttpMethod::HEAD)
        } else if str_eq(s, "OPTIONS") {
            Ok(HttpMethod::OPTIONS)
        } else if str_eq(s, "PATCH") {
            Ok(HttpMethod::PATCH)
        } else if str_eq(s, "TRACE") {
            Ok(HttpMethod::TRACE)
        } else if str_eq(s, "CONNECT") {
            Ok(HttpMethod::CONNECT)
        } else {
            Ok(HttpMethod::Other(String::from_str(s)))
        }
    }

    /// The method's text.
    pub fn to_string(&self) -> (r: String)
        ensures
            r@ == self@,
    {
        match self {
            HttpMethod::GET => String::from_str("GET"),
            HttpMethod::POST => String::from_str("POST"),
            HttpMethod::PUT => String::from_str("PUT"),
            HttpMethod::DELETE => String::from_str("DELETE"),
            HttpMethod::HEAD => String::from_str("HEAD"),
            HttpMethod::OPTIONS => String::from_str("OPTIONS"),
            HttpMethod::PATCH => String::from_str("PATCH"),
            HttpMethod::TRACE => String::from_str("TRACE"),
            HttpMethod::CONNECT => String::from_str("CONNECT"),
            HttpMethod::Other(s) => copy_string(s),
        }
    }
}

} // verus!
