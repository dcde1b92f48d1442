//! HTTP protocol versions.
use vstd::prelude::*;
use vstd::string::StringExecFns;
use crate::start_line::error::StartLineError;
use crate::text::{chars_of, str_eq, is_digit};

verus! {

/// An HTTP protocol version.
#[derive(Debug, Clone, Copy, PartialEq, Eq, Structural)]
pub enum HttpVersion {
    Http09,
    Http10,
    Http11,
    Http20,
    Http30,
    /// A version text this library does not know.
    Unknown,
}

/// `s` has the shape `HTTP/<digit>.<digit>` of RFC 9112.
pub open spec fn is_version_syntax(s: Seq<char>) -> bool {
    &&& s.len() == 8
    &&& s[0] == 'H' && s[1] == 'T' && s[2] == 'T' && s[3] == 'P' && s[4] == '/'
    &&& is_digit(s[5])
    &&& s[6] == '.'
    &&& is_digit(s[7])
}

impl HttpVersion {
    /// The text written for the version.
    pub open spec fn spec_text(&self) -> Seq<char> {
        match self {
            HttpVersion::Http09 => "HTTP/0.9"@,
            HttpVersion::Http10 => "HTTP/1.0"@,
            HttpVersion::Http11 => "HTTP/1.1"@,
            HttpVersion::Http20 => "HTTP/2"@,
            HttpVersion::Http30 => "HTTP/3"@,
            HttpVersion::Unknown => "UNKNOWN"@,
        }
    }

    /// The version a text names; anything unrecognised is `Unknown`.
    pub open spec fn spec_from_text(s: Seq<char>) -> HttpVersion {
        if s == "HTTP/0.9"@ {
            HttpVersion::Http09
        } else if s == "HTTP/1.0"@ {
            HttpVersion::Http10
        } else if s == "HTTP/1.1"@ {
            HttpVersion::Http11
        } else if s == "HTTP/2"@ || s == "HTTP/2.0"@ {
            HttpVersion::Http20
        } else if s == "HTTP/3"@ || s == "HTTP/3.0"@ {
            HttpVersion::Http30
        } else {
            HttpVersion::Unknown
        }
    }

    /// The strict reading of a request-line version: HTTP/1.0 and HTTP/1.1
    /// are supported, any other `HTTP/d.d` is unsupported, the rest malformed.
    pub open spec fn spec_parse(s: Seq<char>) -> Result<HttpVersion, StartLineError> {
        if s == "HTTP/1.0"@ {
            Ok(HttpVersion::Http10)
        } else if s == "HTTP/1.1"@ {
            Ok(HttpVersion::Http11)
        } else if is_version_syntax(s) {
            Err(StartLineError::UnsupportedHttpVersion)
        } else {
            Err(StartLineError::MalformedHttpVersion)
        }
    }

    /// The text written for the version.
    pub fn to_string(&self) -> (r: String)
        ensures
            r@ == self.spec_text(),
    {
        match self {
            HttpVersion::Http09 => String::from_str("HTTP/0.9"),
            HttpVersion::Http10 => String::from_str("HTTP/1.0"),
            HttpVersion::Http11 => String::from_str("HTTP/1.1"),
            HttpVersion::Http20 => String::from_str("HTTP/2"),
            HttpVersion::Http30 => String::from_str("HTTP/3"),
            HttpVersion::Unknown => String::from_str("UNKNOWN"),
        }
    }

    /// The version a text names; anything unrecognised is `Unknown`.
    pub fn from_string(s: &str) -> (r: HttpVersion)
        ensures
            r == HttpVersion::spec_from_text(s@),
    {
        if str_eq(s, "HTTP/0.9") {
            HttpVersion::Http09
        } else if str_eq(s, "HTTP/1.0") {
            HttpVersion::Http10
        } else if str_eq(s, "HTTP/1.1") {
            HttpVersion::Http11
        } else if str_eq(s, "HTTP/2") || str_eq(s, "HTTP/2.0") {
            HttpVersion::Http20
        } else if str_eq(s, "HTTP/3") || str_eq(s, "HTTP/3.0") {
            HttpVersion::Http30
        } else {
            HttpVersion::Unknown
        }
    }

    /// Parses the version field of a request line.
    pub fn parse(s: &str) -> (r: Result<HttpVersion, StartLineError>)
        ensures
            r == HttpVersion::spec_parse(s@),
    {
        if str_eq(s, "HTTP/1.0") {
            return Ok(HttpVersion::Http10);
        }
        if str_eq(s, "HTTP/1.1") {
            return Ok(HttpVersion::Http11);
        }
        let cs = chars_of(s);
        if cs.len() == 8 && cs[0] == 'H' && cs[1] == 'T' && cs[2] == 'T' && cs[3] == 'P'
            && cs[4] == '/' && '0' <= cs[5] && cs[5] <= '9' && cs[6] == '.' && '0' <= cs[7]
            && cs[7] <= '9' {
            Err(StartLineError::UnsupportedHttpVersion)
        } else {
            Err(StartLineError::MalformedHttpVersion)
        }
    }
}

impl Default for HttpVersion {
    fn default() -> (r: Self)
        ensures
            r == HttpVersion::Http11,
    {
        HttpVersion::Http11
    }
}

/// Reading the written text of a version gives the version back.
pub proof fn lemma_version_text_roundtrip(v: HttpVersion)
    ensures
        HttpVersion::spec_from_text(v.spec_text()) == v,
{
    reveal_strlit("HTTP/0.9");
    reveal_strlit("HTTP/1.0");
    reveal_strlit("HTTP/1.1");
    reveal_strlit("HTTP/2");
    reveal_strlit("HTTP/2.0");
    reveal_strlit("HTTP/3");
    reveal_strlit("HTTP/3.0");
    reveal_strlit("UNKNOWN");
    let t = v.spec_text();
    match v {
        HttpVersion::Http09 => {},
        HttpVersion::Http10 => {
            assert(t[7] != "HTTP/0.9"@[7]);
        },
        HttpVersion::Http11 => {
            assert(t[7] != "HTTP/0.9"@[7]);
            assert(t[7] != "HTTP/1.0"@[7]);
        },
        HttpVersion::Http20 => {
            assert(t.len() != "HTTP/0.9"@.len());
        },
        HttpVersion::Http30 => {
            assert(t.len() != "HTTP/0.9"@.len());
            assert(t[5] != "HTTP/2"@[5]);
        },
        HttpVersion::Unknown => {
            assert(t.len() != "HTTP/0.9"@.len());
            assert(t.len() != "HTTP/2"@.len());
            assert(t.len() != "HTTP/2.0"@.len());
        },
    }
}

/// The written text of a supported version parses back strictly.
pub proof fn lemma_version_parse_roundtrip(v: HttpVersion)
    requires
        v == HttpVersion::Http10 || v == HttpVersion::Http11,
    ensures
        HttpVersion::spec_parse(v.spec_text()) == Ok::<HttpVersion, StartLineError>(v),
{
    reveal_strlit("HTTP/1.0");
    reveal_strlit("HTTP/1.1");
    if v == HttpVersion::Http11 {
        assert(v.spec_text()[7] != "HTTP/1.0"@[7]);
    }
}

} // verus!
