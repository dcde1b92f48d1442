//! The status line: HTTP version and status code.
use vstd::prelude::*;
use vstd::string::StringExecFns;
use crate::http_value::status::{StatusCode, spec_status_text};
use crate::http_value::version::HttpVersion;
use crate::start_line::error::StartLineError;
use crate::text::{decimal_digits, is_digit, lemma_decimal_digits_value, lemma_decimal_roundtrip, lemma_words_concat, lemma_words_single, no_whitespace, parse_unsigned, spec_is_whitespace, spec_parse_unsigned, split_words, words};
use crate::http_value::status::spec_reason_phrase;
use crate::http_value::version::lemma_version_text_roundtrip;

verus! {

/// The outcome of parsing a status line: its version (unknown texts become
/// `Unknown`) and code, or the first rule broken. Words after the code (the
/// reason phrase) are ignored.
pub open spec fn spec_parse_status_line(s: Seq<char>) -> Result<(HttpVersion, u16), StartLineError> {
    let parts = words(s);
    if parts.len() == 0 {
        Err(StartLineError::Empty)
    } else if parts.len() < 2 {
        Err(StartLineError::Unrecognised)
    } else {
        match spec_parse_unsigned(parts[1]) {
            Some(n) => if n <= 65535 {
                Ok((HttpVersion::spec_from_text(parts[0]), n as u16))
            } else {
                Err(StartLineError::InvalidStatusCode)
            },
            None => Err(StartLineError::InvalidStatusCode),
        }
    }
}

/// The status line `version code reason`.
pub open spec fn spec_response_text(version: HttpVersion, code: StatusCode) -> Seq<char> {
    version.spec_text() + " "@ + spec_status_text(code.0)
}

/// ResponseStartLine is the first line of the HTTP response, which contains the HTTP version and status code.
#[derive(Debug, Clone, Copy, PartialEq, Eq, Structural)]
pub struct ResponseStartLine {
    pub http_version: HttpVersion,
    pub status_code: StatusCode,
}

impl Default for ResponseStartLine {
    fn default() -> (r: Self)
        ensures
            r == (ResponseStartLine { http_version: HttpVersion::Http11, status_code: StatusCode(200) }),
    {
        ResponseStartLine::new(HttpVersion::Http11, StatusCode::OK())
    }
}

impl ResponseStartLine {
    /// Creates a new HTTP response start line.
    pub fn new(http_version: HttpVersion, status_code: StatusCode) -> (r: Self)
        ensures
            r.http_version == http_version,
            r.status_code == status_code,
    {
        ResponseStartLine { http_version, status_code }
    }

    /// Parses `HTTP/x.y code [reason]`.
    pub fn parse(line: &str) -> (r: Result<Self, StartLineError>)
        ensures
            match spec_parse_status_line(line@) {
                Ok((v, c)) => r == Ok::<Self, StartLineError>(ResponseStartLine { http_version: v, status_code: StatusCode(c) }),
                Err(e) => r == Err::<Self, StartLineError>(e),
            },
    {
        let parts = split_words(line);
        if parts.len() == 0 {
            return Err(StartLineError::Empty);
        }
        if parts.len() < 2 {
            return Err(StartLineError::Unrecognised);
        }
        let http_version = HttpVersion::from_string(parts[0].as_str());
        match parse_unsigned(parts[1].as_str(), 65535) {
            Some(code) => Ok(ResponseStartLine::new(http_version, StatusCode(code as u16))),
            None => Err(StartLineError::InvalidStatusCode),
        }
    }

    /// The status line as written on the wire (without the line break).
    pub fn represent(&self) -> (r: String)
        ensures
            r@ == spec_response_text(self.http_version, self.status_code),
    {
        let mut s = self.http_version.to_string();
        s.append(" ");
        let c = self.status_code.to_string();
        s.append(c.as_str());
        s
    }
}

/// A status line as `represent` writes it reads back as the same version
/// and status code.
pub proof fn law_status_line_roundtrip(version: HttpVersion, code: StatusCode)
    ensures
        spec_parse_status_line(spec_response_text(version, code)) == Ok::<(HttpVersion, u16), StartLineError>((version, code.0)),
{
    reveal_strlit(" ");
    reveal_strlit("HTTP/0.9");
    reveal_strlit("HTTP/1.0");
    reveal_strlit("HTTP/1.1");
    reveal_strlit("HTTP/2");
    reveal_strlit("HTTP/3");
    reveal_strlit("UNKNOWN");
    let vt = version.spec_text();
    assert(vt.len() > 0 && no_whitespace(vt));
    let digits = decimal_digits(code.0 as nat);
    lemma_decimal_digits_value(code.0 as nat);
    lemma_decimal_roundtrip(code.0 as nat);
    assert(no_whitespace(digits)) by {
        assert forall|k: int| 0 <= k < digits.len() implies !spec_is_whitespace(#[trigger] digits[k]) by {
            assert(is_digit(digits[k]));
        }
    }
    lemma_words_single(vt);
    lemma_words_single(digits);
    lemma_version_text_roundtrip(version);
    let status = spec_status_text(code.0);
    lemma_words_concat(vt, ' ', status);
    assert(spec_response_text(version, code) =~= vt + seq![' '] + status);
    if spec_reason_phrase(code.0).len() == 0 {
        assert(status == digits);
    } else {
        lemma_words_concat(digits, ' ', spec_reason_phrase(code.0));
        assert(status =~= digits + seq![' '] + spec_reason_phrase(code.0));
    }
    let parts = words(spec_response_text(version, code));
    assert(parts[0] == vt);
    assert(parts[1] == digits);
}

} // verus!
