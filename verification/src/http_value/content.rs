//! Typed forms of the Content-Type, Content-Disposition and language headers.
use vstd::prelude::*;
use vstd::string::StringExecFns;
use crate::header::line::{all_tchars, is_tchar};
use crate::header::value::copy_string;
use crate::text::{after_first, ascii_lower_seq, ascii_lowercase, before_first, chars_of, split_once_char, trim_str, trim_ws};

verus! {

/// The media type of a header value: the text before the first `;`,
/// trimmed and in lower case.
pub open spec fn media_part(s: Seq<char>) -> Seq<char> {
    ascii_lower_seq(trim_ws(before_first(s, ';')))
}

/// The parameters of a header value: the text after the first `;`, trimmed.
pub open spec fn params_part(s: Seq<char>) -> Seq<char> {
    trim_ws(after_first(s, ';'))
}

/// A type (or disposition) followed by parameters, written as `type; params`.
pub open spec fn with_params(main: Seq<char>, params: Seq<char>) -> Seq<char> {
    if params.len() == 0 {
        main
    } else {
        main + "; "@ + params
    }
}

/// Splits a header value into its lower-cased main part and its parameters.
fn split_params(s: &str) -> (r: (String, String))
    ensures
        r.0@ == media_part(s@),
        r.1@ == params_part(s@),
{
    let (main, params) = split_once_char(s, ';');
    let main = trim_str(main.as_str());
    let main = ascii_lowercase(main.as_str());
    let params = trim_str(params.as_str());
    (main, params)
}

fn join_params(main: &str, params: &str) -> (r: String)
    ensures
        r@ == with_params(main@, params@),
{
    let mut s = String::from_str(main);
    if !params.is_empty() {
        s.append("; ");
        s.append(params);
    }
    s
}

/// A Content-Type value: media type and parameters.
#[derive(Debug)]
pub struct HttpContentType {
    media_type: String,
    params: String,
}

impl View for HttpContentType {
    type V = (Seq<char>, Seq<char>);

    open spec fn view(&self) -> (Seq<char>, Seq<char>) {
        self.spec_parts()
    }
}

impl Clone for HttpContentType {
    fn clone(&self) -> (r: Self)
        ensures
            r@ == self@,
    {
        HttpContentType { media_type: copy_string(&self.media_type), params: copy_string(&self.params) }
    }
}

impl HttpContentType {
    pub closed spec fn spec_parts(&self) -> (Seq<char>, Seq<char>) {
        (self.media_type@, self.params@)
    }

    /// Reads a Content-Type header value such as `text/html; charset=UTF-8`.
    pub fn from_str(s: &str) -> (r: Self)
        ensures
            r@ == (media_part(s@), params_part(s@)),
    {
        let (media_type, params) = split_params(s);
        HttpContentType { media_type, params }
    }

    /// A content type from its lower-case media type and its parameters.
    pub(crate) fn from_parts(media_type: String, params: String) -> (r: Self)
        ensures
            r@ == (media_type@, params@),
    {
        HttpContentType { media_type, params }
    }

    fn of(media_type: &str) -> (r: Self)
        ensures
            r@ == (media_type@, Seq::<char>::empty()),
    {
        HttpContentType { media_type: String::from_str(media_type), params: String::new() }
    }

    /// `text/html`.
    #[allow(non_snake_case)]
    pub fn TextHtml() -> (r: Self)
        ensures
            r@ == ("text/html"@, Seq::<char>::empty()),
    {
        Self::of("text/html")
    }

    /// `text/plain`.
    #[allow(non_snake_case)]
    pub fn TextPlain() -> (r: Self)
        ensures
            r@ == ("text/plain"@, Seq::<char>::empty()),
    {
        Self::of("text/plain")
    }

    /// `application/json`.
    #[allow(non_snake_case)]
    pub fn ApplicationJson() -> (r: Self)
        ensures
            r@ == ("application/json"@, Seq::<char>::empty()),
    {
        Self::of("application/json")
    }

    /// `application/octet-stream`.
    #[allow(non_snake_case)]
    pub fn ApplicationOctetStream() -> (r: Self)
        ensures
            r@ == ("application/octet-stream"@, Seq::<char>::empty()),
    {
        Self::of("application/octet-stream")
    }

    /// `application/x-www-form-urlencoded`.
    #[allow(non_snake_case)]
    pub fn ApplicationUrlEncodedForm() -> (r: Self)
        ensures
            r@ == ("application/x-www-form-urlencoded"@, Seq::<char>::empty()),
    {
        Self::of("application/x-www-form-urlencoded")
    }

    /// The lower-case media type, e.g. `text/html`.
    pub fn media_type(&self) -> (r: &str)
        ensures
            r@ == self@.0,
    {
        self.media_type.as_str()
    }

    /// The parameters as written after the first `;`.
    pub fn params(&self) -> (r: &str)
        ensures
            r@ == self@.1,
    {
        self.params.as_str()
    }

    /// The header value: `type; params`.
    pub fn to_string(&self) -> (r: String)
        ensures
            r@ == with_params(self@.0, self@.1),
    {
        join_params(self.media_type.as_str(), self.params.as_str())
    }
}

/// Errors raised while reading a Content-Disposition value.
#[derive(Debug, Clone, Copy, PartialEq, Eq, Structural)]
pub enum ContentDispositionError {
    /// The disposition type is missing or is not a token.
    InvalidType,
}

/// A Content-Disposition value: disposition type and parameters.
#[derive(Debug)]
pub struct ContentDisposition {
    disposition: String,
    params: String,
}

impl View for ContentDisposition {
    type V = (Seq<char>, Seq<char>);

    open spec fn view(&self) -> (Seq<char>, Seq<char>) {
        self.spec_parts()
    }
}

impl Clone for ContentDisposition {
    fn clone(&self) -> (r: Self)
        ensures
            r@ == self@,
    {
        ContentDisposition { disposition: copy_string(&self.disposition), params: copy_string(&self.params) }
    }
}

/// The disposition type of a value is a non-empty token.
pub open spec fn valid_disposition(s: Seq<char>) -> bool {
    media_part(s).len() > 0 && all_tchars(media_part(s))
}

impl ContentDisposition {
    pub closed spec fn spec_parts(&self) -> (Seq<char>, Seq<char>) {
        (self.disposition@, self.params@)
    }

    /// Reads a Content-Disposition value such as `attachment; filename="a.txt"`.
    /// The disposition type must be a non-empty token.
    pub fn parse(s: &str) -> (r: Result<Self, ContentDispositionError>)
        ensures
            valid_disposition(s@) ==> (r matches Ok(d) && d@ == (media_part(s@), params_part(s@))),
            !valid_disposition(s@) ==> r == Err::<Self, ContentDispositionError>(ContentDispositionError::InvalidType),
    {
        let (disposition, params) = split_params(s);
        let cs = chars_of(disposition.as_str());
        if cs.len() == 0 {
            return Err(ContentDispositionError::InvalidType);
        }
        let mut i: usize = 0;
        while i < cs.len()
            invariant
                i <= cs@.len(),
                cs@ == media_part(s@),
                forall|k: int| 0 <= k < i ==> crate::header::line::spec_is_tchar(#[trigger] cs@[k]),
            decreases cs.len() - i,
        {
            if !is_tchar(cs[i]) {
                assert(!crate::header::line::spec_is_tchar(cs@[i as int]));
                return Err(ContentDispositionError::InvalidType);
            }
            i += 1;
        }
        Ok(ContentDisposition { disposition, params })
    }

    /// The lower-case disposition type, e.g. `attachment`.
    pub fn disposition(&self) -> (r: &str)
        ensures
            r@ == self@.0,
    {
        self.disposition.as_str()
    }

    /// The parameters as written after the first `;`.
    pub fn params(&self) -> (r: &str)
        ensures
            r@ == self@.1,
    {
        self.params.as_str()
    }

    /// The header value: `type; params`.
    pub fn to_string(&self) -> (r: String)
        ensures
            r@ == with_params(self@.0, self@.1),
    {
        join_params(self.disposition.as_str(), self.params.as_str())
    }
}

/// A language list (Accept-Language in requests, Content-Language in
/// responses), kept as its trimmed text.
#[derive(Debug)]
pub struct AcceptLang {
    text: String,
}

impl View for AcceptLang {
    type V = Seq<char>;

    open spec fn view(&self) -> Seq<char> {
        self.spec_text()
    }
}

impl Clone for AcceptLang {
    fn clone(&self) -> (r: Self)
        ensures
            r@ == self@,
    {
        AcceptLang { text: copy_string(&self.text) }
    }
}

/// The first language of a list, without its weight.
pub open spec fn spec_most_preferred(s: Seq<char>) -> Seq<char> {
    trim_ws(before_first(before_first(s, ','), ';'))
}

impl AcceptLang {
    pub closed spec fn spec_text(&self) -> Seq<char> {
        self.text@
    }

    /// Reads a language list such as `en-US, en;q=0.9`.
    pub fn from_str(s: &str) -> (r: Self)
        ensures
            r@ == trim_ws(s@),
    {
        AcceptLang { text: trim_str(s) }
    }

    /// The first language of the list, without its weight.
    pub fn most_preferred(&self) -> (r: String)
        ensures
            r@ == spec_most_preferred(self@),
    {
        let (first, _) = split_once_char(self.text.as_str(), ',');
        let (tag, _) = split_once_char(first.as_str(), ';');
        trim_str(tag.as_str())
    }

    /// The value written in an Accept-Language header.
    pub fn to_header_string(&self) -> (r: String)
        ensures
            r@ == self@,
    {
        copy_string(&self.text)
    }

    /// The value written in a Content-Language header.
    pub fn to_response_header(&self) -> (r: String)
        ensures
            r@ == self@,
    {
        copy_string(&self.text)
    }
}

} // verus!
