//! The Connection header and persistence of HTTP/1 connections.
use vstd::prelude::*;
use vstd::string::StringExecFns;
use crate::header::line::{all_tchars, is_tchar};
use crate::header::map::HeaderMap;
use crate::header::value::{copy_strings, HeaderValueView};
use crate::http_value::status::StatusCode;
use crate::http_value::version::HttpVersion;
use crate::text::{chars_of, comma_items, comma_list, contains_text};

verus! {

/// Errors raised while reading the Connection header.
#[derive(Debug, Clone, Copy, PartialEq, Eq, Structural)]
#[non_exhaustive]
pub enum ConnectionError {
    /// An option was not a valid token.
    InvalidToken,
}

impl ConnectionError {
    pub open spec fn spec_message(&self) -> Seq<char> {
        "invalid Connection header option"@
    }

    /// The human-readable description of the error.
    pub fn to_string(&self) -> (r: String)
        ensures
            r@ == self.spec_message(),
    {
        String::from_str("invalid Connection header option")
    }

    /// A malformed Connection header does not lose the message boundary.
    pub fn can_continue(&self) -> (r: bool)
        ensures
            r,
    {
        true
    }

    /// The status code a server answers this error with.
    pub fn status_code(&self) -> (r: StatusCode)
        ensures
            r == StatusCode(400),
    {
        StatusCode::BAD_REQUEST()
    }
}

/// The options listed by the Connection values `values`, in order.
pub open spec fn tokens_of(values: Seq<Seq<char>>) -> Seq<Seq<char>>
    decreases values.len(),
{
    if values.len() == 0 {
        Seq::empty()
    } else {
        tokens_of(values.drop_last()) + comma_items(values.last())
    }
}

/// The values of the Connection header of `h` (none when absent).
pub open spec fn connection_values(h: Map<Seq<char>, HeaderValueView>) -> Seq<Seq<char>> {
    if h.contains_key("connection"@) {
        h["connection"@].items()
    } else {
        Seq::empty()
    }
}

/// Every option is a token.
pub open spec fn all_tokens(t: Seq<Seq<char>>) -> bool {
    forall|i: int| 0 <= i < t.len() ==> all_tchars(#[trigger] t[i])
}

/// Whether an HTTP/1 connection stays open: never after `close`; by default
/// from HTTP/1.1 on; with HTTP/1.0 only when `keep-alive` is listed.
pub open spec fn spec_keep_alive(tokens: Seq<Seq<char>>, version: HttpVersion) -> bool {
    if tokens.contains("close"@) {
        false
    } else {
        match version {
            HttpVersion::Http11 | HttpVersion::Http20 | HttpVersion::Http30 => true,
            HttpVersion::Http10 => tokens.contains("keep-alive"@),
            _ => false,
        }
    }
}

/// The options of the Connection header, lower case, in order.
#[derive(Debug)]
pub struct ConnectionOptions {
    tokens: Vec<String>,
}

impl View for ConnectionOptions {
    type V = Seq<Seq<char>>;

    open spec fn view(&self) -> Seq<Seq<char>> {
        self.spec_tokens()
    }
}

impl Clone for ConnectionOptions {
    fn clone(&self) -> (r: Self)
        ensures
            r@ == self@,
    {
        ConnectionOptions { tokens: copy_strings(&self.tokens) }
    }
}

fn is_token(s: &str) -> (r: bool)
    ensures
        r == all_tchars(s@),
{
    let cs = chars_of(s);
    let mut i: usize = 0;
    while i < cs.len()
        invariant
            i <= cs@.len(),
            cs@ == s@,
            forall|k: int| 0 <= k < i ==> crate::header::line::spec_is_tchar(#[trigger] cs@[k]),
        decreases cs.len() - i,
    {
        if !is_tchar(cs[i]) {
            assert(!crate::header::line::spec_is_tchar(s@[i as int]));
            return false;
        }
        i += 1;
    }
    true
}

impl ConnectionOptions {
    pub closed spec fn spec_tokens(&self) -> Seq<Seq<char>> {
        self.tokens.deep_view()
    }

    /// Reads every Connection value of `headers`. Options must be tokens.
    pub fn from_headers(headers: &HeaderMap) -> (r: Result<ConnectionOptions, ConnectionError>)
        ensures
            all_tokens(tokens_of(connection_values(headers@))) ==> (r matches Ok(c) && c@ == tokens_of(connection_values(headers@))),
            !all_tokens(tokens_of(connection_values(headers@))) ==> r == Err::<ConnectionOptions, ConnectionError>(ConnectionError::InvalidToken),
    {
        let values = headers.get_all("connection");
        let ghost vs = connection_values(headers@);
        let mut tokens: Vec<String> = Vec::new();
        let mut i: usize = 0;
        while i < values.len()
            invariant
                i <= values@.len() == vs.len(),
                vs == connection_values(headers@),
                forall|k: int| 0 <= k < values@.len() ==> (#[trigger] values@[k])@ == vs[k],
                tokens.deep_view() == tokens_of(vs.take(i as int)),
                all_tokens(tokens.deep_view()),
            decreases values.len() - i,
        {
            let items = comma_list(values[i]);
            let ghost before = tokens.deep_view();
            proof {
                assert(vs.take(i + 1).drop_last() =~= vs.take(i as int));
            }
            let mut j: usize = 0;
            while j < items.len()
                invariant
                    j <= items@.len(),
                    i < vs.len(),
                    vs == connection_values(headers@),
                    before == tokens_of(vs.take(i as int)),
                    all_tokens(before),
                    items.deep_view() == comma_items(vs[i as int]),
                    tokens.deep_view() == before + items.deep_view().take(j as int),
                    all_tokens(tokens.deep_view()),
                decreases items.len() - j,
            {
                if !is_token(items[j].as_str()) {
                    proof {
                        let all = tokens_of(vs);
                        assert(all_tokens(before));
                        lemma_tokens_prefix(vs, i as int + 1);
                        assert(vs.take(i + 1).drop_last() =~= vs.take(i as int));
                        assert(vs.take(i + 1).last() == vs[i as int]);
                        assert(tokens_of(vs.take(i + 1)) =~= before + items.deep_view());
                        assert(!all_tchars(tokens_of(vs.take(i + 1))[before.len() + j]));
                        assert(tokens_of(vs)[before.len() + j] == tokens_of(vs.take(i + 1))[before.len() + j]);
                    }
                    return Err(ConnectionError::InvalidToken);
                }
                let ghost prev = tokens.deep_view();
                tokens.push(copy_strings_one(&items[j]));
                proof {
                    assert(tokens.deep_view() =~= prev.push(items@[j as int]@));
                    assert(items.deep_view()[j as int] == items@[j as int]@);
                    assert(tokens.deep_view() =~= before + items.deep_view().take(j + 1));
                    assert forall|k: int| 0 <= k < tokens.deep_view().len() implies all_tchars(#[trigger] tokens.deep_view()[k]) by {
                        if k < prev.len() {
                            assert(tokens.deep_view()[k] == prev[k]);
                        }
                    }
                }
                j += 1;
            }
            proof {
                assert(items.deep_view().take(items@.len() as int) =~= items.deep_view());
                assert(vs.take(i + 1).last() == vs[i as int]);
            }
            i += 1;
        }
        proof {
            assert(vs.take(values@.len() as int) =~= vs);
        }
        Ok(ConnectionOptions { tokens })
    }

    /// `close` is listed.
    pub fn close(&self) -> (r: bool)
        ensures
            r == self@.contains("close"@),
    {
        contains_text(&self.tokens, "close")
    }

    /// `keep-alive` is listed.
    pub fn keep_alive(&self) -> (r: bool)
        ensures
            r == self@.contains("keep-alive"@),
    {
        contains_text(&self.tokens, "keep-alive")
    }

    /// Whether the connection stays open after a message of `version`.
    pub fn is_keep_alive(&self, version: &HttpVersion) -> (r: bool)
        ensures
            r == spec_keep_alive(self@, *version),
    {
        if self.close() {
            return false;
        }
        match version {
            HttpVersion::Http11 | HttpVersion::Http20 | HttpVersion::Http30 => true,
            HttpVersion::Http10 => self.keep_alive(),
            _ => false,
        }
    }
}

fn copy_strings_one(s: &String) -> (r: String)
    ensures
        r@ == s@,
{
    crate::header::value::copy_string(s)
}

/// The options of a prefix of the values are a prefix of all options.
pub proof fn lemma_tokens_prefix(vs: Seq<Seq<char>>, n: int)
    requires
        0 <= n <= vs.len(),
    ensures
        tokens_of(vs.take(n)).len() <= tokens_of(vs).len(),
        forall|k: int| 0 <= k < tokens_of(vs.take(n)).len() ==> tokens_of(vs)[k] == #[trigger] tokens_of(vs.take(n))[k],
    decreases vs.len() - n,
{
    if n < vs.len() {
        lemma_tokens_prefix(vs, n + 1);
        assert(vs.take(n + 1).drop_last() =~= vs.take(n));
        assert(vs.take(n + 1).last() == vs[n]);
        let a = tokens_of(vs.take(n));
        let b = tokens_of(vs.take(n + 1));
        assert(b == a + comma_items(vs[n]));
        assert forall|k: int| 0 <= k < a.len() implies tokens_of(vs)[k] == #[trigger] a[k] by {
            assert(b[k] == a[k]);
        }
    } else {
        assert(vs.take(n) =~= vs);
    }
}

/// A `close` option always ends the connection after the message, whatever
/// the version.
pub proof fn law_close_ends_the_connection(tokens: Seq<Seq<char>>, version: HttpVersion)
    requires
        tokens.contains("close"@),
    ensures
        !spec_keep_alive(tokens, version),
{
}

/// Without a `close` option, an HTTP/1.1 message keeps the connection open,
/// and an HTTP/1.0 message keeps it open exactly when it lists `keep-alive`.
pub proof fn law_keep_alive_defaults(tokens: Seq<Seq<char>>)
    requires
        !tokens.contains("close"@),
    ensures
        spec_keep_alive(tokens, HttpVersion::Http11),
        spec_keep_alive(tokens, HttpVersion::Http10) == tokens.contains("keep-alive"@),
{
}

} // verus!
