//! Transfer-Encoding and Content-Encoding headers.
use vstd::prelude::*;
use vstd::string::StringExecFns;
use crate::header::value::copy_string;
use crate::http_value::status::StatusCode;
use crate::text::{comma_items, comma_list, str_eq};

verus! {

/// Errors raised while validating the transfer codings of a message.
#[derive(Debug, Clone, Copy, PartialEq, Eq, Structural)]
#[non_exhaustive]
pub enum EncodingError {
    /// `chunked` was listed more than once.
    DuplicateChunked,
    /// Another coding was listed after `chunked`, which must come last.
    CodingAfterChunked,
}

impl EncodingError {
    pub open spec fn spec_message(&self) -> Seq<char> {
        match self {
            EncodingError::DuplicateChunked => "`chunked` appeared more than once in Transfer-Encoding"@,
            EncodingError::CodingAfterChunked => "a transfer coding was applied after `chunked`"@,
        }
    }

    /// The human-readable description of the error.
    pub fn to_string(&self) -> (r: String)
        ensures
            r@ == self.spec_message(),
    {
        match self {
            EncodingError::DuplicateChunked => String::from_str("`chunked` appeared more than once in Transfer-Encoding"),
            EncodingError::CodingAfterChunked => String::from_str("a transfer coding was applied after `chunked`"),
        }
    }

    /// Framing errors leave the message boundary unknown: the connection
    /// cannot continue.
    pub fn can_continue(&self) -> (r: bool)
        ensures
            !r,
    {
        false
    }

    /// The status code a server answers this error with.
    pub fn status_code(&self) -> (r: StatusCode)
        ensures
            r == StatusCode(400),
    {
        StatusCode::BAD_REQUEST()
    }
}

/// The verdict on a list of transfer codings: `chunked` may appear once, and
/// only last. The first rule broken, reading from the left, is reported.
pub open spec fn spec_check_codings(c: Seq<Seq<char>>) -> Result<(), EncodingError>
    decreases c.len(),
{
    if c.len() == 0 {
        Ok(())
    } else {
        match spec_check_codings(c.drop_last()) {
            Err(e) => Err(e),
            Ok(()) => if c.drop_last().contains("chunked"@) {
                if c.last() == "chunked"@ {
                    Err(EncodingError::DuplicateChunked)
                } else {
                    Err(EncodingError::CodingAfterChunked)
                }
            } else {
                Ok(())
            },
        }
    }
}

/// Once a prefix of the codings breaks a rule, the whole list does, with the
/// same verdict.
pub proof fn lemma_check_prefix_err(c: Seq<Seq<char>>, n: int)
    requires
        0 <= n <= c.len(),
        spec_check_codings(c.take(n)) is Err,
    ensures
        spec_check_codings(c) == spec_check_codings(c.take(n)),
    decreases c.len() - n,
{
    if n < c.len() {
        assert(c.take(n + 1).drop_last() =~= c.take(n));
        lemma_check_prefix_err(c, n + 1);
    } else {
        assert(c.take(n) =~= c);
    }
}

/// The codings of an optional header value.
pub open spec fn codings_of(h: Option<Seq<char>>) -> Seq<Seq<char>> {
    match h {
        Some(s) => comma_items(s),
        None => Seq::empty(),
    }
}

/// The transfer and content codings of a message, as header texts.
#[derive(Debug)]
pub struct HttpEncoding {
    transfer: Option<String>,
    content: Option<String>,
}

impl View for HttpEncoding {
    type V = (Option<Seq<char>>, Option<Seq<char>>);

    open spec fn view(&self) -> (Option<Seq<char>>, Option<Seq<char>>) {
        self.spec_parts()
    }
}

fn copy_opt(s: &Option<String>) -> (r: Option<String>)
    ensures
        match s {
            Some(x) => r matches Some(y) && y@ == x@,
            None => r is None,
        },
{
    match s {
        Some(x) => Some(copy_string(x)),
        None => None,
    }
}

impl Clone for HttpEncoding {
    fn clone(&self) -> (r: Self)
        ensures
            r@ == self@,
    {
        HttpEncoding { transfer: copy_opt(&self.transfer), content: copy_opt(&self.content) }
    }
}

pub open spec fn opt_view(s: Option<String>) -> Option<Seq<char>> {
    match s {
        Some(x) => Some(x@),
        None => None,
    }
}

impl HttpEncoding {
    pub closed spec fn spec_parts(&self) -> (Option<Seq<char>>, Option<Seq<char>>) {
        (opt_view(self.transfer), opt_view(self.content))
    }

    /// The codings named by the Transfer-Encoding and Content-Encoding values.
    pub fn from_headers(transfer: Option<String>, content: Option<String>) -> (r: Self)
        ensures
            r@ == (opt_view(transfer), opt_view(content)),
    {
        HttpEncoding { transfer, content }
    }

    /// The header values to write: Transfer-Encoding, then Content-Encoding.
    pub fn to_headers(&self) -> (r: (Option<String>, Option<String>))
        ensures
            opt_view(r.0) == self@.0,
            opt_view(r.1) == self@.1,
    {
        (copy_opt(&self.transfer), copy_opt(&self.content))
    }

    /// The Transfer-Encoding value, if any.
    pub fn transfer(&self) -> (r: Option<&str>)
        ensures
            match self@.0 {
                Some(t) => r matches Some(x) && x@ == t,
                None => r is None,
            },
    {
        match &self.transfer {
            Some(t) => Some(t.as_str()),
            None => None,
        }
    }

    /// The Content-Encoding value, if any.
    pub fn content(&self) -> (r: Option<&str>)
        ensures
            match self@.1 {
                Some(t) => r matches Some(x) && x@ == t,
                None => r is None,
            },
    {
        match &self.content {
            Some(t) => Some(t.as_str()),
            None => None,
        }
    }

    /// The transfer codings, trimmed, in lower case, in order.
    pub fn transfer_codings(&self) -> (r: Vec<String>)
        ensures
            r.deep_view() == codings_of(self@.0),
    {
        match &self.transfer {
            Some(t) => comma_list(t.as_str()),
            None => {
                let r: Vec<String> = Vec::new();
                assert(r.deep_view() =~= Seq::<Seq<char>>::empty());
                r
            },
        }
    }

    /// The content codings, trimmed, in lower case, in order.
    pub fn content_codings(&self) -> (r: Vec<String>)
        ensures
            r.deep_view() == codings_of(self@.1),
    {
        match &self.content {
            Some(t) => comma_list(t.as_str()),
            None => {
                let r: Vec<String> = Vec::new();
                assert(r.deep_view() =~= Seq::<Seq<char>>::empty());
                r
            },
        }
    }

    /// The body is sent in chunks: the last transfer coding is `chunked`.
    pub fn is_chunked(&self) -> (r: bool)
        ensures
            r == (codings_of(self@.0).len() > 0 && codings_of(self@.0).last() == "chunked"@),
    {
        let c = self.transfer_codings();
        if c.len() == 0 {
            false
        } else {
            let r = str_eq(c[c.len() - 1].as_str(), "chunked");
            assert(c.deep_view().last() == c@[c.len() - 1]@);
            r
        }
    }

    /// Checks the transfer codings: `chunked` at most once and only last.
    pub fn check_transfer(&self) -> (r: Result<(), EncodingError>)
        ensures
            r == spec_check_codings(codings_of(self@.0)),
    {
        let c = self.transfer_codings();
        let ghost cs = c.deep_view();
        let mut seen = false;
        let mut i: usize = 0;
        while i < c.len()
            invariant
                i <= c@.len(),
                cs == c.deep_view(),
                cs == codings_of(self@.0),
                spec_check_codings(cs.take(i as int)) is Ok,
                seen == cs.take(i as int).contains("chunked"@),
            decreases c.len() - i,
        {
            let is_chunked = str_eq(c[i].as_str(), "chunked");
            let ghost pre = cs.take(i as int);
            let ghost nxt = cs.take(i + 1);
            assert(nxt.drop_last() =~= pre);
            assert(nxt.last() == c@[i as int]@);
            if seen {
                if is_chunked {
                    proof {
                        lemma_check_prefix_err(cs, i + 1);
                    }
                    return Err(EncodingError::DuplicateChunked);
                } else {
                    proof {
                        lemma_check_prefix_err(cs, i + 1);
                    }
                    return Err(EncodingError::CodingAfterChunked);
                }
            }
            proof {
                if is_chunked {
                    assert(nxt.contains("chunked"@)) by {
                        assert(nxt[i as int] == "chunked"@);
                    }
                } else {
                    assert(!nxt.contains("chunked"@)) by {
                        if nxt.contains("chunked"@) {
                            let k = choose|k: int| 0 <= k < nxt.len() && nxt[k] == "chunked"@;
                            if k < i {
                                assert(pre[k] == nxt[k]);
                            }
                        }
                    }
                }
            }
            seen = is_chunked;
            i += 1;
        }
        assert(cs.take(c@.len() as int) =~= cs);
        Ok(())
    }
}

} // verus!
