//! The Host and language caches, and the Host header's syntax.
use vstd::prelude::*;
use vstd::string::StringExecFns;
use crate::header::error::{HeaderError, is_invalid_value, is_missing, is_multiple_values};
use crate::header::value::{HeaderValueView, copy_string};
use crate::http_value::content::AcceptLang;
use crate::meta::{HttpMeta, MetaCaches, header_first};
use crate::start_line::start_line::HttpStartLine;
use crate::text::{is_last_index, lemma_last_index, all_digits, digits_value, chars_of, first_index, is_digit, is_first_index, is_whitespace, last_index, lemma_first_index, parse_unsigned, rfind_char, spec_is_whitespace, spec_parse_unsigned, string_from_chars, trim_ws};
use crate::util::encoding::opt_view;

verus! {

/// A character that may not appear anywhere in a Host value: an ASCII
/// control character or white space.
pub open spec fn is_host_forbidden(c: char) -> bool {
    c < ' ' || c == '\u{7f}' || spec_is_whitespace(c)
}

/// A character of an IP literal: a hex digit, `.` or `:`.
pub open spec fn is_ip_literal_char(c: char) -> bool {
    ('0' <= c && c <= '9') || ('a' <= c && c <= 'f') || ('A' <= c && c <= 'F') || c == '.' || c == ':'
}

/// A character of a host name: an ASCII letter or digit, `.` or `-`.
pub open spec fn is_host_name_char(c: char) -> bool {
    ('0' <= c && c <= '9') || ('a' <= c && c <= 'z') || ('A' <= c && c <= 'Z') || c == '.' || c == '-'
}

/// A character that ends the authority of a URI and so may not appear in a
/// host name: `/`, `?`, `#`, `@`, `[` or `]`.
pub open spec fn is_authority_delimiter(c: char) -> bool {
    c == '/' || c == '?' || c == '#' || c == '@' || c == '[' || c == ']'
}

/// A port, if given, is a non-empty run of ASCII digits whose value fits
/// in a `u16`.
pub open spec fn spec_valid_port(port: Option<Seq<char>>) -> bool {
    match port {
        None => true,
        Some(p) => p.len() > 0 && all_digits(p) && digits_value(p) <= u16::MAX,
    }
}

/// A valid Host value: `[ip-literal]` with an optional `:port`, or a host
/// name of letters, digits, `.` and `-` with an optional `:digits` port.
pub open spec fn spec_valid_host(h: Seq<char>) -> bool {
    if h.len() == 0 || (exists|k: int| 0 <= k < h.len() && #[trigger] is_host_forbidden(h[k])) {
        false
    } else if h[0] == '[' {
        let rest = h.drop_first();
        if !rest.contains(']') {
            false
        } else {
            let close = first_index(rest, ']');
            &&& close > 0
            &&& forall|k: int| 0 <= k < close ==> #[trigger] is_ip_literal_char(rest[k])
            &&& (close + 1 == rest.len() || (rest[close + 1] == ':' && spec_valid_port(Some(rest.skip(close + 2)))))
        }
    } else if exists|k: int| 0 <= k < h.len() && #[trigger] is_authority_delimiter(h[k]) {
        false
    } else if h.contains(':') {
        let i = last_index(h, ':');
        &&& i + 1 < h.len()
        &&& forall|k: int| i < k < h.len() ==> #[trigger] is_digit(h[k])
        &&& i > 0
        &&& forall|k: int| 0 <= k < i ==> #[trigger] is_host_name_char(h[k])
        &&& spec_valid_port(Some(h.skip(i + 1)))
    } else {
        forall|k: int| 0 <= k < h.len() ==> #[trigger] is_host_name_char(h[k])
    }
}

fn valid_port(port: Option<&str>) -> (r: bool)
    ensures
        r == spec_valid_port(match port {
            Some(p) => Some(p@),
            None => None,
        }),
{
    match port {
        None => true,
        Some(p) => {
            let cs = chars_of(p);
            if cs.len() > 0 && cs[0] == '+' {
                assert(!is_digit(p@[0]));
                return false;
            }
            parse_unsigned(p, 65535).is_some()
        },
    }
}

/// Whether `host` is a syntactically valid Host header value.
#[verifier::loop_isolation(false)]
fn is_valid_host_header(host: &str) -> (r: bool)
    ensures
        r == spec_valid_host(host@),
{
    let cs = chars_of(host);
    let n = cs.len();
    if n == 0 {
        return false;
    }
    let mut i: usize = 0;
    while i < n
        invariant
            i <= n == cs@.len(),
            cs@ == host@,
            forall|k: int| 0 <= k < i ==> !is_host_forbidden(#[trigger] cs@[k]),
        decreases n - i,
    {
        let c = cs[i];
        if c < ' ' || c == '\u{7f}' || is_whitespace(c) {
            assert(is_host_forbidden(host@[i as int]));
            return false;
        }
        i += 1;
    }
    assert(!(exists|k: int| 0 <= k < host@.len() && #[trigger] is_host_forbidden(host@[k])));
    if cs[0] == '[' {
        let ghost rest = host@.drop_first();
        let mut j: usize = 1;
        while j < n && cs[j] != ']'
            invariant
                1 <= j <= n == cs@.len(),
                cs@ == host@,
                rest == host@.drop_first(),
                forall|k: int| 1 <= k < j ==> cs@[k] != ']',
            decreases n - j,
        {
            j += 1;
        }
        if j == n {
            assert(!rest.contains(']')) by {
                if rest.contains(']') {
                    let k = choose|k: int| 0 <= k < rest.len() && rest[k] == ']';
                    assert(cs@[k + 1] == ']');
                }
            }
            return false;
        }
        proof {
            assert(is_first_index(rest, ']', j - 1));
            lemma_first_index(rest, ']', j - 1);
        }
        if j == 1 {
            return false;
        }
        let mut k: usize = 1;
        while k < j
            invariant
                1 <= k <= j < n == cs@.len(),
                cs@ == host@,
                rest == host@.drop_first(),
                forall|m: int| 0 <= m < k - 1 ==> is_ip_literal_char(#[trigger] rest[m]),
            decreases j - k,
        {
            let c = cs[k];
            let ok = ('0' <= c && c <= '9') || ('a' <= c && c <= 'f') || ('A' <= c && c <= 'F') || c == '.' || c == ':';
            if !ok {
                assert(!is_ip_literal_char(rest[k - 1]));
                return false;
            }
            k += 1;
        }
        if j + 1 == n {
            return true;
        }
        if cs[j + 1] != ':' {
            return false;
        }
        let port = string_from_chars(&cs, j + 2, n);
        assert(port@ =~= rest.skip(j + 1));
        return valid_port(Some(port.as_str()));
    }
    let mut d: usize = 0;
    while d < n
        invariant
            d <= n == cs@.len(),
            cs@ == host@,
            forall|k: int| 0 <= k < d ==> !is_authority_delimiter(#[trigger] cs@[k]),
        decreases n - d,
    {
        let c = cs[d];
        if c == '/' || c == '?' || c == '#' || c == '@' || c == '[' || c == ']' {
            assert(is_authority_delimiter(host@[d as int]));
            return false;
        }
        d += 1;
    }
    assert(!(exists|k: int| 0 <= k < host@.len() && #[trigger] is_authority_delimiter(host@[k])));
    let name_end = match rfind_char(&cs, ':') {
        Some(i) => {
            if i + 1 == n {
                return false;
            }
            let mut k: usize = i + 1;
            while k < n
                invariant
                    i < n == cs@.len(),
                    i + 1 <= k <= n,
                    cs@ == host@,
                    forall|m: int| i < m < k ==> is_digit(#[trigger] cs@[m]),
                decreases n - k,
            {
                if !('0' <= cs[k] && cs[k] <= '9') {
                    assert(!is_digit(host@[k as int]));
                    return false;
                }
                k += 1;
            }
            if i == 0 {
                return false;
            }
            i
        },
        None => n,
    };
    let mut k: usize = 0;
    while k < name_end
        invariant
            k <= name_end <= n == cs@.len(),
            cs@ == host@,
            forall|m: int| 0 <= m < k ==> is_host_name_char(#[trigger] cs@[m]),
        decreases name_end - k,
    {
        let c = cs[k];
        let ok = ('0' <= c && c <= '9') || ('a' <= c && c <= 'z') || ('A' <= c && c <= 'Z') || c == '.' || c == '-';
        if !ok {
            assert(!is_host_name_char(host@[k as int]));
            return false;
        }
        k += 1;
    }
    if name_end < n {
        let port = string_from_chars(&cs, name_end + 1, n);
        assert(port@ =~= host@.skip(name_end + 1));
        valid_port(Some(port.as_str()))
    } else {
        true
    }
}

/// `after` is `before` with the host cache set to `v`.
pub open spec fn with_host(before: HttpMeta, after: HttpMeta, v: Option<Seq<char>>) -> bool {
    after.same_message(&before) && after.caches() == (MetaCaches { host: v, ..before.caches() })
}

/// `after` is `before` with the host cache emptied and the Host header
/// removed.
pub open spec fn without_host(before: HttpMeta, after: HttpMeta) -> bool {
    &&& after.start_line == before.start_line
    &&& after.header@ == before.header@.remove("host"@)
    &&& after.caches() == (MetaCaches { host: None, ..before.caches() })
}

/// `r` and `after` are what reading the host of `before` gives: the cache
/// when it is set (nothing changes), else the first Host value, cached.
pub open spec fn got_host(before: HttpMeta, after: HttpMeta, r: Option<Seq<char>>) -> bool {
    match before.caches().host {
        Some(c) => r == Some(c) && after == before,
        None => r == header_first(before.header@, "host"@) && with_host(before, after, r),
    }
}

/// The language header of a message: Accept-Language for a request,
/// Content-Language for a response.
pub open spec fn lang_header(start_line: HttpStartLine) -> Seq<char> {
    if start_line is Request {
        "accept-language"@
    } else {
        "content-language"@
    }
}

/// The language list the header block `h` holds under `name`: all values
/// joined, trimmed.
pub open spec fn header_lang(h: Map<Seq<char>, HeaderValueView>, name: Seq<char>) -> Option<Seq<char>> {
    if h.contains_key(name) {
        Some(trim_ws(h[name].joined()))
    } else {
        None
    }
}

/// `after` is `before` with the language cache set to `v`.
pub open spec fn with_lang(before: HttpMeta, after: HttpMeta, v: Option<Seq<char>>) -> bool {
    after.same_message(&before) && after.caches() == (MetaCaches { lang: v, ..before.caches() })
}

/// `after` is `before` with the language cache emptied and the language
/// header of its kind removed.
pub open spec fn without_lang(before: HttpMeta, after: HttpMeta) -> bool {
    &&& after.start_line == before.start_line
    &&& after.header@ == before.header@.remove(lang_header(before.start_line))
    &&& after.caches() == (MetaCaches { lang: None, ..before.caches() })
}

/// `r` and `after` are what reading the language list of `before` gives:
/// the cache when it is set (nothing changes), else the language header of
/// its kind, cached.
pub open spec fn got_lang(before: HttpMeta, after: HttpMeta, r: Option<Seq<char>>) -> bool {
    match before.caches().lang {
        Some(c) => r == Some(c) && after == before,
        None => r == header_lang(before.header@, lang_header(before.start_line)) && with_lang(before, after, r),
    }
}

impl HttpMeta {
    /// Returns the cached host if available, otherwise parses the Host header
    /// (see [`parse_host`](HttpMeta::parse_host)).
    pub fn get_host(&mut self) -> (r: Option<String>)
        ensures
            got_host(*old(self), *final(self), opt_view(r)),
    {
        if let Some(host) = &self.host {
            return Some(copy_string(host));
        }
        self.parse_host()
    }

    /// Reads the first Host value and caches it (an absent header caches `None`).
    pub fn parse_host(&mut self) -> (r: Option<String>)
        ensures
            opt_view(r) == header_first(old(self).header@, "host"@),
            with_host(*old(self), *final(self), opt_view(r)),
    {
        let host = match self.header.get("host") {
            Some(value) => Some(value.first()),
            None => None,
        };
        let cached = match &host {
            Some(h) => Some(copy_string(h)),
            None => None,
        };
        self.set_host(cached);
        host
    }

    /// Requires exactly one syntactically valid Host header (as HTTP/1.1
    /// requests must carry) and caches it.
    pub fn require_valid_request_host(&mut self) -> (r: Result<String, HeaderError>)
        ensures
            final(self).same_message(old(self)),
            !old(self).header@.contains_key("host"@) ==> (r matches Err(e) && is_missing(e, "host"@)
                && final(self).caches() == old(self).caches()),
            old(self).header@.contains_key("host"@) && old(self).header@["host"@] is Multiple ==>
                (r matches Err(e) && is_multiple_values(e, "host"@) && final(self).caches() == old(self).caches()),
            old(self).header@.contains_key("host"@) && old(self).header@["host"@] is Single ==> ({
                let h = old(self).header@["host"@]->Single_0;
                if spec_valid_host(h) {
                    r matches Ok(s) && s@ == h && final(self).caches() == (MetaCaches { host: Some(h), ..old(self).caches() })
                } else {
                    r matches Err(e) && is_invalid_value(e, "host"@) && final(self).caches() == old(self).caches()
                }
            }),
    {
        let host = match self.header.require_only("host") {
            Ok(h) => String::from_str(h),
            Err(e) => return Err(e),
        };
        if !is_valid_host_header(host.as_str()) {
            return Err(HeaderError::InvalidHeaderValue(String::from_str("host")));
        }
        self.set_host(Some(copy_string(&host)));
        Ok(host)
    }

    /// Sets (or, with `None`, empties) the cached host.
    pub fn set_host(&mut self, host: Option<String>)
        ensures
            with_host(*old(self), *final(self), opt_view(host)),
    {
        self.host = host;
    }

    /// Clears the cached host without modifying the header block.
    pub fn clear_host(&mut self)
        ensures
            with_host(*old(self), *final(self), None),
    {
        self.host = None;
    }

    /// Clears the cached host and removes the Host header.
    pub fn delete_host(&mut self)
        ensures
            without_host(*old(self), *final(self)),
    {
        self.host = None;
        self.header.remove("host");
    }

    /// Returns the cached language list if available, otherwise parses the
    /// language header (see [`parse_lang`](HttpMeta::parse_lang)).
    pub fn get_lang(&mut self) -> (r: Option<AcceptLang>)
        ensures
            got_lang(*old(self), *final(self), match r {
                Some(l) => Some(l@),
                None => None,
            }),
    {
        if let Some(lang) = &self.lang {
            return Some(lang.clone());
        }
        self.parse_lang()
    }

    /// Reads the language header (Accept-Language for a request,
    /// Content-Language for a response) and caches it; an absent header
    /// caches `None`.
    pub fn parse_lang(&mut self) -> (r: Option<AcceptLang>)
        ensures
            header_lang(old(self).header@, lang_header(old(self).start_line)) == (match r {
                Some(l) => Some(l@),
                None => None,
            }),
            with_lang(*old(self), *final(self), header_lang(old(self).header@, lang_header(old(self).start_line))),
    {
        let header_name = if self.start_line.is_request() {
            "accept-language"
        } else {
            "content-language"
        };
        let lang = match self.header.get(header_name) {
            Some(value) => Some(AcceptLang::from_str(value.as_str().as_str())),
            None => None,
        };
        self.lang = match &lang {
            Some(l) => Some(l.clone()),
            None => None,
        };
        lang
    }

    /// Sets (or, with `None`, empties) the cached language list.
    pub fn set_lang(&mut self, lang: Option<AcceptLang>)
        ensures
            with_lang(*old(self), *final(self), match lang {
                Some(l) => Some(l@),
                None => None,
            }),
    {
        self.lang = lang;
    }

    /// Clears the cached language list without modifying the header block.
    pub fn clear_lang(&mut self)
        ensures
            with_lang(*old(self), *final(self), None),
    {
        self.lang = None;
    }

    /// Clears the cached language list and removes the language header of
    /// this kind of message.
    pub fn delete_lang(&mut self)
        ensures
            without_lang(*old(self), *final(self)),
    {
        self.lang = None;
        if self.start_line.is_request() {
            self.header.remove("accept-language");
        } else {
            self.header.remove("content-language");
        }
    }
}

/// After `set_host(h)`, `get_host` answers `h` and changes nothing.
pub proof fn law_host_set_then_get(m0: HttpMeta, m1: HttpMeta, h: Seq<char>, m2: HttpMeta, r: Option<Seq<char>>)
    requires
        with_host(m0, m1, Some(h)),
        got_host(m1, m2, r),
    ensures
        r == Some(h),
        m2 == m1,
{
}

/// After `clear_host`, `get_host` reads the Host header again.
pub proof fn law_host_clear_then_get(m0: HttpMeta, m1: HttpMeta, m2: HttpMeta, r: Option<Seq<char>>)
    requires
        with_host(m0, m1, None),
        got_host(m1, m2, r),
    ensures
        r == header_first(m0.header@, "host"@),
{
}

/// After `delete_host`, `get_host` answers `None`.
pub proof fn law_host_delete_then_get(m0: HttpMeta, m1: HttpMeta, m2: HttpMeta, r: Option<Seq<char>>)
    requires
        without_host(m0, m1),
        got_host(m1, m2, r),
    ensures
        r is None,
{
}

/// After `set_lang(Some(l))`, `get_lang` answers `l` and changes nothing.
pub proof fn law_lang_set_then_get(m0: HttpMeta, m1: HttpMeta, l: Seq<char>, m2: HttpMeta, r: Option<Seq<char>>)
    requires
        with_lang(m0, m1, Some(l)),
        got_lang(m1, m2, r),
    ensures
        r == Some(l),
        m2 == m1,
{
}

/// After `clear_lang`, `get_lang` reads the language header again.
pub proof fn law_lang_clear_then_get(m0: HttpMeta, m1: HttpMeta, m2: HttpMeta, r: Option<Seq<char>>)
    requires
        with_lang(m0, m1, None),
        got_lang(m1, m2, r),
    ensures
        r == header_lang(m0.header@, lang_header(m0.start_line)),
{
}

/// After `delete_lang`, `get_lang` answers `None`.
pub proof fn law_lang_delete_then_get(m0: HttpMeta, m1: HttpMeta, m2: HttpMeta, r: Option<Seq<char>>)
    requires
        without_lang(m0, m1),
        got_lang(m1, m2, r),
    ensures
        r is None,
{
}

/// A host name of ASCII letters of either case, digits, `.` and `-`, alone
/// or followed by `:` and a port of digits whose value fits in a `u16`, is a
/// valid Host value.
pub proof fn law_host_name_is_valid(name: Seq<char>, port: Option<Seq<char>>)
    requires
        name.len() > 0,
        forall|k: int| 0 <= k < name.len() ==> {
            let c = #[trigger] name[k];
            ('0' <= c && c <= '9') || ('a' <= c && c <= 'z') || ('A' <= c && c <= 'Z') || c == '.' || c == '-'
        },
        port matches Some(d) ==> d.len() > 0 && (forall|k: int| 0 <= k < d.len() ==> '0' <= #[trigger] d[k] && d[k] <= '9')
            && digits_value(d) <= 65535,
    ensures
        spec_valid_host(match port {
            Some(d) => name + seq![':'] + d,
            None => name,
        }),
{
    let h = match port {
        Some(d) => name + seq![':'] + d,
        None => name,
    };
    assert forall|k: int| 0 <= k < name.len() implies is_host_name_char(#[trigger] name[k])
        && !is_host_forbidden(name[k]) && !is_authority_delimiter(name[k]) && name[k] != ':' && name[k] != '[' by {
        let c = name[k];
        assert(('0' <= c && c <= '9') || ('a' <= c && c <= 'z') || ('A' <= c && c <= 'Z') || c == '.' || c == '-');
    }
    assert(h[0] == name[0]);
    match port {
        None => {
            assert(!(exists|k: int| 0 <= k < h.len() && #[trigger] is_host_forbidden(h[k])));
            assert(!(exists|k: int| 0 <= k < h.len() && #[trigger] is_authority_delimiter(h[k])));
            assert(!h.contains(':'));
        },
        Some(d) => {
            let i = name.len() as int;
            assert forall|k: int| 0 <= k < h.len() implies !is_host_forbidden(#[trigger] h[k]) && !is_authority_delimiter(h[k]) by {
                if k < i {
                    assert(h[k] == name[k]);
                } else if k > i {
                    assert(h[k] == d[k - i - 1]);
                }
            }
            assert(!(exists|k: int| 0 <= k < h.len() && #[trigger] is_host_forbidden(h[k])));
            assert(!(exists|k: int| 0 <= k < h.len() && #[trigger] is_authority_delimiter(h[k])));
            assert(h[i] == ':');
            assert(is_last_index(h, ':', i)) by {
                assert forall|k: int| i < k < h.len() implies h[k] != ':' by {
                    assert(h[k] == d[k - i - 1]);
                }
            }
            lemma_last_index(h, ':', i);
            assert forall|k: int| i < k < h.len() implies #[trigger] is_digit(h[k]) by {
                assert(h[k] == d[k - i - 1]);
            }
            assert forall|k: int| 0 <= k < i implies #[trigger] is_host_name_char(h[k]) by {
                assert(h[k] == name[k]);
            }
            assert(h.skip(i + 1) =~= d);
            assert(all_digits(d));
        },
    }
}

} // verus!
