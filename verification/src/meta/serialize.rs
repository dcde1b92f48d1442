//! Writing the metadata as an HTTP header section.
use vstd::prelude::*;
use vstd::string::StringExecFns;
use crate::header::map::EntryView;
use crate::header::value::{HeaderValue, header_lines, join};
use crate::http_value::content::with_params;
use crate::meta::{HttpMeta, MetaCaches};
use crate::text::{decimal_digits, str_eq};
use crate::util::cookie::{pair_texts, set_cookie_text, set_cookie_texts};

verus! {

/// `name: value\r\n` when there is a value, else nothing.
pub open spec fn opt_line(name: Seq<char>, value: Option<Seq<char>>) -> Seq<char> {
    match value {
        Some(v) => name + ": "@ + v + "\r\n"@,
        None => Seq::empty(),
    }
}

/// The Content-Type line of the caches `c`.
pub open spec fn content_type_line(c: MetaCaches) -> Seq<char> {
    opt_line("content-type"@, match c.content_type {
        Some(t) => Some(with_params(t.0, t.1)),
        None => None,
    })
}

/// The Content-Length line of the caches `c`.
pub open spec fn content_length_line(c: MetaCaches) -> Seq<char> {
    opt_line("content-length"@, match c.content_length {
        Some(n) => Some(decimal_digits(n as nat)),
        None => None,
    })
}

/// The Content-Disposition line of the caches `c`.
pub open spec fn content_disposition_line(c: MetaCaches) -> Seq<char> {
    opt_line("content-disposition"@, match c.content_disposition {
        Some(d) => Some(with_params(d.0, d.1)),
        None => None,
    })
}

/// The language line of the caches `c`: Accept-Language in a request,
/// Content-Language in a response.
pub open spec fn lang_line(c: MetaCaches, is_request: bool) -> Seq<char> {
    opt_line(if is_request {
        "accept-language"@
    } else {
        "content-language"@
    }, c.lang)
}

/// The Transfer-Encoding and Content-Encoding lines of the caches `c`.
pub open spec fn encoding_lines(c: MetaCaches) -> Seq<char> {
    opt_line("transfer-encoding"@, match c.encoding {
        Some(e) => e.0,
        None => None,
    }) + opt_line("content-encoding"@, match c.encoding {
        Some(e) => e.1,
        None => None,
    })
}

/// The cookie lines of the caches `c`: one Cookie line in a request, a
/// Set-Cookie line per cookie in a response; nothing without cookies.
pub open spec fn cookie_lines(c: MetaCaches, is_request: bool) -> Seq<char> {
    match c.cookies {
        Some(es) => if es.len() == 0 {
            Seq::empty()
        } else if is_request {
            "cookie: "@ + join(pair_texts(es), "; "@) + "\r\n"@
        } else {
            header_lines("set-cookie"@, set_cookie_texts(es))
        },
        None => Seq::empty(),
    }
}

/// The header lines written from the typed caches, in the fixed order
/// content-type, content-length, content-disposition, host, language,
/// location, transfer-encoding, content-encoding, cookies.
pub open spec fn cache_lines(c: MetaCaches, is_request: bool) -> Seq<char> {
    content_type_line(c) + content_length_line(c) + content_disposition_line(c)
        + opt_line("host"@, c.host) + lang_line(c, is_request) + opt_line("location"@, c.location)
        + encoding_lines(c) + cookie_lines(c, is_request)
}

/// The header names the cache lines stand for, which the header block then
/// does not repeat: each cache stands for its own header name only.
pub open spec fn is_handled(c: MetaCaches, is_request: bool, k: Seq<char>) -> bool {
    ||| (c.content_type is Some && k == "content-type"@)
    ||| (c.content_length is Some && k == "content-length"@)
    ||| (c.content_disposition is Some && k == "content-disposition"@)
    ||| (c.host is Some && k == "host"@)
    ||| (c.lang is Some && is_request && k == "accept-language"@)
    ||| (c.lang is Some && !is_request && k == "content-language"@)
    ||| (c.location is Some && k == "location"@)
    ||| ((c.encoding matches Some(e) && e.0 is Some) && k == "transfer-encoding"@)
    ||| ((c.encoding matches Some(e) && e.1 is Some) && k == "content-encoding"@)
    ||| ((c.cookies matches Some(es) && es.len() > 0) && is_request && k == "cookie"@)
    ||| ((c.cookies matches Some(es) && es.len() > 0) && !is_request && k == "set-cookie"@)
}

/// The lines of the header entries `es` that the caches do not stand for.
pub open spec fn unhandled_lines(c: MetaCaches, is_request: bool, es: Seq<EntryView>) -> Seq<char>
    decreases es.len(),
{
    if es.len() == 0 {
        Seq::empty()
    } else {
        let prev = unhandled_lines(c, is_request, es.drop_last());
        let e = es.last();
        if is_handled(c, is_request, e.0) {
            prev
        } else {
            prev + header_lines(e.0, e.1.items())
        }
    }
}

/// The header section of `m`: start line, cache lines, the remaining header
/// lines in order, and the empty line.
pub open spec fn spec_represent(m: HttpMeta) -> Seq<char> {
    let is_request = m.start_line is Request;
    m.start_line.spec_text() + "\r\n"@ + cache_lines(m.caches(), is_request)
        + unhandled_lines(m.caches(), is_request, m.header.spec_entries()) + "\r\n"@
}

/// `name: value\r\n`.
fn line(name: &str, value: &str) -> (r: String)
    ensures
        r@ == name@ + ": "@ + value@ + "\r\n"@,
{
    let mut out = String::from_str(name);
    out.append(": ");
    out.append(value);
    out.append("\r\n");
    out
}

impl HttpMeta {
    /// Serialises the metadata as an HTTP header section: the start line, a
    /// line for each filled cache, every other header, and an empty line.
    pub fn represent(&self) -> (r: String)
        ensures
            r@ == spec_represent(*self),
    {
        let is_request = self.start_line.is_request();
        let mut result = self.start_line.represent();
        result.append("\r\n");
        result.append(self.cache_text(is_request).as_str());
        result.append(self.unhandled_text(is_request).as_str());
        result.append("\r\n");
        result
    }

    fn cache_text(&self, is_request: bool) -> (r: String)
        requires
            is_request == (self.start_line is Request),
        ensures
            r@ == cache_lines(self.caches(), is_request),
    {
        let ghost c = self.caches();
        let mut typed = match &self.content_type {
            Some(t) => line("content-type", t.to_string().as_str()),
            None => String::new(),
        };
        let cl = match self.content_length {
            Some(n) => line("content-length", crate::text::decimal_string(n).as_str()),
            None => String::new(),
        };
        let cd = match &self.content_disposition {
            Some(d) => line("content-disposition", d.to_string().as_str()),
            None => String::new(),
        };
        let host = match &self.host {
            Some(h) => line("host", h.as_str()),
            None => String::new(),
        };
        let lang = match &self.lang {
            Some(l) => if is_request {
                line("accept-language", l.to_header_string().as_str())
            } else {
                line("content-language", l.to_response_header().as_str())
            },
            None => String::new(),
        };
        let loc = match &self.location {
            Some(l) => line("location", l.as_str()),
            None => String::new(),
        };
        let enc = self.encoding_text();
        let cookies = self.cookie_text(is_request);
        typed.append(cl.as_str());
        typed.append(cd.as_str());
        typed.append(host.as_str());
        typed.append(lang.as_str());
        typed.append(loc.as_str());
        typed.append(enc.as_str());
        typed.append(cookies.as_str());
        typed
    }

    fn encoding_text(&self) -> (r: String)
        ensures
            r@ == encoding_lines(self.caches()),
    {
        match &self.encoding {
            Some(e) => {
                let (transfer, content) = e.to_headers();
                let mut out = match transfer {
                    Some(t) => line("transfer-encoding", t.as_str()),
                    None => String::new(),
                };
                let ce = match content {
                    Some(t) => line("content-encoding", t.as_str()),
                    None => String::new(),
                };
                out.append(ce.as_str());
                out
            },
            None => {
                let out = String::new();
                assert(out@ =~= encoding_lines(self.caches()));
                out
            },
        }
    }

    fn cookie_text(&self, is_request: bool) -> (r: String)
        ensures
            r@ == cookie_lines(self.caches(), is_request),
    {
        match &self.cookies {
            Some(cookies) => if cookies.is_empty() {
                String::new()
            } else if is_request {
                let mut out = cookies.request();
                out.append("\r\n");
                out
            } else {
                cookies.response().into_header_string("set-cookie")
            },
            None => String::new(),
        }
    }

    fn unhandled_text(&self, is_request: bool) -> (r: String)
        requires
            is_request == (self.start_line is Request),
        ensures
            r@ == unhandled_lines(self.caches(), is_request, self.header.spec_entries()),
    {
        let ghost c = self.caches();
        let mut result = String::new();
        let ghost es = self.header.spec_entries();
        let entries = self.header.iter();
        let mut i: usize = 0;
        while i < entries.len()
            invariant
                i <= entries@.len(),
                entries@.map_values(|e: (String, HeaderValue)| (e.0@, e.1@)) == es,
                c == self.caches(),
                is_request == (self.start_line is Request),
                result@ == unhandled_lines(c, is_request, es.take(i as int)),
            decreases entries.len() - i,
        {
            let key = entries[i].0.as_str();
            let h_ct = self.content_type.is_some() && str_eq(key, "content-type");
            let h_cl = self.content_length.is_some() && str_eq(key, "content-length");
            let h_cd = self.content_disposition.is_some() && str_eq(key, "content-disposition");
            let h_host = self.host.is_some() && str_eq(key, "host");
            let h_lang = self.lang.is_some() && ((is_request && str_eq(key, "accept-language"))
                || (!is_request && str_eq(key, "content-language")));
            let h_loc = self.location.is_some() && str_eq(key, "location");
            let has_te = match &self.encoding {
                Some(e) => e.transfer().is_some(),
                None => false,
            };
            let has_ce = match &self.encoding {
                Some(e) => e.content().is_some(),
                None => false,
            };
            let has_ck = match &self.cookies {
                Some(cm) => !cm.is_empty(),
                None => false,
            };
            let h_te = has_te && str_eq(key, "transfer-encoding");
            let h_ce = has_ce && str_eq(key, "content-encoding");
            let h_ck = has_ck && is_request && str_eq(key, "cookie");
            let h_sc = has_ck && !is_request && str_eq(key, "set-cookie");
            let handled = h_ct || h_cl || h_cd || h_host || h_lang || h_loc || h_te || h_ce || h_ck || h_sc;
            proof {
                assert(es.take(i + 1).drop_last() =~= es.take(i as int));
                assert(es.take(i + 1).last() == es[i as int]);
                assert(es[i as int] == (entries@[i as int].0@, entries@[i as int].1@));
                assert(handled == is_handled(c, is_request, es[i as int].0));
            }
            if !handled {
                result.append(entries[i].1.into_header_string(key).as_str());
            }
            i += 1;
        }
        assert(es.take(entries@.len() as int) =~= es);
        result
    }
}

/// `t` occurs in `s` as a contiguous run.
#[verifier::opaque]
pub open spec fn has_piece(s: Seq<char>, t: Seq<char>) -> bool {
    exists|i: int| 0 <= i && i + t.len() <= s.len() && #[trigger] s.subrange(i, i + t.len()) == t
}

proof fn lemma_piece_self(t: Seq<char>)
    ensures
        has_piece(t, t),
{
    reveal(has_piece);
    assert(t.subrange(0int, 0int + t.len()) =~= t);
}

proof fn lemma_piece_in(r: Seq<char>, p: Seq<char>, x: Seq<char>, q: Seq<char>, t: Seq<char>)
    requires
        r == p + x + q,
        has_piece(x, t),
    ensures
        has_piece(r, t),
{
    reveal(has_piece);
    let i = choose|i: int| 0 <= i && i + t.len() <= x.len() && #[trigger] x.subrange(i, i + t.len()) == t;
    let j = p.len() + i;
    assert(r.subrange(j, j + t.len()) =~= x.subrange(i, i + t.len()));
}

proof fn lemma_header_lines_pieces(name: Seq<char>, items: Seq<Seq<char>>, k: int)
    requires
        0 <= k < items.len(),
    ensures
        has_piece(header_lines(name, items), name + ": "@ + items[k] + "\r\n"@),
    decreases items.len(),
{
    let init = items.drop_last();
    let line = name + ": "@ + items.last() + "\r\n"@;
    assert(header_lines(name, items) == header_lines(name, init) + name + ": "@ + items.last() + "\r\n"@);
    assert(header_lines(name, items) =~= header_lines(name, init) + line);
    if k == items.len() - 1 {
        lemma_piece_self(line);
        lemma_piece_in(header_lines(name, items), header_lines(name, init), line, Seq::empty(), line);
        assert(header_lines(name, init) + line + Seq::<char>::empty() =~= header_lines(name, items));
    } else {
        lemma_header_lines_pieces(name, init, k);
        assert(init[k] == items[k]);
        assert(header_lines(name, items) =~= Seq::<char>::empty() + header_lines(name, init) + line);
        lemma_piece_in(header_lines(name, items), Seq::empty(), header_lines(name, init), line, name + ": "@ + items[k] + "\r\n"@);
    }
}

proof fn lemma_unhandled_pieces(c: MetaCaches, is_request: bool, es: Seq<EntryView>, j: int)
    requires
        0 <= j < es.len(),
        !is_handled(c, is_request, es[j].0),
    ensures
        has_piece(unhandled_lines(c, is_request, es), header_lines(es[j].0, es[j].1.items())),
    decreases es.len(),
{
    let init = es.drop_last();
    let prev = unhandled_lines(c, is_request, init);
    let u = unhandled_lines(c, is_request, es);
    let e = es.last();
    if j == es.len() - 1 {
        let x = header_lines(e.0, e.1.items());
        lemma_piece_self(x);
        assert(u =~= prev + x + Seq::empty());
        lemma_piece_in(u, prev, x, Seq::empty(), x);
    } else {
        assert(init[j] == es[j]);
        lemma_unhandled_pieces(c, is_request, init, j);
        let tail = if is_handled(c, is_request, e.0) { Seq::<char>::empty() } else { header_lines(e.0, e.1.items()) };
        assert(u =~= Seq::<char>::empty() + prev + tail);
        lemma_piece_in(u, Seq::empty(), prev, tail, header_lines(es[j].0, es[j].1.items()));
    }
}

/// Each of eight texts written one after another occurs in the whole.
proof fn lemma_eight_pieces(p0: Seq<char>, p1: Seq<char>, p2: Seq<char>, p3: Seq<char>, p4: Seq<char>, p5: Seq<char>, p6: Seq<char>, p7: Seq<char>)
    ensures
        ({
            let x = p0 + p1 + p2 + p3 + p4 + p5 + p6 + p7;
            &&& has_piece(x, p0) &&& has_piece(x, p1) &&& has_piece(x, p2) &&& has_piece(x, p3)
            &&& has_piece(x, p4) &&& has_piece(x, p5) &&& has_piece(x, p6) &&& has_piece(x, p7)
        }),
{
    let x = p0 + p1 + p2 + p3 + p4 + p5 + p6 + p7;
    let e = Seq::<char>::empty();
    lemma_piece_self(p0);
    lemma_piece_self(p1);
    lemma_piece_self(p2);
    lemma_piece_self(p3);
    lemma_piece_self(p4);
    lemma_piece_self(p5);
    lemma_piece_self(p6);
    lemma_piece_self(p7);
    assert(x =~= e + p0 + (p1 + p2 + p3 + p4 + p5 + p6 + p7));
    lemma_piece_in(x, e, p0, p1 + p2 + p3 + p4 + p5 + p6 + p7, p0);
    assert(x =~= p0 + p1 + (p2 + p3 + p4 + p5 + p6 + p7));
    lemma_piece_in(x, p0, p1, p2 + p3 + p4 + p5 + p6 + p7, p1);
    assert(x =~= (p0 + p1) + p2 + (p3 + p4 + p5 + p6 + p7));
    lemma_piece_in(x, p0 + p1, p2, p3 + p4 + p5 + p6 + p7, p2);
    assert(x =~= (p0 + p1 + p2) + p3 + (p4 + p5 + p6 + p7));
    lemma_piece_in(x, p0 + p1 + p2, p3, p4 + p5 + p6 + p7, p3);
    assert(x =~= (p0 + p1 + p2 + p3) + p4 + (p5 + p6 + p7));
    lemma_piece_in(x, p0 + p1 + p2 + p3, p4, p5 + p6 + p7, p4);
    assert(x =~= (p0 + p1 + p2 + p3 + p4) + p5 + (p6 + p7));
    lemma_piece_in(x, p0 + p1 + p2 + p3 + p4, p5, p6 + p7, p5);
    lemma_piece_in(x, p0 + p1 + p2 + p3 + p4 + p5, p6, p7, p6);
    assert(x =~= (p0 + p1 + p2 + p3 + p4 + p5 + p6) + p7 + e);
    lemma_piece_in(x, p0 + p1 + p2 + p3 + p4 + p5 + p6, p7, e, p7);
}

/// The lines each filled cache writes appear in the cache lines.
proof fn lemma_cache_pieces(c: MetaCaches, req: bool)
    ensures
        ({
            let x = cache_lines(c, req);
            &&& has_piece(x, content_type_line(c))
            &&& has_piece(x, content_length_line(c))
            &&& has_piece(x, content_disposition_line(c))
            &&& has_piece(x, opt_line("host"@, c.host))
            &&& has_piece(x, lang_line(c, req))
            &&& has_piece(x, opt_line("location"@, c.location))
            &&& has_piece(x, encoding_lines(c))
            &&& has_piece(x, cookie_lines(c, req))
        }),
{
    lemma_eight_pieces(content_type_line(c), content_length_line(c), content_disposition_line(c), opt_line("host"@, c.host),
        lang_line(c, req), opt_line("location"@, c.location), encoding_lines(c), cookie_lines(c, req));
}

proof fn lemma_piece_trans(s: Seq<char>, t: Seq<char>, u: Seq<char>)
    requires
        has_piece(s, t),
        has_piece(t, u),
    ensures
        has_piece(s, u),
{
    reveal(has_piece);
    let i = choose|i: int| 0 <= i && i + t.len() <= s.len() && #[trigger] s.subrange(i, i + t.len()) == t;
    assert(s =~= s.take(i) + t + s.skip(i + t.len()));
    lemma_piece_in(s, s.take(i), t, s.skip(i + t.len()), u);
}

/// The encoding lines hold each declared encoding's line.
proof fn lemma_encoding_pieces(c: MetaCaches)
    ensures
        (c.encoding matches Some(e) && e.0 is Some) ==> has_piece(encoding_lines(c), "transfer-encoding: "@ + c.encoding->Some_0.0->Some_0 + "\r\n"@),
        (c.encoding matches Some(e) && e.1 is Some) ==> has_piece(encoding_lines(c), "content-encoding: "@ + c.encoding->Some_0.1->Some_0 + "\r\n"@),
{
    reveal_strlit(": ");
    reveal_strlit("transfer-encoding");
    reveal_strlit("transfer-encoding: ");
    reveal_strlit("content-encoding");
    reveal_strlit("content-encoding: ");
    let te = opt_line("transfer-encoding"@, match c.encoding { Some(e) => e.0, None => None });
    let ce = opt_line("content-encoding"@, match c.encoding { Some(e) => e.1, None => None });
    let e = Seq::<char>::empty();
    lemma_piece_self(te);
    lemma_piece_self(ce);
    assert(encoding_lines(c) =~= e + te + ce);
    assert(encoding_lines(c) =~= te + ce + e);
    if c.encoding matches Some(x) && x.0 is Some {
        assert(te =~= "transfer-encoding: "@ + c.encoding->Some_0.0->Some_0 + "\r\n"@);
        lemma_piece_in(encoding_lines(c), e, te, ce, te);
    }
    if c.encoding matches Some(x) && x.1 is Some {
        assert(ce =~= "content-encoding: "@ + c.encoding->Some_0.1->Some_0 + "\r\n"@);
        lemma_piece_in(encoding_lines(c), te, ce, e, ce);
    }
}

/// What a represented head holds, for every metadata `m`: it starts with the
/// start line and `\r\n` and ends with `\r\n`; each filled cache appears as
/// its own header line (Content-Type, Content-Length, Content-Disposition,
/// Host, Accept-Language in a request or Content-Language in a response,
/// Location, Transfer-Encoding, Content-Encoding, one Cookie line in a
/// request, a Set-Cookie line per cookie in a response); and every value of
/// a header whose name no filled cache stands for appears as a
/// `name: value` line.
#[verifier::rlimit(50)]
pub proof fn law_represent_lines(m: HttpMeta)
    ensures
        ({
            let r = spec_represent(m);
            let c = m.caches();
            let req = m.start_line is Request;
            let es = m.header.spec_entries();
            &&& r.take(m.start_line.spec_text().len() + 2int) == m.start_line.spec_text() + "\r\n"@
            &&& r.skip(r.len() - 2) == "\r\n"@
            &&& c.content_type matches Some(t) ==> has_piece(r, "content-type: "@ + with_params(t.0, t.1) + "\r\n"@)
            &&& c.content_length matches Some(n) ==> has_piece(r, "content-length: "@ + decimal_digits(n as nat) + "\r\n"@)
            &&& c.content_disposition matches Some(d) ==> has_piece(r, "content-disposition: "@ + with_params(d.0, d.1) + "\r\n"@)
            &&& c.host matches Some(h) ==> has_piece(r, "host: "@ + h + "\r\n"@)
            &&& c.lang matches Some(l) ==> has_piece(r, (if req { "accept-language: "@ } else { "content-language: "@ }) + l + "\r\n"@)
            &&& c.location matches Some(l) ==> has_piece(r, "location: "@ + l + "\r\n"@)
            &&& (c.encoding matches Some(e) && e.0 is Some) ==> has_piece(r, "transfer-encoding: "@ + c.encoding->Some_0.0->Some_0 + "\r\n"@)
            &&& (c.encoding matches Some(e) && e.1 is Some) ==> has_piece(r, "content-encoding: "@ + c.encoding->Some_0.1->Some_0 + "\r\n"@)
            &&& (c.cookies matches Some(ks) && ks.len() > 0 && req) ==> has_piece(r, "cookie: "@ + join(pair_texts(c.cookies->Some_0), "; "@) + "\r\n"@)
            &&& forall|i: int| #![trigger c.cookies->Some_0[i]] (c.cookies matches Some(ks) && !req && 0 <= i < ks.len()) ==>
                has_piece(r, "set-cookie: "@ + set_cookie_text(c.cookies->Some_0[i]) + "\r\n"@)
            &&& forall|j: int, k: int| #![trigger es[j].1.items()[k]] 0 <= j < es.len() && 0 <= k < es[j].1.items().len() && !({
                    let n = es[j].0;
                    ||| (c.content_type is Some && n == "content-type"@)
                    ||| (c.content_length is Some && n == "content-length"@)
                    ||| (c.content_disposition is Some && n == "content-disposition"@)
                    ||| (c.host is Some && n == "host"@)
                    ||| (c.lang is Some && req && n == "accept-language"@)
                    ||| (c.lang is Some && !req && n == "content-language"@)
                    ||| (c.location is Some && n == "location"@)
                    ||| ((c.encoding matches Some(e) && e.0 is Some) && n == "transfer-encoding"@)
                    ||| ((c.encoding matches Some(e) && e.1 is Some) && n == "content-encoding"@)
                    ||| ((c.cookies matches Some(ks) && ks.len() > 0) && req && n == "cookie"@)
                    ||| ((c.cookies matches Some(ks) && ks.len() > 0) && !req && n == "set-cookie"@)
                }) ==> has_piece(r, es[j].0 + ": "@ + es[j].1.items()[k] + "\r\n"@)
        }),
{
    reveal_strlit("\r\n");
    reveal_strlit(": ");
    let r = spec_represent(m);
    let c = m.caches();
    let req = m.start_line is Request;
    let es = m.header.spec_entries();
    let a = m.start_line.spec_text() + "\r\n"@;
    let x = cache_lines(c, req);
    let u = unhandled_lines(c, req, es);
    let crlf = "\r\n"@;
    assert(r == a + x + u + crlf);
    assert(r =~= a + x + (u + crlf));
    assert(r.take(a.len() as int) =~= a);
    assert(r.skip(r.len() - 2) =~= crlf);
    lemma_cache_pieces(c, req);
    lemma_encoding_pieces(c);
    assert(has_piece(r, x)) by {
        lemma_piece_self(x);
        lemma_piece_in(r, a, x, u + crlf, x);
    }
    if c.content_type is Some {
        lemma_piece_trans(r, x, content_type_line(c));
        reveal_strlit("content-type");
        reveal_strlit("content-type: ");
        assert(content_type_line(c) =~= "content-type: "@ + with_params(c.content_type->Some_0.0, c.content_type->Some_0.1) + crlf);
    }
    if c.content_length is Some {
        lemma_piece_trans(r, x, content_length_line(c));
        reveal_strlit("content-length");
        reveal_strlit("content-length: ");
        assert(content_length_line(c) =~= "content-length: "@ + decimal_digits(c.content_length->Some_0 as nat) + crlf);
    }
    if c.content_disposition is Some {
        lemma_piece_trans(r, x, content_disposition_line(c));
        reveal_strlit("content-disposition");
        reveal_strlit("content-disposition: ");
        assert(content_disposition_line(c) =~= "content-disposition: "@ + with_params(c.content_disposition->Some_0.0, c.content_disposition->Some_0.1) + crlf);
    }
    if c.host is Some {
        lemma_piece_trans(r, x, opt_line("host"@, c.host));
        reveal_strlit("host");
        reveal_strlit("host: ");
        assert(opt_line("host"@, c.host) =~= "host: "@ + c.host->Some_0 + crlf);
    }
    if c.lang is Some {
        lemma_piece_trans(r, x, lang_line(c, req));
        reveal_strlit("accept-language");
        reveal_strlit("content-language");
        reveal_strlit("accept-language: ");
        reveal_strlit("content-language: ");
        assert(lang_line(c, req) =~= (if req { "accept-language: "@ } else { "content-language: "@ }) + c.lang->Some_0 + crlf);
    }
    if c.location is Some {
        lemma_piece_trans(r, x, opt_line("location"@, c.location));
        reveal_strlit("location");
        reveal_strlit("location: ");
        assert(opt_line("location"@, c.location) =~= "location: "@ + c.location->Some_0 + crlf);
    }
    lemma_piece_trans(r, x, encoding_lines(c));
    if c.encoding matches Some(e) && e.0 is Some {
        lemma_piece_trans(r, encoding_lines(c), "transfer-encoding: "@ + c.encoding->Some_0.0->Some_0 + crlf);
    }
    if c.encoding matches Some(e) && e.1 is Some {
        lemma_piece_trans(r, encoding_lines(c), "content-encoding: "@ + c.encoding->Some_0.1->Some_0 + crlf);
    }
    lemma_piece_trans(r, x, cookie_lines(c, req));
    assert forall|i: int| #![trigger c.cookies->Some_0[i]] (c.cookies matches Some(ks) && !req && 0 <= i < ks.len()) implies
        has_piece(r, "set-cookie: "@ + set_cookie_text(c.cookies->Some_0[i]) + "\r\n"@) by {
        let ks = c.cookies->Some_0;
        let texts = set_cookie_texts(ks);
        assert(texts[i] == set_cookie_text(ks[i]));
        lemma_header_lines_pieces("set-cookie"@, texts, i);
        lemma_piece_trans(r, cookie_lines(c, req), "set-cookie"@ + ": "@ + texts[i] + crlf);
        reveal_strlit("set-cookie");
        reveal_strlit("set-cookie: ");
        assert("set-cookie"@ + ": "@ + texts[i] + crlf =~= "set-cookie: "@ + set_cookie_text(ks[i]) + crlf);
    }
    if c.cookies matches Some(ks) && ks.len() > 0 && req {
        reveal_strlit("cookie: ");
    }
    assert(has_piece(r, u)) by {
        lemma_piece_self(u);
        assert(r =~= (a + x) + u + crlf);
        lemma_piece_in(r, a + x, u, crlf, u);
    }
    assert forall|j: int, k: int| #![trigger es[j].1.items()[k]] 0 <= j < es.len() && 0 <= k < es[j].1.items().len()
        && !is_handled(c, req, es[j].0) implies has_piece(r, es[j].0 + ": "@ + es[j].1.items()[k] + "\r\n"@) by {
        lemma_unhandled_pieces(c, req, es, j);
        lemma_header_lines_pieces(es[j].0, es[j].1.items(), k);
        lemma_piece_trans(r, u, header_lines(es[j].0, es[j].1.items()));
        lemma_piece_trans(r, header_lines(es[j].0, es[j].1.items()), es[j].0 + ": "@ + es[j].1.items()[k] + crlf);
    }
}

} // verus!
