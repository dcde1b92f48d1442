//! The cookie cache: Cookie headers of a request, Set-Cookie headers of a
//! response.
use vstd::prelude::*;
use crate::entries::entries_map;
use crate::header::value::{HeaderValue, HeaderValueView};
use crate::meta::{CookieEntry, HttpMeta, MetaCaches};
use crate::text::split_seq;
use crate::util::cookie::{Cookie, CookieMap, request_cookies, response_cookies};

verus! {

/// The cookies of several Cookie header values, each read in turn; a later
/// cookie replaces an earlier one of the same name.
pub open spec fn merged_request_cookies(vs: Seq<Seq<char>>) -> Map<Seq<char>, (Seq<char>, Seq<char>)>
    decreases vs.len(),
{
    if vs.len() == 0 {
        Map::empty()
    } else {
        merged_request_cookies(vs.drop_last()).union_prefer_right(request_cookies(split_seq(vs.last(), ';')))
    }
}

/// The cookies the header block `h` carries: its Cookie headers for a
/// request, its Set-Cookie headers for a response.
pub open spec fn header_cookies(is_request: bool, h: Map<Seq<char>, HeaderValueView>) -> Map<Seq<char>, (Seq<char>, Seq<char>)> {
    if is_request {
        if !h.contains_key("cookie"@) {
            Map::empty()
        } else {
            match h["cookie"@] {
                HeaderValueView::Single(s) => request_cookies(split_seq(s, ';')),
                HeaderValueView::Multiple(v) => merged_request_cookies(v),
            }
        }
    } else {
        if !h.contains_key("set-cookie"@) {
            Map::empty()
        } else {
            response_cookies(h["set-cookie"@].items())
        }
    }
}

/// `after` is `before` with the cookie cache set to the entries `c`.
pub open spec fn with_cookies(before: HttpMeta, after: HttpMeta, c: Option<Seq<CookieEntry>>) -> bool {
    after.same_message(&before) && after.caches() == (MetaCaches { cookies: c, ..before.caches() })
}

/// `after` is `before` with the cookie cache emptied and the Cookie and
/// Set-Cookie headers removed.
pub open spec fn without_cookies(before: HttpMeta, after: HttpMeta) -> bool {
    &&& after.start_line == before.start_line
    &&& after.header@ == before.header@.remove("cookie"@).remove("set-cookie"@)
    &&& after.caches() == (MetaCaches { cookies: None, ..before.caches() })
}

/// `after` is `before` with the cookie `key` set to `v` in the cookie cache
/// (an empty cache when there was none).
pub open spec fn with_added_cookie(before: HttpMeta, after: HttpMeta, key: Seq<char>, v: (Seq<char>, Seq<char>)) -> bool {
    &&& after.same_message(&before)
    &&& after.caches().cookies matches Some(c) && entries_map(c) == (match before.caches().cookies {
        Some(o) => entries_map(o),
        None => Map::empty(),
    }).insert(key, v)
    &&& after.caches() == (MetaCaches { cookies: after.caches().cookies, ..before.caches() })
}

/// `r` and `after` are what reading the cookies of `before` gives: the cache
/// when it is set (nothing changes), else the cookies of the headers, cached.
pub open spec fn got_cookies(before: HttpMeta, after: HttpMeta, r: Map<Seq<char>, (Seq<char>, Seq<char>)>) -> bool {
    &&& after.same_message(&before)
    &&& after.caches().cookies matches Some(c) && entries_map(c) == r
    &&& match before.caches().cookies {
        Some(c) => r == entries_map(c) && after.caches() == before.caches(),
        None => r == header_cookies(before.start_line is Request, before.header@)
            && after.caches() == (MetaCaches { cookies: after.caches().cookies, ..before.caches() }),
    }
}

impl HttpMeta {
    /// Returns the cookie cache, filling it from the headers first when it
    /// is empty.
    pub fn get_cookies(&mut self) -> (r: &CookieMap)
        ensures
            got_cookies(*old(self), *final(self), r@),
            final(self).same_message(old(self)),
            final(self).caches().cookies matches Some(c) && r.spec_entries() == c,
            old(self).caches().cookies is Some ==> final(self).caches() == old(self).caches(),
            old(self).caches().cookies is None ==> r@ == header_cookies(old(self).start_line is Request, old(self).header@)
                && final(self).caches() == (MetaCaches { cookies: Some(r.spec_entries()), ..old(self).caches() }),
    {
        if self.cookies.is_none() {
            self.cookies = Some(self.parse_cookies());
        }
        match &self.cookies {
            Some(c) => c,
            None => {
                proof {
                    assert(false);
                }
                #[verifier::loop_isolation(false)]
                loop
                    decreases 0nat,
                {
                }
            },
        }
    }

    /// Returns the cookie named `key`, filling the cookie cache from the
    /// headers first when it is empty.
    pub fn get_cookie(&mut self, key: &str) -> (r: Option<Cookie>)
        ensures
            final(self).same_message(old(self)),
            final(self).caches().cookies matches Some(c) && (match entries_map(c).contains_key(key@) {
                true => r matches Some(k) && k@ == entries_map(c)[key@],
                false => r is None,
            }),
            old(self).caches().cookies is Some ==> final(self).caches() == old(self).caches(),
            old(self).caches().cookies is None ==> entries_map(final(self).caches().cookies->Some_0)
                == header_cookies(old(self).start_line is Request, old(self).header@),
    {
        let cookies = self.get_cookies();
        match cookies.get(key) {
            Some(c) => Some(c.clone()),
            None => None,
        }
    }

    /// Returns the cookie named `key`, or an empty cookie.
    pub fn get_cookie_or_default(&mut self, key: &str) -> (r: Cookie)
        ensures
            final(self).same_message(old(self)),
            final(self).caches().cookies matches Some(c) && (match entries_map(c).contains_key(key@) {
                true => r@ == entries_map(c)[key@],
                false => r@ == (Seq::<char>::empty(), Seq::<char>::empty()),
            }),
            old(self).caches().cookies is Some ==> final(self).caches() == old(self).caches(),
            old(self).caches().cookies is None ==> entries_map(final(self).caches().cookies->Some_0)
                == header_cookies(old(self).start_line is Request, old(self).header@),
    {
        match self.get_cookie(key) {
            Some(c) => c,
            None => {
                proof {
                    reveal_strlit("");
                }
                Cookie::new("")
            },
        }
    }

    /// Reads the cookies of the headers: Cookie for a request, Set-Cookie for
    /// a response. The cache is not touched.
    pub fn parse_cookies(&self) -> (r: CookieMap)
        ensures
            r@ == header_cookies(self.start_line is Request, self.header@),
    {
        if self.start_line.is_request() {
            self.parse_request_cookies()
        } else {
            self.parse_response_cookies()
        }
    }

    fn parse_request_cookies(&self) -> (r: CookieMap)
        ensures
            r@ == header_cookies(true, self.header@),
    {
        match self.header.get("cookie") {
            Some(HeaderValue::Single(cookie_str)) => CookieMap::parse(cookie_str.as_str()),
            Some(HeaderValue::Multiple(cookie_strs)) => {
                let ghost vs = cookie_strs.deep_view();
                let mut cookie_map = CookieMap::new();
                let mut i: usize = 0;
                while i < cookie_strs.len()
                    invariant
                        i <= cookie_strs@.len(),
                        vs == cookie_strs.deep_view(),
                        cookie_map@ == merged_request_cookies(vs.take(i as int)),
                    decreases cookie_strs.len() - i,
                {
                    let parsed = CookieMap::parse(cookie_strs[i].as_str());
                    cookie_map.merge(parsed);
                    proof {
                        assert(vs.take(i + 1).drop_last() =~= vs.take(i as int));
                        assert(vs.take(i + 1).last() == cookie_strs@[i as int]@);
                    }
                    i += 1;
                }
                assert(vs.take(cookie_strs@.len() as int) =~= vs);
                cookie_map
            },
            None => CookieMap::new(),
        }
    }

    fn parse_response_cookies(&self) -> (r: CookieMap)
        ensures
            r@ == header_cookies(false, self.header@),
    {
        match self.header.get("set-cookie") {
            Some(value) => {
                let items = value.values();
                let mut lines: Vec<&str> = Vec::new();
                let mut i: usize = 0;
                while i < items.len()
                    invariant
                        i <= items@.len(),
                        lines@.len() == i,
                        forall|k: int| 0 <= k < i ==> (#[trigger] lines@[k])@ == items@[k]@,
                    decreases items.len() - i,
                {
                    lines.push(items[i].as_str());
                    i += 1;
                }
                assert(lines@.map_values(|l: &str| l@) =~= value@.items());
                CookieMap::parse_set_cookies(&lines)
            },
            None => CookieMap::new(),
        }
    }

    /// Replaces the cookie cache.
    pub fn set_cookies(&mut self, cookies: CookieMap)
        ensures
            with_cookies(*old(self), *final(self), Some(cookies.spec_entries())),
            final(self).same_message(old(self)),
            final(self).caches() == (MetaCaches { cookies: Some(cookies.spec_entries()), ..old(self).caches() }),
    {
        self.cookies = Some(cookies);
    }

    /// Adds (or replaces) the cookie `key` in the cookie cache, starting from
    /// an empty cache when there is none; the headers are not read.
    pub fn add_cookie(&mut self, key: &str, cookie: Cookie)
        ensures
            with_added_cookie(*old(self), *final(self), key@, cookie@),
            final(self).same_message(old(self)),
            final(self).caches().cookies matches Some(c) && entries_map(c) == (match old(self).caches().cookies {
                Some(o) => entries_map(o),
                None => Map::empty(),
            }).insert(key@, cookie@),
            final(self).caches() == (MetaCaches { cookies: final(self).caches().cookies, ..old(self).caches() }),
    {
        let mut cookies = match self.cookies.take() {
            Some(c) => c,
            None => CookieMap::new(),
        };
        proof {
            assert(entries_map(Seq::<(Seq<char>, (Seq<char>, Seq<char>))>::empty()) =~= Map::empty());
        }
        cookies.set(key, cookie);
        self.cookies = Some(cookies);
    }

    /// Clears the cookie cache without modifying the header block.
    pub fn clear_cookies(&mut self)
        ensures
            with_cookies(*old(self), *final(self), None),
            final(self).same_message(old(self)),
            final(self).caches() == (MetaCaches { cookies: None, ..old(self).caches() }),
    {
        self.cookies = None;
    }

    /// Clears the cookie cache and removes the Cookie and Set-Cookie headers.
    pub fn delete_cookies(&mut self)
        ensures
            without_cookies(*old(self), *final(self)),
            final(self).start_line == old(self).start_line,
            final(self).header@ == old(self).header@.remove("cookie"@).remove("set-cookie"@),
            final(self).caches() == (MetaCaches { cookies: None, ..old(self).caches() }),
    {
        self.cookies = None;
        self.header.remove("cookie");
        self.header.remove("set-cookie");
    }
}

/// After `set_cookies(c)`, `get_cookies` answers the cookies of `c`.
pub proof fn law_cookies_set_then_get(m0: HttpMeta, m1: HttpMeta, c: Seq<CookieEntry>, m2: HttpMeta, r: Map<Seq<char>, (Seq<char>, Seq<char>)>)
    requires
        with_cookies(m0, m1, Some(c)),
        got_cookies(m1, m2, r),
    ensures
        r == entries_map(c),
        m2.caches() == m1.caches(),
{
}

/// After `clear_cookies`, `get_cookies` reads the headers again.
pub proof fn law_cookies_clear_then_get(m0: HttpMeta, m1: HttpMeta, m2: HttpMeta, r: Map<Seq<char>, (Seq<char>, Seq<char>)>)
    requires
        with_cookies(m0, m1, None),
        got_cookies(m1, m2, r),
    ensures
        r == header_cookies(m0.start_line is Request, m0.header@),
{
}

/// After `delete_cookies`, `get_cookies` answers no cookies.
pub proof fn law_cookies_delete_then_get(m0: HttpMeta, m1: HttpMeta, m2: HttpMeta, r: Map<Seq<char>, (Seq<char>, Seq<char>)>)
    requires
        without_cookies(m0, m1),
        got_cookies(m1, m2, r),
    ensures
        r == Map::<Seq<char>, (Seq<char>, Seq<char>)>::empty(),
{
    assert(!m1.header@.contains_key("cookie"@));
    assert(!m1.header@.contains_key("set-cookie"@));
}

/// After `add_cookie(key, v)`, the cookies read back hold `v` under `key`,
/// beside those the cache held before.
pub proof fn law_cookie_add_then_get(m0: HttpMeta, m1: HttpMeta, key: Seq<char>, v: (Seq<char>, Seq<char>), m2: HttpMeta, r: Map<Seq<char>, (Seq<char>, Seq<char>)>)
    requires
        with_added_cookie(m0, m1, key, v),
        got_cookies(m1, m2, r),
    ensures
        r.contains_key(key),
        r[key] == v,
        m0.caches().cookies matches Some(o) ==> r == entries_map(o).insert(key, v),
{
}

} // verus!
