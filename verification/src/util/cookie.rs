//! Cookies of the Cookie (request) and Set-Cookie (response) headers.
use vstd::prelude::*;
use vstd::string::StringExecFns;
use crate::entries::{entries_map, has_key, key_index, keys_unique, lemma_entries_map_at, lemma_entries_map_push, lemma_entries_map_update};
use crate::header::value::{join, copy_string, HeaderValue, HeaderValueView};
use crate::text::{after_first, before_first, split_chars, split_once_char, split_seq, str_eq, trim_ows, trim_ows_str};

verus! {

/// One cookie: its value and, for Set-Cookie, the attributes written after it.
#[derive(Debug)]
pub struct Cookie {
    value: String,
    attributes: String,
}

impl View for Cookie {
    type V = (Seq<char>, Seq<char>);

    open spec fn view(&self) -> (Seq<char>, Seq<char>) {
        self.spec_parts()
    }
}

impl Clone for Cookie {
    fn clone(&self) -> (r: Self)
        ensures
            r@ == self@,
    {
        Cookie { value: copy_string(&self.value), attributes: copy_string(&self.attributes) }
    }
}

impl Cookie {
    pub closed spec fn spec_parts(&self) -> (Seq<char>, Seq<char>) {
        (self.value@, self.attributes@)
    }

    /// A cookie with `value` and no attributes.
    pub fn new(value: &str) -> (r: Self)
        ensures
            r@ == (value@, Seq::<char>::empty()),
    {
        Cookie { value: String::from_str(value), attributes: String::new() }
    }

    /// A cookie with `value` and the attribute text `attributes`
    /// (e.g. `Path=/; Secure`).
    pub fn with_attributes(value: &str, attributes: &str) -> (r: Self)
        ensures
            r@ == (value@, attributes@),
    {
        Cookie { value: String::from_str(value), attributes: String::from_str(attributes) }
    }

    /// The cookie's value.
    pub fn value(&self) -> (r: &str)
        ensures
            r@ == self@.0,
    {
        self.value.as_str()
    }

    /// The cookie's value, owned.
    pub fn get_value(&self) -> (r: String)
        ensures
            r@ == self@.0,
    {
        copy_string(&self.value)
    }

    /// The attribute text (empty for request cookies).
    pub fn attributes(&self) -> (r: &str)
        ensures
            r@ == self@.1,
    {
        self.attributes.as_str()
    }
}

/// The name and value of a `name=value` pair, both trimmed.
pub open spec fn cookie_pair(p: Seq<char>) -> (Seq<char>, Seq<char>) {
    (trim_ows(before_first(p, '=')), trim_ows(after_first(p, '=')))
}

/// The cookies of the pieces `pieces` of a Cookie header; pairs without a
/// name are skipped and a later pair replaces an earlier one of the same name.
pub open spec fn request_cookies(pieces: Seq<Seq<char>>) -> Map<Seq<char>, (Seq<char>, Seq<char>)>
    decreases pieces.len(),
{
    if pieces.len() == 0 {
        Map::empty()
    } else {
        let m = request_cookies(pieces.drop_last());
        let (n, v) = cookie_pair(pieces.last());
        if n.len() == 0 {
            m
        } else {
            m.insert(n, (v, Seq::empty()))
        }
    }
}

/// The cookies of Set-Cookie lines: each line is `name=value` then
/// attributes after the first `;`.
pub open spec fn response_cookies(lines: Seq<Seq<char>>) -> Map<Seq<char>, (Seq<char>, Seq<char>)>
    decreases lines.len(),
{
    if lines.len() == 0 {
        Map::empty()
    } else {
        let m = response_cookies(lines.drop_last());
        let line = lines.last();
        let (n, v) = cookie_pair(before_first(line, ';'));
        if n.len() == 0 {
            m
        } else {
            m.insert(n, (v, trim_ows(after_first(line, ';'))))
        }
    }
}

/// `name=value` as written in a Cookie header.
pub open spec fn pair_text(e: (Seq<char>, (Seq<char>, Seq<char>))) -> Seq<char> {
    e.0 + "="@ + e.1.0
}

/// `name=value; attributes` as written in a Set-Cookie header.
pub open spec fn set_cookie_text(e: (Seq<char>, (Seq<char>, Seq<char>))) -> Seq<char> {
    if e.1.1.len() == 0 {
        pair_text(e)
    } else {
        pair_text(e) + "; "@ + e.1.1
    }
}

/// The `name=value` texts of the entries `es`, in order.
pub open spec fn pair_texts(es: Seq<(Seq<char>, (Seq<char>, Seq<char>))>) -> Seq<Seq<char>> {
    es.map_values(|e: (Seq<char>, (Seq<char>, Seq<char>))| pair_text(e))
}

/// The Set-Cookie texts of the entries `es`, in order.
pub open spec fn set_cookie_texts(es: Seq<(Seq<char>, (Seq<char>, Seq<char>))>) -> Seq<Seq<char>> {
    es.map_values(|e: (Seq<char>, (Seq<char>, Seq<char>))| set_cookie_text(e))
}

/// Cookies by name, in insertion order, no name repeated. Kept as a list,
/// as the header block is, so that they are written in a fixed order.
#[derive(Debug)]
pub struct CookieMap {
    entries: Vec<(String, Cookie)>,
}

impl View for CookieMap {
    type V = Map<Seq<char>, (Seq<char>, Seq<char>)>;

    open spec fn view(&self) -> Map<Seq<char>, (Seq<char>, Seq<char>)> {
        entries_map(self.spec_entries())
    }
}

impl Clone for CookieMap {
    fn clone(&self) -> (r: Self)
        ensures
            r.spec_entries() == self.spec_entries(),
            r@ == self@,
    {
        proof {
            use_type_invariant(self);
        }
        let mut entries: Vec<(String, Cookie)> = Vec::new();
        let mut i: usize = 0;
        while i < self.entries.len()
            invariant
                i <= self.entries@.len(),
                entries@.len() == i,
                forall|k: int| 0 <= k < i ==> (#[trigger] entries@[k]).0@ == self.entries@[k].0@
                    && entries@[k].1@ == self.entries@[k].1@,
            decreases self.entries.len() - i,
        {
            entries.push((copy_string(&self.entries[i].0), self.entries[i].1.clone()));
            i += 1;
        }
        assert(entries@.map_values(|e: (String, Cookie)| (e.0@, e.1@)) =~= self.spec_entries());
        CookieMap { entries }
    }
}

impl Default for CookieMap {
    fn default() -> (r: Self)
        ensures
            r@ == Map::<Seq<char>, (Seq<char>, Seq<char>)>::empty(),
            r.spec_entries().len() == 0,
    {
        CookieMap::new()
    }
}

impl CookieMap {
    /// The cookies in order, by their views.
    pub closed spec fn spec_entries(&self) -> Seq<(Seq<char>, (Seq<char>, Seq<char>))> {
        self.entries@.map_values(|e: (String, Cookie)| (e.0@, e.1@))
    }

    #[verifier::type_invariant]
    closed spec fn wf(&self) -> bool {
        keys_unique(self.spec_entries())
    }

    /// An empty cookie map.
    pub fn new() -> (r: Self)
        ensures
            r@ == Map::<Seq<char>, (Seq<char>, Seq<char>)>::empty(),
            r.spec_entries().len() == 0,
    {
        let r = CookieMap { entries: Vec::new() };
        assert(r.spec_entries() =~= Seq::<(Seq<char>, (Seq<char>, Seq<char>))>::empty());
        assert(r@ =~= Map::<Seq<char>, (Seq<char>, Seq<char>)>::empty());
        r
    }

    fn find(&self, name: &str) -> (r: Option<usize>)
        ensures
            match r {
                Some(i) => i < self.spec_entries().len() && self.spec_entries()[i as int].0 == name@
                    && self@.contains_key(name@) && self@[name@] == self.spec_entries()[i as int].1,
                None => !self@.contains_key(name@),
            },
    {
        proof {
            use_type_invariant(self);
        }
        let ghost s = self.spec_entries();
        let mut i: usize = 0;
        while i < self.entries.len()
            invariant
                i <= self.entries@.len() == s.len(),
                s == self.spec_entries(),
                forall|k: int| 0 <= k < i ==> (#[trigger] s[k]).0 != name@,
            decreases self.entries.len() - i,
        {
            if str_eq(self.entries[i].0.as_str(), name) {
                proof {
                    use_type_invariant(self);
                    lemma_entries_map_at(s, i as int);
                }
                return Some(i);
            }
            i += 1;
        }
        None
    }

    /// Number of cookies.
    pub fn len(&self) -> (r: usize)
        ensures
            r == self.spec_entries().len(),
    {
        self.entries.len()
    }

    /// No cookies.
    pub fn is_empty(&self) -> (r: bool)
        ensures
            r == (self.spec_entries().len() == 0),
    {
        self.entries.len() == 0
    }

    /// The cookie named `name`.
    pub fn get(&self, name: &str) -> (r: Option<&Cookie>)
        ensures
            r is Some <==> self@.contains_key(name@),
            r matches Some(c) ==> c@ == self@[name@],
    {
        match self.find(name) {
            Some(i) => Some(&self.entries[i].1),
            None => None,
        }
    }

    /// Sets the cookie `name`, replacing an earlier one of that name in place.
    pub fn set(&mut self, name: &str, cookie: Cookie)
        ensures
            final(self)@ == old(self)@.insert(name@, cookie@),
            old(self)@.contains_key(name@) ==> final(self).spec_entries().len() == old(self).spec_entries().len(),
            !old(self)@.contains_key(name@) ==> final(self).spec_entries() == old(self).spec_entries().push((name@, cookie@)),
    {
        proof {
            use_type_invariant(&*self);
        }
        let ghost s = self.spec_entries();
        match self.find(name) {
            Some(i) => {
                let mut entries: Vec<(String, Cookie)> = Vec::new();
                std::mem::swap(&mut entries, &mut self.entries);
                assert(entries@.map_values(|e: (String, Cookie)| (e.0@, e.1@)) == s);
                let (old_name, _) = entries.remove(i);
                entries.insert(i, (old_name, cookie));
                proof {
                    lemma_entries_map_update(s, i as int, cookie@);
                    assert(entries@.map_values(|e: (String, Cookie)| (e.0@, e.1@)) =~= s.update(i as int, (s[i as int].0, cookie@)));
                }
                self.entries = entries;
            },
            None => {
                let mut entries: Vec<(String, Cookie)> = Vec::new();
                std::mem::swap(&mut entries, &mut self.entries);
                assert(entries@.map_values(|e: (String, Cookie)| (e.0@, e.1@)) == s);
                proof {
                    assert(!has_key(s, name@));
                    lemma_entries_map_push(s, name@, cookie@);
                }
                entries.push((String::from_str(name), cookie));
                proof {
                    assert(entries@.map_values(|e: (String, Cookie)| (e.0@, e.1@)) =~= s.push((name@, cookie@)));
                }
                self.entries = entries;
            },
        }
    }

    /// Sets every cookie of `other` in order, replacing cookies of the same
    /// name.
    pub(crate) fn merge(&mut self, other: CookieMap)
        ensures
            final(self)@ == old(self)@.union_prefer_right(other@),
    {
        proof {
            use_type_invariant(&other);
        }
        let ghost os = other.spec_entries();
        let ghost start = self@;
        let CookieMap { entries } = other;
        let mut i: usize = 0;
        while i < entries.len()
            invariant
                i <= entries@.len(),
                entries@.map_values(|e: (String, Cookie)| (e.0@, e.1@)) == os,
                keys_unique(os),
                self@ == start.union_prefer_right(entries_map(os.take(i as int))),
            decreases entries.len() - i,
        {
            let name = entries[i].0.as_str();
            let cookie = entries[i].1.clone();
            proof {
                assert(os[i as int] == (entries@[i as int].0@, entries@[i as int].1@));
            }
            self.set(name, cookie);
            proof {
                let prefix = os.take(i as int);
                let next = os.take(i + 1);
                assert(next =~= prefix.push(os[i as int]));
                assert(keys_unique(prefix));
                assert(!has_key(prefix, os[i as int].0)) by {
                    if has_key(prefix, os[i as int].0) {
                        let j = key_index(prefix, os[i as int].0);
                        assert(os[j].0 == os[i as int].0);
                    }
                }
                lemma_entries_map_push(prefix, os[i as int].0, os[i as int].1);
                assert(self@ =~= start.union_prefer_right(entries_map(next)));
            }
            i += 1;
        }
        assert(os.take(entries@.len() as int) =~= os);
    }

    /// Reads a Cookie header value such as `a=1; b=2`.
    pub fn parse(s: &str) -> (r: CookieMap)
        ensures
            r@ == request_cookies(split_seq(s@, ';')),
    {
        let pieces = split_chars(s, ';');
        let ghost ps = pieces.deep_view();
        let mut map = CookieMap::new();
        let mut i: usize = 0;
        while i < pieces.len()
            invariant
                i <= pieces@.len(),
                ps == pieces.deep_view(),
                map@ == request_cookies(ps.take(i as int)),
            decreases pieces.len() - i,
        {
            let (n, v) = split_once_char(pieces[i].as_str(), '=');
            let name = trim_ows_str(n.as_str());
            let value = trim_ows_str(v.as_str());
            proof {
                assert(ps.take(i + 1).drop_last() =~= ps.take(i as int));
                assert(ps.take(i + 1).last() == pieces@[i as int]@);
            }
            if !name.as_str().is_empty() {
                map.set(name.as_str(), Cookie::new(value.as_str()));
            }
            i += 1;
        }
        assert(ps.take(pieces@.len() as int) =~= ps);
        map
    }

    /// Reads Set-Cookie header values, one cookie per value.
    pub fn parse_set_cookies(lines: &Vec<&str>) -> (r: CookieMap)
        ensures
            r@ == response_cookies(lines@.map_values(|l: &str| l@)),
    {
        let ghost ls = lines@.map_values(|l: &str| l@);
        let mut map = CookieMap::new();
        let mut i: usize = 0;
        while i < lines.len()
            invariant
                i <= lines@.len(),
                ls == lines@.map_values(|l: &str| l@),
                map@ == response_cookies(ls.take(i as int)),
            decreases lines.len() - i,
        {
            let (first, attrs) = split_once_char(lines[i], ';');
            let (n, v) = split_once_char(first.as_str(), '=');
            let name = trim_ows_str(n.as_str());
            let value = trim_ows_str(v.as_str());
            let attributes = trim_ows_str(attrs.as_str());
            proof {
                assert(ls.take(i + 1).drop_last() =~= ls.take(i as int));
                assert(ls.take(i + 1).last() == lines@[i as int]@);
            }
            if !name.as_str().is_empty() {
                map.set(name.as_str(), Cookie::with_attributes(value.as_str(), attributes.as_str()));
            }
            i += 1;
        }
        assert(ls.take(lines@.len() as int) =~= ls);
        map
    }

    /// The Cookie header line `cookie: a=1; b=2` for a request (empty when
    /// there are no cookies).
    pub fn request(&self) -> (r: String)
        ensures
            self.spec_entries().len() == 0 ==> r@ == Seq::<char>::empty(),
            self.spec_entries().len() > 0 ==> r@ == "cookie: "@ + join(pair_texts(self.spec_entries()), "; "@),
    {
        let ghost es = self.spec_entries();
        let ghost list = pair_texts(es);
        if self.entries.len() == 0 {
            return String::new();
        }
        let mut joined = String::new();
        let mut i: usize = 0;
        while i < self.entries.len()
            invariant
                i <= self.entries@.len(),
                es == self.spec_entries(),
                list == pair_texts(es),
                joined@ == join(list.take(i as int), "; "@),
            decreases self.entries.len() - i,
        {
            proof {
                assert(list.take(i + 1).drop_last() =~= list.take(i as int));
            }
            if i > 0 {
                joined.append("; ");
            }
            joined.append(self.entries[i].0.as_str());
            joined.append("=");
            joined.append(self.entries[i].1.value());
            proof {
                assert(list[i as int] == pair_text(es[i as int]));
                if i == 0 {
                    assert(joined@ =~= list.take(1)[0]);
                } else {
                    assert(joined@ =~= join(list.take(i as int), "; "@) + "; "@ + list.take(i + 1).last());
                }
            }
            i += 1;
        }
        assert(list.take(self.entries@.len() as int) =~= list);
        let mut line = String::from_str("cookie: ");
        line.append(joined.as_str());
        line
    }

    /// The Set-Cookie values of a response, one per cookie.
    pub fn response(&self) -> (r: HeaderValue)
        ensures
            r@ == HeaderValueView::Multiple(set_cookie_texts(self.spec_entries())),
    {
        let ghost es = self.spec_entries();
        let mut out: Vec<String> = Vec::new();
        let mut i: usize = 0;
        while i < self.entries.len()
            invariant
                i <= self.entries@.len(),
                es == self.spec_entries(),
                out@.len() == i,
                forall|k: int| 0 <= k < i ==> (#[trigger] out@[k])@ == set_cookie_text(es[k]),
            decreases self.entries.len() - i,
        {
            let mut s = copy_string(&self.entries[i].0);
            s.append("=");
            s.append(self.entries[i].1.value());
            let attrs = self.entries[i].1.attributes();
            if !attrs.is_empty() {
                s.append("; ");
                s.append(attrs);
            }
            out.push(s);
            i += 1;
        }
        let r = HeaderValue::Multiple(out);
        assert(out.deep_view() =~= set_cookie_texts(es));
        r
    }
}

proof fn lemma_split_no_sep(s: Seq<char>, sep: char)
    requires
        !s.contains(sep),
    ensures
        split_seq(s, sep) == seq![s],
    decreases s.len(),
{
    if s.len() == 0 {
        assert(s =~= Seq::<char>::empty());
        assert(split_seq(s, sep) =~= seq![s]);
    } else {
        let t = s.drop_last();
        assert(!t.contains(sep)) by {
            if t.contains(sep) {
                let k = choose|k: int| 0 <= k < t.len() && t[k] == sep;
                assert(s[k] == sep);
            }
        }
        lemma_split_no_sep(t, sep);
        assert(s.last() != sep) by {
            assert(s[s.len() - 1] == s.last());
        }
        let prev = split_seq(t, sep);
        assert(prev == seq![t]);
        assert(prev.last() == t);
        assert(split_seq(s, sep) == prev.update(prev.len() - 1, prev.last().push(s.last())));
        assert(t.push(s.last()) =~= s);
        assert(split_seq(s, sep) =~= seq![s]);
    }
}

proof fn lemma_split_concat(a: Seq<char>, b: Seq<char>, sep: char)
    ensures
        split_seq(a + seq![sep] + b, sep) == split_seq(a, sep) + split_seq(b, sep),
    decreases b.len(),
{
    let s = a + seq![sep] + b;
    if b.len() == 0 {
        assert(s =~= (a + seq![sep]));
        assert((a + seq![sep]).drop_last() =~= a);
        assert(split_seq(b, sep) =~= seq![Seq::<char>::empty()]);
        assert(split_seq(s, sep) =~= split_seq(a, sep) + split_seq(b, sep));
    } else {
        let b0 = b.drop_last();
        lemma_split_concat(a, b0, sep);
        assert(s.drop_last() =~= a + seq![sep] + b0);
        assert(s.last() == b.last());
        crate::text::lemma_split_nonempty(b0, sep);
        let pa = split_seq(a, sep);
        let pb = split_seq(b0, sep);
        if b.last() == sep {
            assert(split_seq(s, sep) =~= pa + split_seq(b, sep));
        } else {
            assert((pa + pb).last() == pb.last());
            assert(split_seq(s, sep) =~= pa + split_seq(b, sep));
        }
    }
}

proof fn lemma_request_cookies_concat(p: Seq<Seq<char>>, q: Seq<Seq<char>>)
    ensures
        request_cookies(p + q) == request_cookies(p).union_prefer_right(request_cookies(q)),
    decreases q.len(),
{
    if q.len() == 0 {
        assert(p + q =~= p);
        assert(request_cookies(p).union_prefer_right(request_cookies(q)) =~= request_cookies(p));
    } else {
        let q0 = q.drop_last();
        lemma_request_cookies_concat(p, q0);
        assert((p + q).drop_last() =~= p + q0);
        assert((p + q).last() == q.last());
        let (n, v) = cookie_pair(q.last());
        if n.len() > 0 {
            assert(request_cookies(p + q) =~= request_cookies(p).union_prefer_right(request_cookies(q)));
        }
    }
}

/// A Cookie header value made of two parts joined by `;` holds the cookies
/// of both parts, those of the second replacing those of the first with the
/// same name.
pub proof fn law_cookie_header_concat(a: Seq<char>, b: Seq<char>)
    ensures
        request_cookies(split_seq(a + seq![';'] + b, ';'))
            == request_cookies(split_seq(a, ';')).union_prefer_right(request_cookies(split_seq(b, ';'))),
{
    lemma_split_concat(a, b, ';');
    lemma_request_cookies_concat(split_seq(a, ';'), split_seq(b, ';'));
}

proof fn lemma_cookie_pair_of(lead: Seq<char>, n: Seq<char>, v: Seq<char>)
    requires
        forall|k: int| 0 <= k < lead.len() ==> (#[trigger] lead[k] == ' ' || lead[k] == '\t'),
        n.len() > 0,
        forall|k: int| 0 <= k < n.len() ==> #[trigger] n[k] != '=' && n[k] != ';',
        n[0] != ' ' && n[0] != '\t' && n.last() != ' ' && n.last() != '\t',
        v.len() > 0 ==> v[0] != ' ' && v[0] != '\t' && v.last() != ' ' && v.last() != '\t',
    ensures
        cookie_pair(lead + n + seq!['='] + v) == (n, v),
{
    let s = lead + n + seq!['='] + v;
    let i: int = (lead.len() + n.len()) as int;
    assert(crate::text::is_first_index(s, '=', i)) by {
        assert forall|k: int| 0 <= k < i implies s[k] != '=' by {
            if k < lead.len() {
                assert(s[k] == lead[k]);
            } else {
                assert(s[k] == n[k - lead.len()]);
            }
        }
    }
    crate::text::lemma_first_index(s, '=', i);
    let before = lead + n;
    assert(before_first(s, '=') =~= before);
    assert(after_first(s, '=') =~= v);
    assert(crate::text::is_lead_ows(before, lead.len() as int)) by {
        assert(before[lead.len() as int] == n[0]);
        assert forall|k: int| 0 <= k < lead.len() implies crate::text::is_ows(#[trigger] before[k]) by {
            assert(before[k] == lead[k]);
        }
    }
    crate::text::lemma_lead_ows(before, lead.len() as int);
    assert(before.skip(lead.len() as int) =~= n);
    crate::text::lemma_trail_ows(n, 0);
    assert(n.take(n.len() - 0) =~= n);
    crate::text::lemma_lead_ows(v, 0);
    assert(v.skip(0) =~= v);
    crate::text::lemma_trail_ows(v, 0);
    assert(v.take(v.len() - 0) =~= v);
}

/// A single `name=value` pair of a Cookie header, after optional spaces or
/// tabs, is read as exactly that cookie: the name as written (letter case
/// kept), the value as written, no attributes. The name is non-empty,
/// without `=` or `;` and without surrounding spaces or tabs; the value has
/// no `;` and no surrounding spaces or tabs.
pub proof fn law_cookie_pair_read(lead: Seq<char>, n: Seq<char>, v: Seq<char>)
    requires
        forall|k: int| 0 <= k < lead.len() ==> (#[trigger] lead[k] == ' ' || lead[k] == '\t'),
        n.len() > 0,
        forall|k: int| 0 <= k < n.len() ==> #[trigger] n[k] != '=' && n[k] != ';',
        n[0] != ' ' && n[0] != '\t' && n.last() != ' ' && n.last() != '\t',
        forall|k: int| 0 <= k < v.len() ==> #[trigger] v[k] != ';',
        v.len() > 0 ==> v[0] != ' ' && v[0] != '\t' && v.last() != ' ' && v.last() != '\t',
    ensures
        request_cookies(split_seq(lead + n + seq!['='] + v, ';'))
            == Map::<Seq<char>, (Seq<char>, Seq<char>)>::empty().insert(n, (v, Seq::<char>::empty())),
{
    let s = lead + n + seq!['='] + v;
    let i: int = (lead.len() + n.len()) as int;
    assert forall|k: int| 0 <= k < s.len() implies s[k] != ';' by {
        if k < lead.len() {
            assert(s[k] == lead[k]);
        } else if k < i {
            assert(s[k] == n[k - lead.len()]);
        } else if k > i {
            assert(s[k] == v[k - i - 1]);
        }
    }
    lemma_split_no_sep(s, ';');
    lemma_cookie_pair_of(lead, n, v);
    let ps = split_seq(s, ';');
    assert(ps.drop_last() =~= Seq::<Seq<char>>::empty());
    assert(ps.last() == s);
    assert(request_cookies(ps.drop_last()) == Map::<Seq<char>, (Seq<char>, Seq<char>)>::empty());
}

} // verus!
