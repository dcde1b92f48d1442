//! Collection of HTTP header name/value pairs.
//!
//! The entries are kept in insertion order and no name occurs twice. The
//! collection is read as a map from names to values. A list is used rather
//! than a hash map: the names are strings, whose hashed lookups the contracts
//! could not follow, and a list writes the header block in a fixed order
//! where a hash map would walk it in an order seeded anew in each process.
use vstd::prelude::*;
use vstd::string::StringExecFns;
use crate::header::error::{HeaderError, HeaderLineError, is_missing, is_multiple_values};
use crate::header::line::{parse_field_chars, spec_parse_field_line};
use crate::header::value::{HeaderValue, HeaderValueView, copy_string};
use crate::text::{chars_of, str_eq};
use crate::entries::{keys_unique, has_key, key_index, entries_map, lemma_entries_map_at, lemma_entries_map_push, lemma_entries_map_update, lemma_entries_map_remove};

verus! {

/// One entry: a name and its value.
pub type EntryView = (Seq<char>, HeaderValueView);

/// Collection of HTTP header name/value pairs.
///
/// Accessors come in `get_*` / `require_*` pairs: `get_*` treats absence as
/// non-error (`Option`/`Vec`); `require_*` returns `Err(HeaderError::Missing(name))`
/// on absence.
#[derive(Debug)]
pub struct HeaderMap {
    entries: Vec<(String, HeaderValue)>,
}

impl View for HeaderMap {
    type V = Map<Seq<char>, HeaderValueView>;

    open spec fn view(&self) -> Map<Seq<char>, HeaderValueView> {
        entries_map(self.spec_entries())
    }
}

impl Clone for HeaderMap {
    fn clone(&self) -> (r: Self)
        ensures
            r.spec_entries() == self.spec_entries(),
            r@ == self@,
    {
        proof {
            use_type_invariant(self);
        }
        let mut entries: Vec<(String, HeaderValue)> = Vec::new();
        let mut i: usize = 0;
        while i < self.entries.len()
            invariant
                i <= self.entries@.len(),
                entries@.len() == i,
                forall|k: int| 0 <= k < i ==> (#[trigger] entries@[k]).0@ == self.entries@[k].0@
                    && entries@[k].1@ == self.entries@[k].1@,
            decreases self.entries.len() - i,
        {
            let name = copy_string(&self.entries[i].0);
            let value = self.entries[i].1.duplicate();
            entries.push((name, value));
            i += 1;
        }
        assert(entries@.map_values(|e: (String, HeaderValue)| (e.0@, e.1@)) =~= self.spec_entries());
        HeaderMap { entries }
    }
}

impl HeaderMap {
    /// The entries in order, by their views.
    pub closed spec fn spec_entries(&self) -> Seq<EntryView> {
        self.entries@.map_values(|e: (String, HeaderValue)| (e.0@, e.1@))
    }

    #[verifier::type_invariant]
    closed spec fn wf(&self) -> bool {
        keys_unique(self.spec_entries())
    }

    /// Creates an empty `HeaderMap`.
    pub fn new() -> (r: Self)
        ensures
            r@ == Map::<Seq<char>, HeaderValueView>::empty(),
            r.spec_entries() == Seq::<EntryView>::empty(),
    {
        let r = HeaderMap { entries: Vec::new() };
        assert(r.spec_entries() =~= Seq::<EntryView>::empty());
        assert(r@ =~= Map::<Seq<char>, HeaderValueView>::empty());
        r
    }

    /// Position of the entry named `name`, if any.
    fn find(&self, name: &str) -> (r: Option<usize>)
        ensures
            match r {
                Some(i) => i < self.spec_entries().len() && self.spec_entries()[i as int].0 == name@
                    && self@.contains_key(name@) && self@[name@] == self.spec_entries()[i as int].1,
                None => !self@.contains_key(name@),
            },
    {
        proof {
            use_type_invariant(self);
        }
        let ghost s = self.spec_entries();
        let mut i: usize = 0;
        while i < self.entries.len()
            invariant
                i <= self.entries@.len() == s.len(),
                s == self.spec_entries(),
                forall|k: int| 0 <= k < i ==> (#[trigger] s[k]).0 != name@,
            decreases self.entries.len() - i,
        {
            if str_eq(self.entries[i].0.as_str(), name) {
                proof {
                    use_type_invariant(self);
                    lemma_entries_map_at(s, i as int);
                }
                return Some(i);
            }
            i += 1;
        }
        None
    }

    /// Returns the number of distinct header names stored.
    pub fn len(&self) -> (r: usize)
        ensures
            r == self@.len(),
            r == self.spec_entries().len(),
    {
        proof {
            use_type_invariant(self);
            self.lemma_dom_len();
        }
        self.entries.len()
    }

    proof fn lemma_dom_len(&self)
        requires
            keys_unique(self.spec_entries()),
        ensures
            self@.dom().len() == self.spec_entries().len(),
            self@.dom().finite(),
    {
        let s = self.spec_entries();
        let keys = s.map_values(|e: EntryView| e.0);
        assert forall|i: int, j: int| 0 <= i < j < keys.len() implies keys[i] != keys[j] by {
            assert(s[i].0 != s[j].0);
        }
        keys.unique_seq_to_set();
        assert forall|q: Seq<char>| #[trigger] self@.dom().contains(q) == keys.to_set().contains(q) by {
            if self@.dom().contains(q) {
                let i = key_index(s, q);
                assert(keys[i] == q);
            }
            if keys.to_set().contains(q) {
                let i = choose|i: int| 0 <= i < keys.len() && keys[i] == q;
                assert(s[i].0 == q);
            }
        }
        assert(self@.dom() =~= keys.to_set());
    }

    /// Returns true if no header names are stored.
    pub fn is_empty(&self) -> (r: bool)
        ensures
            r == (self@.len() == 0),
    {
        self.len() == 0
    }

    /// Returns a reference to the value(s) stored under `name`, if any.
    pub fn get(&self, name: &str) -> (r: Option<&HeaderValue>)
        ensures
            r is Some <==> self@.contains_key(name@),
            r matches Some(v) ==> v@ == self@[name@],
    {
        match self.find(name) {
            Some(i) => Some(&self.entries[i].1),
            None => None,
        }
    }

    /// Like [`get`] but treats absence as [`HeaderError::Missing`].
    ///
    /// [`get`]: HeaderMap::get
    pub fn require(&self, name: &str) -> (r: Result<&HeaderValue, HeaderError>)
        ensures
            match r {
                Ok(v) => self@.contains_key(name@) && v@ == self@[name@],
                Err(e) => !self@.contains_key(name@) && is_missing(e, name@),
            },
    {
        match self.get(name) {
            Some(v) => Ok(v),
            None => Err(HeaderError::Missing(String::from_str(name))),
        }
    }

    /// Runs `parse` on the raw [`HeaderValue`] under `name`. Absence is
    /// `Ok(None)`; the closure sees `Single` or `Multiple` unchanged.
    pub fn get_parsed<T, F>(&self, name: &str, parse: F) -> (r: Result<Option<T>, HeaderError>)
        where
            F: FnOnce(&HeaderValue) -> Result<T, HeaderError>,
        requires
            forall|v: &HeaderValue| parse.requires((v,)),
        ensures
            !self@.contains_key(name@) ==> r == Ok::<Option<T>, HeaderError>(None),
            self@.contains_key(name@) ==> exists|v: &HeaderValue, p: Result<T, HeaderError>|
                v@ == self@[name@] && #[trigger] parse.ensures((v,), p) && r == (match p {
                    Ok(t) => Ok(Some(t)),
                    Err(e) => Err(e),
                }),
    {
        match self.get(name) {
            None => Ok(None),
            Some(value) => {
                let p = parse(value);
                match p {
                    Ok(t) => Ok(Some(t)),
                    Err(e) => Err(e),
                }
            },
        }
    }

    /// Like [`get_parsed`] but returns `Err(Missing)` on absence.
    ///
    /// [`get_parsed`]: HeaderMap::get_parsed
    pub fn require_parsed<T, F>(&self, name: &str, parse: F) -> (r: Result<T, HeaderError>)
        where
            F: FnOnce(&HeaderValue) -> Result<T, HeaderError>,
        requires
            forall|v: &HeaderValue| parse.requires((v,)),
        ensures
            !self@.contains_key(name@) ==> (r matches Err(e) && is_missing(e, name@)),
            self@.contains_key(name@) ==> exists|v: &HeaderValue, p: Result<T, HeaderError>|
                v@ == self@[name@] && #[trigger] parse.ensures((v,), p) && r == p,
    {
        match self.get(name) {
            None => Err(HeaderError::Missing(String::from_str(name))),
            Some(value) => parse(value),
        }
    }

    /// Returns the unique value under `name`: `Ok(None)` absent,
    /// `Ok(Some(&str))` when stored as `Single`, `Err(MultipleValues)` when
    /// stored as `Multiple` (regardless of element count).
    pub fn get_only(&self, name: &str) -> (r: Result<Option<&str>, HeaderError>)
        ensures
            match r {
                Ok(None) => !self@.contains_key(name@),
                Ok(Some(s)) => self@.contains_key(name@) && self@[name@] == HeaderValueView::Single(s@),
                Err(e) => self@.contains_key(name@) && self@[name@] is Multiple
                    && is_multiple_values(e, name@),
            },
    {
        match self.get(name) {
            None => Ok(None),
            Some(HeaderValue::Single(value)) => Ok(Some(value.as_str())),
            Some(HeaderValue::Multiple(_)) => Err(HeaderError::MultipleValues(String::from_str(name))),
        }
    }

    /// Like [`get_only`] but treats absence as [`HeaderError::Missing`].
    ///
    /// [`get_only`]: HeaderMap::get_only
    pub fn require_only(&self, name: &str) -> (r: Result<&str, HeaderError>)
        ensures
            match r {
                Ok(s) => self@.contains_key(name@) && self@[name@] == HeaderValueView::Single(s@),
                Err(e) => (!self@.contains_key(name@) && is_missing(e, name@))
                    || (self@.contains_key(name@) && self@[name@] is Multiple
                        && is_multiple_values(e, name@)),
            },
    {
        match self.get_only(name) {
            Ok(Some(s)) => Ok(s),
            Ok(None) => Err(HeaderError::Missing(String::from_str(name))),
            Err(e) => Err(e),
        }
    }

    /// Like [`get_only`] but runs `parse` on the value. Closure errors and
    /// `MultipleValues` propagate.
    ///
    /// [`get_only`]: HeaderMap::get_only
    pub fn get_only_parsed<T, F>(&self, name: &str, parse: F) -> (r: Result<Option<T>, HeaderError>)
        where
            F: FnOnce(&str) -> Result<T, HeaderError>,
        requires
            forall|s: &str| parse.requires((s,)),
        ensures
            !self@.contains_key(name@) ==> r == Ok::<Option<T>, HeaderError>(None),
            self@.contains_key(name@) && self@[name@] is Multiple ==> (r matches Err(e) && is_multiple_values(e, name@)),
            self@.contains_key(name@) && self@[name@] is Single ==> exists|s: &str, p: Result<T, HeaderError>|
                self@[name@] == HeaderValueView::Single(s@) && #[trigger] parse.ensures((s,), p) && r == (match p {
                    Ok(t) => Ok(Some(t)),
                    Err(e) => Err(e),
                }),
    {
        match self.get_only(name) {
            Err(e) => Err(e),
            Ok(None) => Ok(None),
            Ok(Some(value)) => {
                let p = parse(value);
                match p {
                    Ok(t) => Ok(Some(t)),
                    Err(e) => Err(e),
                }
            },
        }
    }

    /// Like [`get_only_parsed`] but returns `Err(Missing)` on absence.
    ///
    /// [`get_only_parsed`]: HeaderMap::get_only_parsed
    pub fn require_only_parsed<T, F>(&self, name: &str, parse: F) -> (r: Result<T, HeaderError>)
        where
            F: FnOnce(&str) -> Result<T, HeaderError>,
        requires
            forall|s: &str| parse.requires((s,)),
        ensures
            !self@.contains_key(name@) ==> (r matches Err(e) && is_missing(e, name@)),
            self@.contains_key(name@) && self@[name@] is Multiple ==> (r matches Err(e) && is_multiple_values(e, name@)),
            self@.contains_key(name@) && self@[name@] is Single ==> exists|s: &str, p: Result<T, HeaderError>|
                self@[name@] == HeaderValueView::Single(s@) && #[trigger] parse.ensures((s,), p) && r == p,
    {
        match self.get_only(name) {
            Err(e) => Err(e),
            Ok(None) => Err(HeaderError::Missing(String::from_str(name))),
            Ok(Some(value)) => parse(value),
        }
    }

    /// Returns every string value stored under `name`, in insertion order.
    pub fn get_all(&self, name: &str) -> (r: Vec<&str>)
        ensures
            !self@.contains_key(name@) ==> r@.len() == 0,
            self@.contains_key(name@) ==> r@.len() == self@[name@].items().len()
                && forall|i: int| 0 <= i < r@.len() ==> (#[trigger] r@[i])@ == self@[name@].items()[i],
    {
        let mut out: Vec<&str> = Vec::new();
        match self.get(name) {
            None => {},
            Some(value) => {
                let vals = value.values();
                let mut i: usize = 0;
                while i < vals.len()
                    invariant
                        i <= vals@.len(),
                        out@.len() == i,
                        forall|k: int| 0 <= k < i ==> (#[trigger] out@[k])@ == vals@[k]@,
                    decreases vals.len() - i,
                {
                    out.push(vals[i].as_str());
                    i += 1;
                }
            },
        }
        out
    }

    /// Like [`get_all`] but returns `Err(Missing)` on absence or zero values.
    ///
    /// [`get_all`]: HeaderMap::get_all
    pub fn require_all(&self, name: &str) -> (r: Result<Vec<&str>, HeaderError>)
        ensures
            match r {
                Ok(v) => self@.contains_key(name@) && v@.len() == self@[name@].items().len() > 0
                    && forall|i: int| 0 <= i < v@.len() ==> (#[trigger] v@[i])@ == self@[name@].items()[i],
                Err(e) => (!self@.contains_key(name@) || self@[name@].items().len() == 0)
                    && is_missing(e, name@),
            },
    {
        let values = self.get_all(name);
        if values.len() == 0 {
            Err(HeaderError::Missing(String::from_str(name)))
        } else {
            Ok(values)
        }
    }

    /// Returns true if any value is stored under `name`.
    pub fn contains_key(&self, name: &str) -> (r: bool)
        ensures
            r == self@.contains_key(name@),
    {
        self.find(name).is_some()
    }

    /// Inserts a value, replacing any existing value(s) for the same name.
    /// Returns the previous value, if any.
    pub fn insert(&mut self, name: String, value: HeaderValue) -> (r: Option<HeaderValue>)
        ensures
            final(self)@ == old(self)@.insert(name@, value@),
            old(self)@.contains_key(name@) <==> r is Some,
            r matches Some(p) ==> p@ == old(self)@[name@],
            old(self)@.contains_key(name@) ==> final(self).spec_entries().len() == old(self).spec_entries().len(),
            !old(self)@.contains_key(name@) ==> final(self).spec_entries() == old(self).spec_entries().push((name@, value@)),
    {
        proof {
            use_type_invariant(&*self);
        }
        let ghost s = self.spec_entries();
        match self.find(name.as_str()) {
            Some(i) => {
                let mut entries: Vec<(String, HeaderValue)> = Vec::new();
                std::mem::swap(&mut entries, &mut self.entries);
                let ghost e0 = entries@;
                assert(e0.map_values(|e: (String, HeaderValue)| (e.0@, e.1@)) == s);
                let (old_name, old_value) = entries.remove(i);
                entries.insert(i, (old_name, value));
                proof {
                    lemma_entries_map_update(s, i as int, value@);
                    assert(entries@.map_values(|e: (String, HeaderValue)| (e.0@, e.1@)) =~= s.update(i as int, (s[i as int].0, value@)));
                }
                self.entries = entries;
                Some(old_value)
            },
            None => {
                let mut entries: Vec<(String, HeaderValue)> = Vec::new();
                std::mem::swap(&mut entries, &mut self.entries);
                let ghost e0 = entries@;
                assert(e0.map_values(|e: (String, HeaderValue)| (e.0@, e.1@)) == s);
                proof {
                    assert(!has_key(s, name@));
                    lemma_entries_map_push(s, name@, value@);
                }
                entries.push((name, value));
                proof {
                    assert(entries@.map_values(|e: (String, HeaderValue)| (e.0@, e.1@)) =~= s.push((name@, value@)));
                }
                self.entries = entries;
                None
            },
        }
    }

    /// Removes and returns the value(s) for `name`, if any.
    pub fn remove(&mut self, name: &str) -> (r: Option<HeaderValue>)
        ensures
            final(self)@ == old(self)@.remove(name@),
            old(self)@.contains_key(name@) <==> r is Some,
            r matches Some(p) ==> p@ == old(self)@[name@],
    {
        proof {
            use_type_invariant(&*self);
        }
        let ghost s = self.spec_entries();
        match self.find(name) {
            Some(i) => {
                let mut entries: Vec<(String, HeaderValue)> = Vec::new();
                std::mem::swap(&mut entries, &mut self.entries);
                let ghost e0 = entries@;
                assert(e0.map_values(|e: (String, HeaderValue)| (e.0@, e.1@)) == s);
                let (_, old_value) = entries.remove(i);
                proof {
                    lemma_entries_map_remove(s, i as int);
                    assert(entries@.map_values(|e: (String, HeaderValue)| (e.0@, e.1@)) =~= s.remove(i as int));
                }
                self.entries = entries;
                Some(old_value)
            },
            None => {
                assert(old(self)@.remove(name@) =~= old(self)@);
                None
            },
        }
    }

    /// Like [`remove`] but returns `Err(Missing)` on absence.
    ///
    /// [`remove`]: HeaderMap::remove
    pub fn require_remove(&mut self, name: &str) -> (r: Result<HeaderValue, HeaderError>)
        ensures
            final(self)@ == old(self)@.remove(name@),
            match r {
                Ok(p) => old(self)@.contains_key(name@) && p@ == old(self)@[name@],
                Err(e) => !old(self)@.contains_key(name@) && is_missing(e, name@),
            },
    {
        match self.remove(name) {
            Some(v) => Ok(v),
            None => Err(HeaderError::Missing(String::from_str(name))),
        }
    }

    /// Extends this map with the entries of `other`, overwriting duplicates.
    pub fn extend(&mut self, other: HeaderMap)
        ensures
            final(self)@ == old(self)@.union_prefer_right(other@),
    {
        proof {
            use_type_invariant(&other);
        }
        let ghost os = other.spec_entries();
        let HeaderMap { entries } = other;
        let ghost start = self@;
        let mut rest = entries;
        let ghost total = rest@;
        let mut idx: usize = 0;
        let n = rest.len();
        // Insert in order: consume from the front by reversing once.
        let mut rev: Vec<(String, HeaderValue)> = Vec::new();
        while rest.len() > 0
            invariant
                rest@.len() + rev@.len() == total.len(),
                total.len() == n,
                forall|k: int| 0 <= k < rest@.len() ==> rest@[k] == total[k],
                forall|k: int| 0 <= k < rev@.len() ==> rev@[k] == total[total.len() - 1 - k],
            decreases rest@.len(),
        {
            let e = rest.pop().unwrap();
            rev.push(e);
        }
        while rev.len() > 0
            invariant
                idx + rev@.len() == total.len() == n,
                forall|k: int| 0 <= k < rev@.len() ==> rev@[k] == total[total.len() - 1 - k],
                total.map_values(|e: (String, HeaderValue)| (e.0@, e.1@)) == os,
                keys_unique(os),
                self@ == start.union_prefer_right(entries_map(os.take(idx as int))),
            decreases rev@.len(),
        {
            let (k, v) = rev.pop().unwrap();
            proof {
                assert(os[idx as int] == (k@, v@));
            }
            self.insert(k, v);
            proof {
                let prefix = os.take(idx as int);
                let next = os.take(idx + 1);
                assert(next =~= prefix.push((k@, v@)));
                assert(keys_unique(prefix));
                assert(!has_key(prefix, k@)) by {
                    if has_key(prefix, k@) {
                        let j = key_index(prefix, k@);
                        assert(os[j].0 == os[idx as int].0);
                    }
                }
                lemma_entries_map_push(prefix, k@, v@);
                assert(self@ =~= start.union_prefer_right(entries_map(next)));
            }
            idx += 1;
        }
        assert(os.take(idx as int) =~= os);
        assert(other@ == entries_map(os));
    }

    /// The entries in insertion order; iterate over them with a `for` loop.
    pub fn iter(&self) -> (r: &[(String, HeaderValue)])
        ensures
            r@.map_values(|e: (String, HeaderValue)| (e.0@, e.1@)) == self.spec_entries(),
    {
        self.entries.as_slice()
    }

    /// Parses and inserts one field line, appending to existing values with
    /// the same field name without combining them into a comma-delimited string.
    pub fn insert_field_line(&mut self, line: &str) -> (r: Result<(), HeaderError>)
        ensures
            match spec_parse_field_line(line@) {
                Err(e) => r == Err::<(), HeaderError>(HeaderError::ParseError(e)) && final(self)@ == old(self)@,
                Ok((n, v)) => r is Ok && final(self)@ == old(self)@.insert(n, if old(self)@.contains_key(n) {
                    old(self)@[n].added(v)
                } else {
                    HeaderValueView::Single(v)
                }),
            },
    {
        let (name, value) = match Self::parse_field_line(line) {
            Ok(p) => p,
            Err(e) => return Err(HeaderError::ParseError(e)),
        };
        match self.remove(name.as_str()) {
            Some(mut existing) => {
                existing.add_owned(value);
                self.insert(name, existing);
                proof {
                    assert(final(self)@ =~= old(self)@.insert(name@, final(self)@[name@]));
                }
            },
            None => {
                self.insert(name, HeaderValue::Single(value));
            },
        }
        Ok(())
    }

    fn parse_field_line(line: &str) -> (r: Result<(String, String), HeaderLineError>)
        ensures
            match r {
                Ok((n, v)) => spec_parse_field_line(line@) == Ok::<(Seq<char>, Seq<char>), HeaderLineError>((n@, v@)),
                Err(e) => spec_parse_field_line(line@) == Err::<(Seq<char>, Seq<char>), HeaderLineError>(e),
            },
    {
        let cs = chars_of(line);
        parse_field_chars(&cs)
    }
}

} // verus!
