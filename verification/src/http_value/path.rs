//! Request targets (the path of a request line) and their parts.
use vstd::prelude::*;
use vstd::string::StringExecFns;
use crate::header::value::copy_string;
use crate::text::{after_first, before_first, split_chars, split_once_char, split_seq, str_eq};

verus! {

/// The path of a request target: the text before the first `?`.
pub open spec fn path_part(raw: Seq<char>) -> Seq<char> {
    before_first(raw, '?')
}

/// The query of a request target: the text after the first `?`.
pub open spec fn query_part(raw: Seq<char>) -> Seq<char> {
    after_first(raw, '?')
}

pub open spec fn is_nonempty(s: Seq<char>) -> bool {
    s.len() > 0
}

/// The non-empty `/`-separated segments of the path.
pub open spec fn path_segments(raw: Seq<char>) -> Seq<Seq<char>> {
    split_seq(path_part(raw), '/').filter(|x: Seq<char>| is_nonempty(x))
}

/// The `&`-separated pairs of the query.
pub open spec fn query_pairs(raw: Seq<char>) -> Seq<Seq<char>> {
    split_seq(query_part(raw), '&')
}

/// The pair `pair` is a non-empty `key=value` (or bare `key`) for `key`.
pub open spec fn arg_matches(pair: Seq<char>, key: Seq<char>) -> bool {
    pair.len() > 0 && before_first(pair, '=') == key
}

/// `j` is the first pair of the query that names `key`.
pub open spec fn is_first_arg(raw: Seq<char>, key: Seq<char>, j: int) -> bool {
    &&& 0 <= j < query_pairs(raw).len()
    &&& arg_matches(query_pairs(raw)[j], key)
    &&& forall|k: int| 0 <= k < j ==> !arg_matches(#[trigger] query_pairs(raw)[k], key)
}

/// The value of the first query pair named `key`.
pub open spec fn spec_url_arg(raw: Seq<char>, key: Seq<char>) -> Option<Seq<char>> {
    if exists|j: int| is_first_arg(raw, key, j) {
        Some(after_first(query_pairs(raw)[choose|j: int| is_first_arg(raw, key, j)], '='))
    } else {
        None
    }
}

/// The request target of a request line.
#[derive(Debug)]
pub struct RequestPath {
    raw: String,
}

impl View for RequestPath {
    type V = Seq<char>;

    open spec fn view(&self) -> Seq<char> {
        self.spec_raw()
    }
}

impl Clone for RequestPath {
    fn clone(&self) -> (r: Self)
        ensures
            r@ == self@,
    {
        RequestPath { raw: copy_string(&self.raw) }
    }
}

impl Default for RequestPath {
    fn default() -> (r: Self)
        ensures
            r@ == "/"@,
    {
        RequestPath { raw: String::from_str("/") }
    }
}

impl RequestPath {
    pub closed spec fn spec_raw(&self) -> Seq<char> {
        self.raw@
    }

    /// The target as written.
    pub fn from_string(s: &str) -> (r: Self)
        ensures
            r@ == s@,
    {
        RequestPath { raw: String::from_str(s) }
    }

    /// The target as written.
    pub fn as_str(&self) -> (r: &str)
        ensures
            r@ == self@,
    {
        self.raw.as_str()
    }

    /// The `part`-th non-empty segment of the path, or an empty string.
    pub fn url_part(&self, part: usize) -> (r: String)
        ensures
            r@ == (if part < path_segments(self@).len() { path_segments(self@)[part as int] } else { Seq::empty() }),
    {
        let (path, _) = split_once_char(self.raw.as_str(), '?');
        let pieces = split_chars(path.as_str(), '/');
        let ghost all = pieces.deep_view();
        let ghost pred = |x: Seq<char>| is_nonempty(x);
        let mut segs: Vec<String> = Vec::new();
        let mut i: usize = 0;
        while i < pieces.len()
            invariant
                i <= pieces@.len(),
                all == pieces.deep_view(),
                pred == (|x: Seq<char>| is_nonempty(x)),
                segs.deep_view() == all.take(i as int).filter(pred),
            decreases pieces.len() - i,
        {
            proof {
                reveal_with_fuel(Seq::<Seq<char>>::filter, 1);
                assert(all.take(i + 1).drop_last() =~= all.take(i as int));
            }
            if !pieces[i].as_str().is_empty() {
                let ghost before = segs.deep_view();
                segs.push(copy_string(&pieces[i]));
                assert(segs.deep_view() =~= before.push(all[i as int]));
            }
            i += 1;
        }
        assert(all.take(pieces@.len() as int) =~= all);
        if part < segs.len() {
            copy_string(&segs[part])
        } else {
            String::new()
        }
    }

    /// The value of the first query argument named `key`.
    pub fn get_url_args(&self, key: &str) -> (r: Option<String>)
        ensures
            match spec_url_arg(self@, key@) {
                Some(v) => r matches Some(s) && s@ == v,
                None => r is None,
            },
    {
        let (_, query) = split_once_char(self.raw.as_str(), '?');
        let pairs = split_chars(query.as_str(), '&');
        let ghost ps = pairs.deep_view();
        assert(ps == query_pairs(self@));
        let mut j: usize = 0;
        while j < pairs.len()
            invariant
                j <= pairs@.len(),
                ps == pairs.deep_view(),
                ps == query_pairs(self@),
                forall|k: int| 0 <= k < j ==> !arg_matches(#[trigger] ps[k], key@),
            decreases pairs.len() - j,
        {
            let (name, value) = split_once_char(pairs[j].as_str(), '=');
            if !pairs[j].as_str().is_empty() && str_eq(name.as_str(), key) {
                proof {
                    assert(pairs[j as int]@ == ps[j as int]);
                    assert(is_first_arg(self@, key@, j as int));
                    let c = choose|c: int| is_first_arg(self@, key@, c);
                    if c < j {
                        assert(!arg_matches(ps[c], key@));
                    }
                    if j < c {
                        assert(!arg_matches(ps[j as int], key@));
                    }
                }
                return Some(value);
            }
            proof {
                assert(pairs[j as int]@ == ps[j as int]);
            }
            j += 1;
        }
        proof {
            assert forall|c: int| !is_first_arg(self@, key@, c) by {
                if 0 <= c < ps.len() {
                    assert(!arg_matches(ps[c], key@));
                }
            }
        }
        None
    }
}

} // verus!
