//! Maps from names to values kept as a list of entries in insertion order,
//! with no name repeated.
use vstd::prelude::*;

verus! {

/// No two entries of `s` share a name.
pub open spec fn keys_unique<V>(s: Seq<(Seq<char>, V)>) -> bool {
    forall|i: int, j: int| 0 <= i < j < s.len() ==> #[trigger] s[i].0 != #[trigger] s[j].0
}

/// Some entry of `s` has the name `k`.
pub open spec fn has_key<V>(s: Seq<(Seq<char>, V)>, k: Seq<char>) -> bool {
    exists|i: int| 0 <= i < s.len() && (#[trigger] s[i]).0 == k
}

/// The position of the entry named `k` (meaningful when `has_key(s, k)`).
pub open spec fn key_index<V>(s: Seq<(Seq<char>, V)>, k: Seq<char>) -> int {
    choose|i: int| 0 <= i < s.len() && (#[trigger] s[i]).0 == k
}

/// The entries read as a map from names to values.
pub open spec fn entries_map<V>(s: Seq<(Seq<char>, V)>) -> Map<Seq<char>, V> {
    Map::new(|k: Seq<char>| has_key(s, k), |k: Seq<char>| s[key_index(s, k)].1)
}

pub proof fn lemma_entries_map_at<V>(s: Seq<(Seq<char>, V)>, i: int)
    requires
        keys_unique(s),
        0 <= i < s.len(),
    ensures
        entries_map(s).contains_key(s[i].0),
        entries_map(s)[s[i].0] == s[i].1,
        key_index(s, s[i].0) == i,
{
    let k = s[i].0;
    assert(has_key(s, k));
    let j = key_index(s, k);
    if j < i {
        assert(s[j].0 != s[i].0);
    }
    if i < j {
        assert(s[i].0 != s[j].0);
    }
}

pub proof fn lemma_entries_map_push<V>(s: Seq<(Seq<char>, V)>, k: Seq<char>, v: V)
    requires
        keys_unique(s),
        !has_key(s, k),
    ensures
        keys_unique(s.push((k, v))),
        entries_map(s.push((k, v))) =~= entries_map(s).insert(k, v),
{
    let t = s.push((k, v));
    assert forall|i: int, j: int| 0 <= i < j < t.len() implies #[trigger] t[i].0 != #[trigger] t[j].0 by {
        if j == s.len() {
            assert(s[i].0 != k);
        } else {
            assert(s[i] == t[i] && s[j] == t[j]);
        }
    }
    assert forall|q: Seq<char>| #[trigger] entries_map(t).contains_key(q) == entries_map(s).insert(k, v).contains_key(q) by {
        if has_key(s, q) {
            let i = key_index(s, q);
            assert(t[i] == s[i]);
        }
        if has_key(t, q) && q != k {
            let i = key_index(t, q);
            assert(i < s.len());
            assert(s[i] == t[i]);
        }
        if q == k {
            assert(t[s.len() as int].0 == k);
        }
    }
    assert forall|q: Seq<char>| #[trigger] entries_map(t).contains_key(q) implies entries_map(t)[q] == entries_map(s).insert(k, v)[q] by {
        if q == k {
            lemma_entries_map_at(t, s.len() as int);
        } else {
            let i = key_index(s, q);
            lemma_entries_map_at(s, i);
            assert(t[i] == s[i]);
            lemma_entries_map_at(t, i);
        }
    }
}

pub proof fn lemma_entries_map_update<V>(s: Seq<(Seq<char>, V)>, i: int, v: V)
    requires
        keys_unique(s),
        0 <= i < s.len(),
    ensures
        keys_unique(s.update(i, (s[i].0, v))),
        entries_map(s.update(i, (s[i].0, v))) =~= entries_map(s).insert(s[i].0, v),
{
    let k = s[i].0;
    let t = s.update(i, (k, v));
    assert forall|a: int, b: int| 0 <= a < b < t.len() implies #[trigger] t[a].0 != #[trigger] t[b].0 by {
        assert(t[a].0 == s[a].0 && t[b].0 == s[b].0);
    }
    assert forall|q: Seq<char>| #[trigger] entries_map(t).contains_key(q) == entries_map(s).insert(k, v).contains_key(q) by {
        if has_key(s, q) {
            let j = key_index(s, q);
            assert(t[j].0 == s[j].0);
        }
        if has_key(t, q) {
            let j = key_index(t, q);
            assert(t[j].0 == s[j].0);
        }
        if q == k {
            assert(t[i].0 == k);
        }
    }
    assert forall|q: Seq<char>| #[trigger] entries_map(t).contains_key(q) implies entries_map(t)[q] == entries_map(s).insert(k, v)[q] by {
        if q == k {
            lemma_entries_map_at(t, i);
        } else {
            let j = key_index(t, q);
            assert(t[j].0 == s[j].0);
            lemma_entries_map_at(s, j);
            lemma_entries_map_at(t, j);
        }
    }
}

pub proof fn lemma_entries_map_remove<V>(s: Seq<(Seq<char>, V)>, i: int)
    requires
        keys_unique(s),
        0 <= i < s.len(),
    ensures
        keys_unique(s.remove(i)),
        entries_map(s.remove(i)) =~= entries_map(s).remove(s[i].0),
{
    let k = s[i].0;
    let t = s.remove(i);
    assert forall|a: int, b: int| 0 <= a < b < t.len() implies #[trigger] t[a].0 != #[trigger] t[b].0 by {
        let a2 = if a < i { a } else { a + 1 };
        let b2 = if b < i { b } else { b + 1 };
        assert(t[a] == s[a2] && t[b] == s[b2]);
    }
    assert forall|q: Seq<char>| #[trigger] entries_map(t).contains_key(q) == entries_map(s).remove(k).contains_key(q) by {
        if has_key(s, q) && q != k {
            let j = key_index(s, q);
            assert(j != i);
            if j < i {
                assert(t[j] == s[j]);
            } else {
                assert(t[j - 1] == s[j]);
            }
        }
        if has_key(t, q) {
            let j = key_index(t, q);
            let j2 = if j < i { j } else { j + 1 };
            assert(t[j] == s[j2]);
            assert(s[j2].0 != s[i].0);
        }
    }
    assert forall|q: Seq<char>| #[trigger] entries_map(t).contains_key(q) implies entries_map(t)[q] == entries_map(s).remove(k)[q] by {
        let j = key_index(t, q);
        let j2 = if j < i { j } else { j + 1 };
        assert(t[j] == s[j2]);
        lemma_entries_map_at(t, j);
        lemma_entries_map_at(s, j2);
    }
}

} // verus!
