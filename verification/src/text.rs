//! Character-level helpers shared by the parsers and serialisers.
//!
//! Every text in this crate is modelled by its characters (`Seq<char>`). The
//! HTTP grammar rules used here only test ASCII characters; a non-ASCII
//! character is encoded with bytes at or above `0x80`, so testing characters
//! gives the same answer as testing the UTF-8 bytes.
use vstd::prelude::*;

verus! {

/// Optional whitespace of HTTP: space or horizontal tab.
pub open spec fn is_ows(c: char) -> bool {
    c == ' ' || c == '\t'
}

/// ASCII upper-case letters are mapped to lower case, everything else kept.
pub open spec fn spec_ascii_lower(c: char) -> char {
    if 'A' <= c && c <= 'Z' {
        ((c as u32) + 32) as char
    } else {
        c
    }
}

/// `s` with every ASCII letter in lower case.
pub open spec fn ascii_lower_seq(s: Seq<char>) -> Seq<char> {
    Seq::new(s.len(), |k: int| spec_ascii_lower(s[k]))
}

/// `n` is the index of the first occurrence of `c` in `s`.
pub open spec fn is_first_index(s: Seq<char>, c: char, n: int) -> bool {
    &&& 0 <= n < s.len()
    &&& s[n] == c
    &&& forall|k: int| 0 <= k < n ==> s[k] != c
}

/// Index of the first occurrence of `c` in `s` (meaningful when `s.contains(c)`).
pub open spec fn first_index(s: Seq<char>, c: char) -> int {
    choose|n: int| is_first_index(s, c, n)
}

/// `n` counts the leading optional whitespace of `s`.
pub open spec fn is_lead_ows(s: Seq<char>, n: int) -> bool {
    &&& 0 <= n <= s.len()
    &&& forall|k: int| 0 <= k < n ==> is_ows(s[k])
    &&& (n == s.len() || !is_ows(s[n]))
}

/// `n` counts the trailing optional whitespace of `s`.
pub open spec fn is_trail_ows(s: Seq<char>, n: int) -> bool {
    &&& 0 <= n <= s.len()
    &&& forall|k: int| s.len() - n <= k < s.len() ==> is_ows(s[k])
    &&& (n == s.len() || !is_ows(s[s.len() - n - 1]))
}

pub open spec fn lead_ows(s: Seq<char>) -> int {
    choose|n: int| is_lead_ows(s, n)
}

pub open spec fn trail_ows(s: Seq<char>) -> int {
    choose|n: int| is_trail_ows(s, n)
}

/// `s` without leading and trailing spaces and tabs.
pub open spec fn trim_ows(s: Seq<char>) -> Seq<char> {
    let rest = s.skip(lead_ows(s));
    rest.take(rest.len() - trail_ows(rest))
}

pub proof fn lemma_first_index(s: Seq<char>, c: char, n: int)
    requires
        is_first_index(s, c, n),
    ensures
        first_index(s, c) == n,
        s.contains(c),
{
    assert(s[n] == c);
    let m = first_index(s, c);
    assert(is_first_index(s, c, m));
    if m < n {
        assert(s[m] != c);
    }
    if n < m {
        assert(s[n] != c);
    }
}

pub proof fn lemma_no_index(s: Seq<char>, c: char)
    requires
        forall|k: int| 0 <= k < s.len() ==> s[k] != c,
    ensures
        !s.contains(c),
{
}

pub proof fn lemma_contains_first_index(s: Seq<char>, c: char)
    requires
        s.contains(c),
    ensures
        is_first_index(s, c, first_index(s, c)),
    decreases s.len(),
{
    let i = choose|i: int| 0 <= i < s.len() && s[i] == c;
    if s[0] == c {
        assert(is_first_index(s, c, 0));
    } else {
        let t = s.drop_first();
        assert(t[i - 1] == c);
        lemma_contains_first_index(t, c);
        let j = first_index(t, c);
        assert(is_first_index(s, c, j + 1)) by {
            assert forall|k: int| 0 <= k < j + 1 implies s[k] != c by {
                if k > 0 {
                    assert(s[k] == t[k - 1]);
                }
            }
        }
    }
}

pub proof fn lemma_lead_ows(s: Seq<char>, n: int)
    requires
        is_lead_ows(s, n),
    ensures
        lead_ows(s) == n,
{
    let m = lead_ows(s);
    assert(is_lead_ows(s, m));
    if m < n {
        assert(is_ows(s[m]));
    }
    if n < m {
        assert(is_ows(s[n]));
    }
}

pub proof fn lemma_trail_ows(s: Seq<char>, n: int)
    requires
        is_trail_ows(s, n),
    ensures
        trail_ows(s) == n,
{
    let m = trail_ows(s);
    assert(is_trail_ows(s, m));
    if m < n {
        assert(is_ows(s[s.len() - m - 1]));
    }
    if n < m {
        assert(is_ows(s[s.len() - n - 1]));
    }
}

/// std's `String::push`: appends one character. The contract claims the
/// text afterwards is the text before with the character at its end.
#[verifier::external_body]
pub(crate) fn push_char(s: &mut String, c: char)
    ensures
        final(s)@ == old(s)@.push(c),
{
    s.push(c);
}

/// The characters of `s`, in order.
pub fn chars_of(s: &str) -> (out: Vec<char>)
    ensures
        out@ == s@,
{
    let mut out: Vec<char> = Vec::new();
    for c in it: s.chars()
        invariant
            out@ == it.seq().take(it.index() as int),
    {
        out.push(c);
    }
    out
}

/// Builds a `String` from the characters `cs[from..to]`.
pub fn string_from_chars(cs: &Vec<char>, from: usize, to: usize) -> (out: String)
    requires
        from <= to <= cs@.len(),
    ensures
        out@ == cs@.subrange(from as int, to as int),
{
    let mut out = String::new();
    let mut i = from;
    while i < to
        invariant
            from <= i <= to <= cs@.len(),
            out@ == cs@.subrange(from as int, i as int),
        decreases to - i,
    {
        push_char(&mut out, cs[i]);
        i += 1;
    }
    out
}

/// The ASCII lower-case form of one character.
pub fn ascii_lower(c: char) -> (r: char)
    ensures
        r == spec_ascii_lower(c),
{
    if 'A' <= c && c <= 'Z' {
        let b: u8 = c as u8;
        (b + 32) as char
    } else {
        c
    }
}

/// Builds a `String` from `cs[from..to]` with ASCII letters lowered.
pub fn lower_string_from_chars(cs: &Vec<char>, from: usize, to: usize) -> (out: String)
    requires
        from <= to <= cs@.len(),
    ensures
        out@ == ascii_lower_seq(cs@.subrange(from as int, to as int)),
{
    let mut out = String::new();
    let mut i = from;
    while i < to
        invariant
            from <= i <= to <= cs@.len(),
            out@ =~= ascii_lower_seq(cs@.subrange(from as int, i as int)),
        decreases to - i,
    {
        let l = ascii_lower(cs[i]);
        push_char(&mut out, l);
        i += 1;
    }
    out
}

/// The bounds `(a, b)` of `cs[from..to]` without surrounding spaces and tabs.
pub fn ows_bounds(cs: &Vec<char>, from: usize, to: usize) -> (r: (usize, usize))
    requires
        from <= to <= cs@.len(),
    ensures
        from <= r.0 <= r.1 <= to,
        cs@.subrange(r.0 as int, r.1 as int) == trim_ows(cs@.subrange(from as int, to as int)),
{
    let ghost s = cs@.subrange(from as int, to as int);
    let mut a = from;
    while a < to && (cs[a] == ' ' || cs[a] == '\t')
        invariant
            from <= a <= to <= cs@.len(),
            forall|k: int| from <= k < a ==> is_ows(cs@[k]),
        decreases to - a,
    {
        a += 1;
    }
    proof {
        lemma_lead_ows(s, a - from);
    }
    let ghost rest = s.skip(a - from);
    assert(rest =~= cs@.subrange(a as int, to as int));
    let mut b = to;
    while b > a && (cs[b - 1] == ' ' || cs[b - 1] == '\t')
        invariant
            a <= b <= to <= cs@.len(),
            forall|k: int| b <= k < to ==> is_ows(cs@[k]),
        decreases b - a,
    {
        b -= 1;
    }
    proof {
        lemma_trail_ows(rest, to - b);
        assert(cs@.subrange(a as int, b as int) =~= rest.take(rest.len() - (to - b)));
    }
    (a, b)
}

} // verus!

verus! {

/// std's `PartialEq` for `str`: whether two string slices hold the same
/// text. The contract claims the answer is the equality of their characters.
#[verifier::external_body]
pub(crate) fn str_eq(a: &str, b: &str) -> (r: bool)
    ensures
        r == (a@ == b@),
{
    a == b
}

} // verus!

verus! {

/// `s` split at every `sep`, as `str::split` does (empty pieces kept).
pub open spec fn split_seq(s: Seq<char>, sep: char) -> Seq<Seq<char>>
    decreases s.len(),
{
    if s.len() == 0 {
        seq![Seq::<char>::empty()]
    } else {
        let prev = split_seq(s.drop_last(), sep);
        if s.last() == sep {
            prev.push(Seq::<char>::empty())
        } else {
            prev.update(prev.len() - 1, prev.last().push(s.last()))
        }
    }
}

pub proof fn lemma_split_nonempty(s: Seq<char>, sep: char)
    ensures
        split_seq(s, sep).len() >= 1,
    decreases s.len(),
{
    if s.len() > 0 {
        lemma_split_nonempty(s.drop_last(), sep);
    }
}

/// `c` is white space in the sense of `char::is_whitespace` (Unicode `White_Space`).
pub open spec fn spec_is_whitespace(c: char) -> bool {
    ||| ('\t' <= c && c <= '\r')
    ||| c == ' '
    ||| c == '\u{85}'
    ||| c == '\u{a0}'
    ||| c == '\u{1680}'
    ||| ('\u{2000}' <= c && c <= '\u{200a}')
    ||| c == '\u{2028}'
    ||| c == '\u{2029}'
    ||| c == '\u{202f}'
    ||| c == '\u{205f}'
    ||| c == '\u{3000}'
}

/// Whether `c` is white space (`char::is_whitespace`).
pub fn is_whitespace(c: char) -> (r: bool)
    ensures
        r == spec_is_whitespace(c),
{
    ('\t' <= c && c <= '\r') || c == ' ' || c == '\u{85}' || c == '\u{a0}' || c == '\u{1680}'
        || ('\u{2000}' <= c && c <= '\u{200a}') || c == '\u{2028}' || c == '\u{2029}'
        || c == '\u{202f}' || c == '\u{205f}' || c == '\u{3000}'
}

/// The words of `s`: the maximal runs of non-white-space characters, as
/// `str::split_whitespace` yields them.
pub open spec fn words(s: Seq<char>) -> Seq<Seq<char>>
    decreases s.len(),
{
    if s.len() == 0 {
        Seq::empty()
    } else {
        let prev = words(s.drop_last());
        let c = s.last();
        if spec_is_whitespace(c) {
            prev
        } else if s.len() >= 2 && !spec_is_whitespace(s[s.len() - 2]) && prev.len() > 0 {
            prev.update(prev.len() - 1, prev.last().push(c))
        } else {
            prev.push(seq![c])
        }
    }
}

/// No character of `s` is white space.
pub open spec fn no_whitespace(s: Seq<char>) -> bool {
    forall|k: int| 0 <= k < s.len() ==> !spec_is_whitespace(#[trigger] s[k])
}

/// A text whose last character is not white space has at least one word.
pub proof fn lemma_words_nonempty(s: Seq<char>)
    requires
        s.len() > 0,
        !spec_is_whitespace(s.last()),
    ensures
        words(s).len() > 0,
{
}

/// A non-empty text without white space is one word.
pub proof fn lemma_words_single(w: Seq<char>)
    requires
        w.len() > 0,
        no_whitespace(w),
    ensures
        words(w) == seq![w],
    decreases w.len(),
{
    if w.len() > 1 {
        let init = w.drop_last();
        assert(no_whitespace(init)) by {
            assert forall|k: int| 0 <= k < init.len() implies !spec_is_whitespace(#[trigger] init[k]) by {
                assert(init[k] == w[k]);
            }
        }
        lemma_words_single(init);
        assert(!spec_is_whitespace(w[w.len() - 2]));
        assert(!spec_is_whitespace(w.last()));
        assert(init.push(w.last()) =~= w);
        assert(seq![init].update(0, init.push(w.last())) =~= seq![w]);
        assert(words(w) == seq![init].update(0, init.push(w.last())));
    } else {
        assert(!spec_is_whitespace(w[0]));
        assert(w.drop_last() =~= Seq::<char>::empty());
        assert(words(w.drop_last()) =~= Seq::<Seq<char>>::empty());
        assert(seq![w.last()] =~= w);
        assert(words(w) == Seq::<Seq<char>>::empty().push(seq![w.last()]));
        assert(Seq::<Seq<char>>::empty().push(seq![w.last()]) =~= seq![w]);
    }
}

/// White space between two texts separates their words.
pub proof fn lemma_words_concat(a: Seq<char>, sep: char, b: Seq<char>)
    requires
        spec_is_whitespace(sep),
    ensures
        words(a + seq![sep] + b) == words(a) + words(b),
    decreases b.len(),
{
    let s = a + seq![sep] + b;
    if b.len() == 0 {
        assert(s.drop_last() =~= a);
        assert(words(a) + words(b) =~= words(a));
    } else {
        let b0 = b.drop_last();
        let c = b.last();
        lemma_words_concat(a, sep, b0);
        assert(s.drop_last() =~= a + seq![sep] + b0);
        let prev = words(a + seq![sep] + b0);
        assert(prev == words(a) + words(b0));
        if spec_is_whitespace(c) {
        } else if b0.len() == 0 {
            assert(s[s.len() - 2] == sep);
            assert(b.drop_last() =~= b0);
            assert(words(b) =~= seq![seq![c]]);
            assert(words(a) + words(b) =~= prev.push(seq![c]));
        } else if !spec_is_whitespace(b0.last()) {
            assert(s[s.len() - 2] == b0.last());
            lemma_words_nonempty(b0);
            assert(b[b.len() - 2] == b0.last());
            assert(b.drop_last() =~= b0);
            let wb0 = words(b0);
            assert(words(b) == wb0.update(wb0.len() - 1, wb0.last().push(c)));
            assert(words(a) + words(b) =~= prev.update(prev.len() - 1, prev.last().push(c)));
        } else {
            assert(s[s.len() - 2] == b0.last());
            assert(b[b.len() - 2] == b0.last());
            assert(b.drop_last() =~= b0);
            assert(words(a) + words(b) =~= prev.push(seq![c]));
        }
    }
}

/// Value of a run of decimal digits (meaningful when every character is a digit).
pub open spec fn digits_value(s: Seq<char>) -> nat
    decreases s.len(),
{
    if s.len() == 0 {
        0
    } else {
        digits_value(s.drop_last()) * 10 + ((s.last() as u32) - ('0' as u32)) as nat
    }
}

pub open spec fn is_digit(c: char) -> bool {
    '0' <= c && c <= '9'
}

pub open spec fn all_digits(s: Seq<char>) -> bool {
    forall|k: int| 0 <= k < s.len() ==> is_digit(#[trigger] s[k])
}

/// The number an unsigned integer `from_str` reads from `s`: an optional `+`
/// then at least one digit; `None` for anything else.
pub open spec fn spec_parse_unsigned(s: Seq<char>) -> Option<nat> {
    let d = if s.len() > 0 && s[0] == '+' { s.drop_first() } else { s };
    if d.len() > 0 && all_digits(d) {
        Some(digits_value(d))
    } else {
        None
    }
}

/// Splits `s` at every `sep`.
pub fn split_chars(s: &str, sep: char) -> (r: Vec<String>)
    ensures
        r.deep_view() == split_seq(s@, sep),
{
    let mut out: Vec<String> = Vec::new();
    let mut cur = String::new();
    let ghost mut seen: Seq<char> = Seq::empty();
    for c in it: s.chars()
        invariant
            seen == it.seq().take(it.index() as int),
            out.deep_view().push(cur@) == split_seq(seen, sep),
    {
        proof {
            lemma_split_nonempty(seen, sep);
        }
        let ghost prev_out = out.deep_view();
        let ghost prev_cur = cur@;
        if c == sep {
            let mut done = String::new();
            std::mem::swap(&mut done, &mut cur);
            out.push(done);
        } else {
            push_char(&mut cur, c);
        }
        proof {
            let next = seen.push(c);
            assert(next.drop_last() =~= seen);
            assert(it.seq().take(it.index() + 1) =~= next);
            seen = next;
            assert(out.deep_view().push(cur@) =~= split_seq(seen, sep));
        }
    }
    proof {
        assert(seen =~= s@);
    }
    let ghost before = out.deep_view();
    out.push(cur);
    assert(out.deep_view() =~= before.push(cur@));
    out
}

/// The words of `s`, as `str::split_whitespace` yields them.
pub fn split_words(s: &str) -> (r: Vec<String>)
    ensures
        r.deep_view() == words(s@),
{
    let mut out: Vec<String> = Vec::new();
    let mut cur = String::new();
    let mut in_word = false;
    let ghost mut seen: Seq<char> = Seq::empty();
    for c in it: s.chars()
        invariant
            seen == it.seq().take(it.index() as int),
            in_word == (seen.len() > 0 && !spec_is_whitespace(seen.last())),
            in_word ==> out.deep_view().push(cur@) == words(seen),
            !in_word ==> out.deep_view() == words(seen),
            !in_word ==> cur@ == Seq::<char>::empty(),
    {
        let ghost prev = words(seen);
        let ghost prev_out = out.deep_view();
        let ghost prev_cur = cur@;
        let ghost was_in = in_word;
        if is_whitespace(c) {
            if in_word {
                let mut done = String::new();
            std::mem::swap(&mut done, &mut cur);
                out.push(done);
                in_word = false;
            }
        } else {
            push_char(&mut cur, c);
            in_word = true;
        }
        proof {
            let next = seen.push(c);
            assert(next.drop_last() =~= seen);
            assert(it.seq().take(it.index() + 1) =~= next);
            if !spec_is_whitespace(c) && next.len() >= 2 && !spec_is_whitespace(next[next.len() - 2]) {
                assert(prev.len() > 0);
            }
            seen = next;
            if in_word {
                if was_in {
                    assert(prev == prev_out.push(prev_cur));
                    assert(out.deep_view().push(cur@) =~= prev.update(prev.len() - 1, prev.last().push(c)));
                } else {
                    assert(out.deep_view().push(cur@) =~= prev.push(seq![c]));
                }
                assert(out.deep_view().push(cur@) =~= words(seen));
            } else {
                if was_in {
                    assert(prev == prev_out.push(prev_cur));
                    assert(out.deep_view() =~= prev_out.push(prev_cur));
                }
                assert(out.deep_view() =~= words(seen));
            }
        }
    }
    proof {
        assert(seen =~= s@);
    }
    if in_word {
        let ghost before = out.deep_view();
        out.push(cur);
        assert(out.deep_view() =~= before.push(cur@));
    }
    out
}

/// Reads an unsigned number no larger than `max` the way `u64::from_str` does:
/// an optional `+`, then at least one decimal digit.
pub fn parse_unsigned(s: &str, max: u64) -> (r: Option<u64>)
    ensures
        match spec_parse_unsigned(s@) {
            Some(v) => if v <= max { r == Some(v as u64) } else { r is None },
            None => r is None,
        },
{
    let cs = chars_of(s);
    let mut start: usize = 0;
    if cs.len() > 0 && cs[0] == '+' {
        start = 1;
    }
    let ghost d = if s@.len() > 0 && s@[0] == '+' { s@.drop_first() } else { s@ };
    assert(d =~= cs@.skip(start as int));
    if start == cs.len() {
        return None;
    }
    let mut v: u64 = 0;
    let mut over = false;
    let mut i = start;
    while i < cs.len()
        invariant
            start <= i <= cs@.len(),
            start < cs@.len(),
            cs@ == s@,
            start == (if s@.len() > 0 && s@[0] == '+' { 1usize } else { 0usize }),
            d == (if s@.len() > 0 && s@[0] == '+' { s@.drop_first() } else { s@ }),
            d == cs@.skip(start as int),
            all_digits(cs@.subrange(start as int, i as int)),
            !over ==> v == digits_value(cs@.subrange(start as int, i as int)),
            !over ==> v <= max,
            over ==> digits_value(cs@.subrange(start as int, i as int)) > max,
        decreases cs.len() - i,
    {
        let c = cs[i];
        let ghost pre = cs@.subrange(start as int, i as int);
        let ghost nxt = cs@.subrange(start as int, i + 1);
        assert(nxt.drop_last() =~= pre);
        if !('0' <= c && c <= '9') {
            assert(!is_digit(d[i - start]));
            return None;
        }
        let digit = (c as u32 - '0' as u32) as u64;
        assert(digits_value(nxt) == digits_value(pre) * 10 + digit);
        if !over {
            if v > max / 10 {
                over = true;
                assert(digits_value(nxt) > max) by (nonlinear_arith)
                    requires
                        digits_value(nxt) == v * 10 + digit,
                        v > max / 10,
                {
                }
            } else {
                assert(v * 10 <= max) by (nonlinear_arith)
                    requires
                        v <= max / 10,
                {
                }
                let t = v * 10;
                if digit > max - t {
                    over = true;
                } else {
                    v = t + digit;
                }
            }
        } else {
            assert(digits_value(nxt) > max) by (nonlinear_arith)
                requires
                    digits_value(nxt) == digits_value(pre) * 10 + digit,
                    digits_value(pre) > max,
            {
            }
        }
        i += 1;
    }
    assert(cs@.subrange(start as int, cs@.len() as int) =~= d);
    if over {
        None
    } else {
        Some(v)
    }
}

} // verus!

verus! {

/// The decimal digit character for `d < 10`.
pub open spec fn digit_char(d: nat) -> char {
    (('0' as u32) + d) as char
}

/// The decimal representation of `n`, without leading zeros.
pub open spec fn decimal_digits(n: nat) -> Seq<char>
    decreases n,
{
    if n < 10 {
        seq![digit_char(n)]
    } else {
        decimal_digits(n / 10).push(digit_char(n % 10))
    }
}

/// Reading back the decimal representation of `n` gives `n`.
pub proof fn lemma_decimal_digits_value(n: nat)
    ensures
        decimal_digits(n).len() > 0,
        all_digits(decimal_digits(n)),
        digits_value(decimal_digits(n)) == n,
        decimal_digits(n)[0] != '+',
    decreases n,
{
    let d = n % 10;
    assert(('0' as u32) == 48);
    assert(((48 + d) as char) as u32 == 48 + d);
    assert((digit_char(d) as u32) == ('0' as u32) + d);
    if n < 10 {
        let s = decimal_digits(n);
        assert(s.drop_last() =~= Seq::<char>::empty());
        assert(digits_value(s) == digits_value(s.drop_last()) * 10 + ((s.last() as u32) - ('0' as u32)) as nat);
    }
    if n >= 10 {
        lemma_decimal_digits_value(n / 10);
        let s = decimal_digits(n);
        assert(s.drop_last() =~= decimal_digits(n / 10));
        assert(digits_value(s) == digits_value(s.drop_last()) * 10 + ((s.last() as u32) - ('0' as u32)) as nat);
        assert(s.last() == digit_char(d));
        assert forall|k: int| 0 <= k < s.len() implies is_digit(#[trigger] s[k]) by {
            if k < s.len() - 1 {
                assert(s[k] == decimal_digits(n / 10)[k]);
            }
        }
    }
}

/// The decimal text of `n` reads back as `n`.
pub proof fn lemma_decimal_roundtrip(n: nat)
    ensures
        spec_parse_unsigned(decimal_digits(n)) == Some(n),
{
    lemma_decimal_digits_value(n);
}

/// The decimal representation of `n`.
pub fn decimal_string(n: u64) -> (r: String)
    ensures
        r@ == decimal_digits(n as nat),
    decreases n,
{
    if n < 10 {
        let mut s = String::new();
        push_char(&mut s, ((n as u8) + 48) as char);
        s
    } else {
        let mut s = decimal_string(n / 10);
        push_char(&mut s, (((n % 10) as u8) + 48) as char);
        s
    }
}

} // verus!

verus! {

/// Position of the first `c` in `cs`, if any.
pub fn find_char(cs: &Vec<char>, c: char) -> (r: Option<usize>)
    ensures
        match r {
            Some(i) => is_first_index(cs@, c, i as int) && first_index(cs@, c) == i && cs@.contains(c),
            None => !cs@.contains(c),
        },
{
    let mut i: usize = 0;
    while i < cs.len()
        invariant
            i <= cs@.len(),
            forall|k: int| 0 <= k < i ==> cs@[k] != c,
        decreases cs.len() - i,
    {
        if cs[i] == c {
            proof {
                lemma_first_index(cs@, c, i as int);
            }
            return Some(i);
        }
        i += 1;
    }
    None
}

/// The text before the first `c` of `s`, or all of `s` when it has none.
pub open spec fn before_first(s: Seq<char>, c: char) -> Seq<char> {
    if s.contains(c) {
        s.take(first_index(s, c))
    } else {
        s
    }
}

/// The text after the first `c` of `s`, or nothing when it has none.
pub open spec fn after_first(s: Seq<char>, c: char) -> Seq<char> {
    if s.contains(c) {
        s.skip(first_index(s, c) + 1)
    } else {
        Seq::empty()
    }
}

/// Splits `s` at its first `c` into the text before and after it.
pub fn split_once_char(s: &str, c: char) -> (r: (String, String))
    ensures
        r.0@ == before_first(s@, c),
        r.1@ == after_first(s@, c),
{
    let cs = chars_of(s);
    match find_char(&cs, c) {
        Some(i) => {
            assert(i < cs.len());
            let a = string_from_chars(&cs, 0, i);
            let b = string_from_chars(&cs, i + 1, cs.len());
            assert(cs@.subrange(0, i as int) =~= s@.take(i as int));
            assert(cs@.subrange(i + 1, cs@.len() as int) =~= s@.skip(i + 1));
            (a, b)
        },
        None => {
            let a = string_from_chars(&cs, 0, cs.len());
            assert(cs@.subrange(0, cs@.len() as int) =~= s@);
            (a, String::new())
        },
    }
}

} // verus!

verus! {

/// `n` counts the leading white space of `s`.
pub open spec fn is_lead_ws(s: Seq<char>, n: int) -> bool {
    &&& 0 <= n <= s.len()
    &&& forall|k: int| 0 <= k < n ==> spec_is_whitespace(s[k])
    &&& (n == s.len() || !spec_is_whitespace(s[n]))
}

/// `n` counts the trailing white space of `s`.
pub open spec fn is_trail_ws(s: Seq<char>, n: int) -> bool {
    &&& 0 <= n <= s.len()
    &&& forall|k: int| s.len() - n <= k < s.len() ==> spec_is_whitespace(s[k])
    &&& (n == s.len() || !spec_is_whitespace(s[s.len() - n - 1]))
}

pub open spec fn lead_ws(s: Seq<char>) -> int {
    choose|n: int| is_lead_ws(s, n)
}

pub open spec fn trail_ws(s: Seq<char>) -> int {
    choose|n: int| is_trail_ws(s, n)
}

/// `s` without leading and trailing white space.
pub open spec fn trim_ws(s: Seq<char>) -> Seq<char> {
    let rest = s.skip(lead_ws(s));
    rest.take(rest.len() - trail_ws(rest))
}

pub proof fn lemma_lead_ws(s: Seq<char>, n: int)
    requires
        is_lead_ws(s, n),
    ensures
        lead_ws(s) == n,
{
    let m = lead_ws(s);
    assert(is_lead_ws(s, m));
    if m < n {
        assert(spec_is_whitespace(s[m]));
    }
    if n < m {
        assert(spec_is_whitespace(s[n]));
    }
}

pub proof fn lemma_trail_ws(s: Seq<char>, n: int)
    requires
        is_trail_ws(s, n),
    ensures
        trail_ws(s) == n,
{
    let m = trail_ws(s);
    assert(is_trail_ws(s, m));
    if m < n {
        assert(spec_is_whitespace(s[s.len() - m - 1]));
    }
    if n < m {
        assert(spec_is_whitespace(s[s.len() - n - 1]));
    }
}

/// The bounds `(a, b)` of `cs[from..to]` without surrounding white space.
pub fn ws_bounds(cs: &Vec<char>, from: usize, to: usize) -> (r: (usize, usize))
    requires
        from <= to <= cs@.len(),
    ensures
        from <= r.0 <= r.1 <= to,
        cs@.subrange(r.0 as int, r.1 as int) == trim_ws(cs@.subrange(from as int, to as int)),
{
    let ghost s = cs@.subrange(from as int, to as int);
    let mut a = from;
    while a < to && is_whitespace(cs[a])
        invariant
            from <= a <= to <= cs@.len(),
            forall|k: int| from <= k < a ==> spec_is_whitespace(cs@[k]),
        decreases to - a,
    {
        a += 1;
    }
    proof {
        lemma_lead_ws(s, a - from);
    }
    let ghost rest = s.skip(a - from);
    assert(rest =~= cs@.subrange(a as int, to as int));
    let mut b = to;
    while b > a && is_whitespace(cs[b - 1])
        invariant
            a <= b <= to <= cs@.len(),
            forall|k: int| b <= k < to ==> spec_is_whitespace(cs@[k]),
        decreases b - a,
    {
        b -= 1;
    }
    proof {
        lemma_trail_ws(rest, to - b);
        assert(cs@.subrange(a as int, b as int) =~= rest.take(rest.len() - (to - b)));
    }
    (a, b)
}


/// `s` without leading and trailing white space (`str::trim`).
pub fn trim_str(s: &str) -> (r: String)
    ensures
        r@ == trim_ws(s@),
{
    let cs = chars_of(s);
    let (a, b) = ws_bounds(&cs, 0, cs.len());
    assert(cs@.subrange(0, cs@.len() as int) =~= s@);
    string_from_chars(&cs, a, b)
}

/// `s` without leading and trailing spaces and tabs.
pub fn trim_ows_str(s: &str) -> (r: String)
    ensures
        r@ == trim_ows(s@),
{
    let cs = chars_of(s);
    let (a, b) = ows_bounds(&cs, 0, cs.len());
    assert(cs@.subrange(0, cs@.len() as int) =~= s@);
    string_from_chars(&cs, a, b)
}

/// `s` with ASCII letters in lower case.
pub fn ascii_lowercase(s: &str) -> (r: String)
    ensures
        r@ == ascii_lower_seq(s@),
{
    let cs = chars_of(s);
    assert(cs@.subrange(0, cs@.len() as int) =~= s@);
    lower_string_from_chars(&cs, 0, cs.len())
}

} // verus!

verus! {

/// One element of a comma-separated list: trimmed, in lower case.
pub open spec fn list_item(x: Seq<char>) -> Seq<char> {
    ascii_lower_seq(trim_ows(x))
}

pub open spec fn is_nonempty_item(x: Seq<char>) -> bool {
    x.len() > 0
}

/// The non-empty elements of a comma-separated list, trimmed and in lower case.
pub open spec fn comma_items(s: Seq<char>) -> Seq<Seq<char>> {
    split_seq(s, ',').map_values(|x: Seq<char>| list_item(x)).filter(|x: Seq<char>| is_nonempty_item(x))
}

/// The non-empty elements of a comma-separated list, trimmed and in lower case.
pub fn comma_list(s: &str) -> (r: Vec<String>)
    ensures
        r.deep_view() == comma_items(s@),
{
    let pieces = split_chars(s, ',');
    let ghost all = pieces.deep_view();
    let ghost f = |x: Seq<char>| list_item(x);
    let ghost p = |x: Seq<char>| is_nonempty_item(x);
    let mut out: Vec<String> = Vec::new();
    let mut i: usize = 0;
    while i < pieces.len()
        invariant
            i <= pieces@.len(),
            all == pieces.deep_view(),
            all == split_seq(s@, ','),
            f == (|x: Seq<char>| list_item(x)),
            p == (|x: Seq<char>| is_nonempty_item(x)),
            out.deep_view() == all.take(i as int).map_values(f).filter(p),
        decreases pieces.len() - i,
    {
        let t = trim_ows_str(pieces[i].as_str());
        let item = ascii_lowercase(t.as_str());
        proof {
            reveal_with_fuel(Seq::<Seq<char>>::filter, 1);
            let prev = all.take(i as int).map_values(f);
            let next = all.take(i + 1).map_values(f);
            assert(next =~= prev.push(f(all[i as int])));
            assert(next.drop_last() =~= prev);
            assert(item@ == f(all[i as int]));
        }
        if !item.as_str().is_empty() {
            let ghost before = out.deep_view();
            out.push(item);
            assert(out.deep_view() =~= before.push(item@));
        }
        i += 1;
    }
    assert(all.take(pieces@.len() as int) =~= all);
    out
}

/// Whether some element of `v` has the text `s`.
pub fn contains_text(v: &Vec<String>, s: &str) -> (r: bool)
    ensures
        r == v.deep_view().contains(s@),
{
    let mut i: usize = 0;
    while i < v.len()
        invariant
            i <= v@.len(),
            forall|k: int| 0 <= k < i ==> v@[k]@ != s@,
        decreases v.len() - i,
    {
        if str_eq(v[i].as_str(), s) {
            assert(v.deep_view()[i as int] == s@);
            return true;
        }
        i += 1;
    }
    assert forall|k: int| 0 <= k < v.deep_view().len() implies v.deep_view()[k] != s@ by {
        assert(v.deep_view()[k] == v@[k]@);
    }
    false
}

} // verus!

verus! {

/// `n` is the index of the last occurrence of `c` in `s`.
pub open spec fn is_last_index(s: Seq<char>, c: char, n: int) -> bool {
    &&& 0 <= n < s.len()
    &&& s[n] == c
    &&& forall|k: int| n < k < s.len() ==> s[k] != c
}

/// Index of the last occurrence of `c` in `s` (meaningful when `s.contains(c)`).
pub open spec fn last_index(s: Seq<char>, c: char) -> int {
    choose|n: int| is_last_index(s, c, n)
}

pub proof fn lemma_last_index(s: Seq<char>, c: char, n: int)
    requires
        is_last_index(s, c, n),
    ensures
        last_index(s, c) == n,
        s.contains(c),
{
    assert(s[n] == c);
    let m = last_index(s, c);
    assert(is_last_index(s, c, m));
    if m < n {
        assert(s[n] != c);
    }
    if n < m {
        assert(s[m] != c);
    }
}

/// Position of the last `c` in `cs`, if any.
pub fn rfind_char(cs: &Vec<char>, c: char) -> (r: Option<usize>)
    ensures
        match r {
            Some(i) => is_last_index(cs@, c, i as int) && last_index(cs@, c) == i && cs@.contains(c),
            None => !cs@.contains(c),
        },
{
    let mut i: usize = cs.len();
    while i > 0
        invariant
            i <= cs@.len(),
            forall|k: int| i <= k < cs@.len() ==> cs@[k] != c,
        decreases i,
    {
        if cs[i - 1] == c {
            proof {
                lemma_last_index(cs@, c, i - 1);
            }
            return Some(i - 1);
        }
        i -= 1;
    }
    None
}

/// The text of `std`'s `str::to_lowercase` on `s` (Unicode lower-case
/// mapping), as a function of `s` alone.
pub uninterp spec fn unicode_lowercase(s: Seq<char>) -> Seq<char>;

/// std's `str::to_lowercase`: the Unicode lower-case form of `s`. The
/// contract claims only that the result is `unicode_lowercase` of the text,
/// a function of the text alone; the mapping itself is not stated.
#[verifier::external_body]
pub(crate) fn to_lowercase(s: &str) -> (r: String)
    ensures
        r@ == unicode_lowercase(s@),
{
    s.to_lowercase()
}

} // verus!
