//! Parser for one HTTP header field line.
use vstd::prelude::*;
use crate::header::error::HeaderLineError;
use crate::text::{ascii_lower_seq, first_index, is_first_index, is_lead_ows, is_ows, is_trail_ows, lemma_first_index, lemma_lead_ows, lemma_no_index, lemma_trail_ows, trim_ows, chars_of, lower_string_from_chars, ows_bounds, string_from_chars};

verus! {

/// `c` is a `tchar` of RFC 9110 (a character allowed in a token).
pub open spec fn spec_is_tchar(c: char) -> bool {
    ||| c == '!' || c == '#' || c == '$' || c == '%' || c == '&' || c == '\''
    ||| c == '*' || c == '+' || c == '-' || c == '.' || c == '^' || c == '_'
    ||| c == '`' || c == '|' || c == '~'
    ||| ('0' <= c && c <= '9')
    ||| ('A' <= c && c <= 'Z')
    ||| ('a' <= c && c <= 'z')
}

/// `c` may not appear in a field value: CR, LF, NUL, DEL and every control
/// character but horizontal tab.
pub open spec fn spec_is_forbidden_value_char(c: char) -> bool {
    c == '\r' || c == '\n' || c == '\0' || c == '\x7f' || (c < ' ' && c != '\t')
}

/// Every character of `s` is a `tchar`.
pub open spec fn all_tchars(s: Seq<char>) -> bool {
    forall|k: int| 0 <= k < s.len() ==> spec_is_tchar(#[trigger] s[k])
}

/// Some character of `s` is forbidden in a field value.
pub open spec fn has_forbidden_value_char(s: Seq<char>) -> bool {
    exists|k: int| 0 <= k < s.len() && spec_is_forbidden_value_char(#[trigger] s[k])
}

/// The outcome of parsing the field line `s`: the lower-cased field name and
/// the value without surrounding spaces and tabs, or the first rule broken.
pub open spec fn spec_parse_field_line(s: Seq<char>) -> Result<(Seq<char>, Seq<char>), HeaderLineError> {
    if !s.contains(':') {
        Err(HeaderLineError::MissingColon)
    } else {
        let colon = first_index(s, ':');
        let name = s.take(colon);
        let value = s.skip(colon + 1);
        if name.len() == 0 {
            Err(HeaderLineError::EmptyName)
        } else if !all_tchars(name) {
            Err(HeaderLineError::InvalidName)
        } else if has_forbidden_value_char(value) {
            Err(HeaderLineError::InvalidValue)
        } else {
            Ok((ascii_lower_seq(name), trim_ows(value)))
        }
    }
}

/// Whether `c` is a `tchar`.
pub fn is_tchar(c: char) -> (r: bool)
    ensures
        r == spec_is_tchar(c),
{
    match c {
        '!' | '#' | '$' | '%' | '&' | '\'' | '*' | '+' | '-' | '.' | '^' | '_' | '`' | '|'
        | '~' => true,
        _ => ('0' <= c && c <= '9') || ('A' <= c && c <= 'Z') || ('a' <= c && c <= 'z'),
    }
}

/// Whether `c` is forbidden in a field value.
pub fn is_forbidden_value_char(c: char) -> (r: bool)
    ensures
        r == spec_is_forbidden_value_char(c),
{
    c == '\r' || c == '\n' || c == '\0' || c == '\x7f' || (c < ' ' && c != '\t')
}

/// Parses the characters of one field line into its name and value.
pub(crate) fn parse_field_chars(cs: &Vec<char>) -> (r: Result<(String, String), HeaderLineError>)
    ensures
        match r {
            Ok((n, v)) => spec_parse_field_line(cs@) == Ok::<(Seq<char>, Seq<char>), HeaderLineError>((n@, v@)),
            Err(e) => spec_parse_field_line(cs@) == Err::<(Seq<char>, Seq<char>), HeaderLineError>(e),
        },
{
    let n = cs.len();
    let mut colon: usize = 0;
    while colon < n && cs[colon] != ':'
        invariant
            colon <= n == cs@.len(),
            forall|k: int| 0 <= k < colon ==> cs@[k] != ':',
        decreases n - colon,
    {
        colon += 1;
    }
    if colon == n {
        proof {
            lemma_no_index(cs@, ':');
        }
        return Err(HeaderLineError::MissingColon);
    }
    proof {
        lemma_first_index(cs@, ':', colon as int);
    }
    let ghost name = cs@.take(colon as int);
    let ghost value = cs@.skip(colon + 1);
    if colon == 0 {
        return Err(HeaderLineError::EmptyName);
    }
    let mut i: usize = 0;
    while i < colon
        invariant
            colon < n == cs@.len(),
            i <= colon,
            0 < colon,
            cs@.contains(':'),
            first_index(cs@, ':') == colon,
            name == cs@.take(colon as int),
            forall|k: int| 0 <= k < i ==> spec_is_tchar(#[trigger] name[k]),
        decreases colon - i,
    {
        if !is_tchar(cs[i]) {
            assert(!spec_is_tchar(name[i as int]));
            return Err(HeaderLineError::InvalidName);
        }
        i += 1;
    }
    let mut j: usize = colon + 1;
    while j < n
        invariant
            colon < j <= n == cs@.len(),
            0 < colon,
            cs@.contains(':'),
            first_index(cs@, ':') == colon,
            all_tchars(cs@.take(colon as int)),
            value == cs@.skip(colon + 1),
            forall|k: int| 0 <= k < j - colon - 1 ==> !spec_is_forbidden_value_char(#[trigger] value[k]),
        decreases n - j,
    {
        if is_forbidden_value_char(cs[j]) {
            assert(spec_is_forbidden_value_char(value[j - colon - 1]));
            return Err(HeaderLineError::InvalidValue);
        }
        j += 1;
    }
    let lowered = lower_string_from_chars(cs, 0, colon);
    let (a, b) = ows_bounds(cs, colon + 1, n);
    let trimmed = string_from_chars(cs, a, b);
    proof {
        assert(cs@.subrange(0, colon as int) =~= name);
        assert(cs@.subrange(colon + 1, n as int) =~= value);
    }
    Ok((lowered, trimmed))
}

/// One parsed HTTP header field line.
#[derive(Debug, Clone, PartialEq, Eq)]
pub struct HeaderLine {
    name: String,
    value: String,
}

impl View for HeaderLine {
    type V = (Seq<char>, Seq<char>);

    open spec fn view(&self) -> (Seq<char>, Seq<char>) {
        (self.spec_name(), self.spec_value())
    }
}

impl HeaderLine {
    pub closed spec fn spec_name(&self) -> Seq<char> {
        self.name@
    }

    pub closed spec fn spec_value(&self) -> Seq<char> {
        self.value@
    }

    /// Parses `name: value`. The name must be a non-empty token and is
    /// lower-cased; the value may not hold control characters other than tab
    /// and loses its surrounding spaces and tabs.
    pub fn parse(line: &str) -> (r: Result<Self, HeaderLineError>)
        ensures
            match r {
                Ok(h) => spec_parse_field_line(line@) == Ok::<(Seq<char>, Seq<char>), HeaderLineError>(h@),
                Err(e) => spec_parse_field_line(line@) == Err::<(Seq<char>, Seq<char>), HeaderLineError>(e),
            },
    {
        let cs = chars_of(line);
        match parse_field_chars(&cs) {
            Ok((name, value)) => Ok(HeaderLine { name, value }),
            Err(e) => Err(e),
        }
    }

    pub fn name(&self) -> (r: &str)
        ensures
            r@ == self.spec_name(),
    {
        self.name.as_str()
    }

    pub fn value(&self) -> (r: &str)
        ensures
            r@ == self.spec_value(),
    {
        self.value.as_str()
    }

    pub fn into_parts(self) -> (r: (String, String))
        ensures
            r.0@ == self.spec_name(),
            r.1@ == self.spec_value(),
    {
        (self.name, self.value)
    }
}

/// A field line as `into_header_string` writes it, `name: value`, reads back
/// as the same name and value when the name is a lower-case token and the
/// value holds no forbidden character and no surrounding space or tab.
pub proof fn law_field_line_roundtrip(name: Seq<char>, value: Seq<char>)
    requires
        name.len() > 0,
        all_tchars(name),
        ascii_lower_seq(name) == name,
        !has_forbidden_value_char(value),
        value.len() == 0 || (!is_ows(value[0]) && !is_ows(value.last())),
    ensures
        spec_parse_field_line(name + ": "@ + value) == Ok::<(Seq<char>, Seq<char>), HeaderLineError>((name, value)),
{
    reveal_strlit(": ");
    let s = name + ": "@ + value;
    let n = name.len() as int;
    assert(s[n] == ':');
    assert forall|k: int| 0 <= k < n implies s[k] != ':' by {
        assert(s[k] == name[k]);
        assert(spec_is_tchar(name[k]));
    }
    assert(is_first_index(s, ':', n));
    lemma_first_index(s, ':', n);
    assert(s.take(n) =~= name);
    let rest = s.skip(n + 1);
    assert(rest =~= seq![' '] + value);
    assert(!has_forbidden_value_char(rest)) by {
        if has_forbidden_value_char(rest) {
            let k = choose|k: int| 0 <= k < rest.len() && spec_is_forbidden_value_char(#[trigger] rest[k]);
            if k > 0 {
                assert(rest[k] == value[k - 1]);
            }
        }
    }
    assert(is_lead_ows(rest, 1));
    lemma_lead_ows(rest, 1);
    let inner = rest.skip(1);
    assert(inner =~= value);
    assert(is_trail_ows(inner, 0));
    lemma_trail_ows(inner, 0);
    assert(inner.take(inner.len() - 0) =~= value);
}

} // verus!
