//! The value stored under one header name.
use vstd::prelude::*;
use vstd::string::StringExecFns;

verus! {

/// The mathematical form of a [`HeaderValue`].
pub enum HeaderValueView {
    Single(Seq<char>),
    Multiple(Seq<Seq<char>>),
}

/// `list` joined with `sep` between neighbours.
pub open spec fn join(list: Seq<Seq<char>>, sep: Seq<char>) -> Seq<char>
    decreases list.len(),
{
    if list.len() == 0 {
        Seq::empty()
    } else if list.len() == 1 {
        list[0]
    } else {
        join(list.drop_last(), sep) + sep + list.last()
    }
}

/// One `name: value\r\n` line for each of `items`.
pub open spec fn header_lines(name: Seq<char>, items: Seq<Seq<char>>) -> Seq<char>
    decreases items.len(),
{
    if items.len() == 0 {
        Seq::empty()
    } else {
        header_lines(name, items.drop_last()) + name + ": "@ + items.last() + "\r\n"@
    }
}

impl HeaderValueView {
    /// The stored strings in order (one for `Single`).
    pub open spec fn items(self) -> Seq<Seq<char>> {
        match self {
            HeaderValueView::Single(s) => seq![s],
            HeaderValueView::Multiple(v) => v,
        }
    }

    /// The value rendered as one string; multiple values joined with `, `.
    pub open spec fn joined(self) -> Seq<char> {
        match self {
            HeaderValueView::Single(s) => s,
            HeaderValueView::Multiple(v) => join(v, ", "@),
        }
    }

    /// The value after adding `value` as a separate entry.
    pub open spec fn added(self, value: Seq<char>) -> HeaderValueView {
        HeaderValueView::Multiple(self.items().push(value))
    }

    /// No values, or only empty strings.
    pub open spec fn spec_is_empty(self) -> bool {
        forall|i: int| 0 <= i < self.items().len() ==> (#[trigger] self.items()[i]).len() == 0
    }
}

/// A header value: one string, or several kept separately.
///
/// Most HTTP headers combine multiple values with commas, but some
/// (e.g. `Set-Cookie`) must stay as separate values.
#[derive(Debug, Clone)]
pub enum HeaderValue {
    /// A single header value
    Single(String),
    /// Multiple header values
    Multiple(Vec<String>),
}

impl View for HeaderValue {
    type V = HeaderValueView;

    open spec fn view(&self) -> HeaderValueView {
        match self {
            HeaderValue::Single(s) => HeaderValueView::Single(s@),
            HeaderValue::Multiple(v) => HeaderValueView::Multiple(v.deep_view()),
        }
    }
}

/// Copies a string (std's `Clone` for `String`, whose copy has the same text).
pub(crate) fn copy_string(s: &String) -> (r: String)
    ensures
        r@ == s@,
{
    s.clone()
}

/// Copies a list of strings, element by element.
pub(crate) fn copy_strings(v: &Vec<String>) -> (r: Vec<String>)
    ensures
        r.deep_view() =~= v.deep_view(),
{
    let mut r: Vec<String> = Vec::new();
    let mut i: usize = 0;
    while i < v.len()
        invariant
            i <= v.len(),
            r.len() == i,
            forall|k: int| 0 <= k < i ==> #[trigger] r@[k]@ == v@[k]@,
        decreases v.len() - i,
    {
        r.push(copy_string(&v[i]));
        i += 1;
    }
    r
}

impl HeaderValue {
    /// Creates a `HeaderValue` holding a single string.
    pub fn new(value: &str) -> (r: Self)
        ensures
            r@ == HeaderValueView::Single(value@),
    {
        HeaderValue::Single(String::from_str(value))
    }

    /// A deep copy with the same view.
    pub fn duplicate(&self) -> (r: Self)
        ensures
            r@ == self@,
    {
        match self {
            HeaderValue::Single(s) => HeaderValue::Single(copy_string(s)),
            HeaderValue::Multiple(v) => HeaderValue::Multiple(copy_strings(v)),
        }
    }

    /// Appends a value; promotes `Single` to `Multiple` on first append.
    pub fn append(&mut self, value: &str)
        ensures
            final(self)@ == old(self)@.added(value@),
    {
        self.add_without_combining(value);
    }

    /// Adds a value without combining it into an existing one.
    /// Use this for headers like `Set-Cookie` where every value stays separate.
    pub fn add_without_combining(&mut self, value: &str)
        ensures
            final(self)@ == old(self)@.added(value@),
    {
        let new_value = String::from_str(value);
        match self {
            HeaderValue::Single(s) => {
                let first = copy_string(s);
                let mut values: Vec<String> = Vec::new();
                values.push(first);
                values.push(new_value);
                assert(values.deep_view() =~= old(self)@.items().push(value@));
                *self = HeaderValue::Multiple(values);
            },
            HeaderValue::Multiple(v) => {
                v.push(new_value);
                assert(v.deep_view() =~= old(self)@.items().push(value@));
            },
        }
    }

    /// Adds an owned value as a separate entry.
    pub fn add_owned(&mut self, value: String)
        ensures
            final(self)@ == old(self)@.added(value@),
    {
        match self {
            HeaderValue::Single(s) => {
                let first = copy_string(s);
                let mut values: Vec<String> = Vec::new();
                values.push(first);
                values.push(value);
                assert(values.deep_view() =~= old(self)@.items().push(value@));
                *self = HeaderValue::Multiple(values);
            },
            HeaderValue::Multiple(v) => {
                v.push(value);
                assert(v.deep_view() =~= old(self)@.items().push(value@));
            },
        }
    }

    /// Renders the value(s) as a single string; multiples are joined with `, `.
    pub fn as_str(&self) -> (r: String)
        ensures
            r@ == self@.joined(),
    {
        match self {
            HeaderValue::Single(s) => copy_string(s),
            HeaderValue::Multiple(v) => {
                let ghost list = v.deep_view();
                let mut out = String::new();
                let mut i: usize = 0;
                while i < v.len()
                    invariant
                        i <= v.len(),
                        list == v.deep_view(),
                        out@ == join(list.take(i as int), ", "@),
                    decreases v.len() - i,
                {
                    proof {
                        assert(list.take(i + 1).drop_last() =~= list.take(i as int));
                    }
                    if i > 0 {
                        out.append(", ");
                    }
                    out.append(v[i].as_str());
                    proof {
                        if i == 0 {
                            assert(out@ =~= list.take(1)[0]);
                        }
                    }
                    i += 1;
                }
                assert(list.take(v.len() as int) =~= list);
                out
            },
        }
    }

    /// Number of stored values (1 for `Single`).
    pub fn len(&self) -> (r: usize)
        ensures
            r == self@.items().len(),
    {
        match self {
            HeaderValue::Single(_) => 1,
            HeaderValue::Multiple(v) => v.len(),
        }
    }

    /// True if there are no values, or every stored value is the empty string.
    pub fn is_empty(&self) -> (r: bool)
        ensures
            r == self@.spec_is_empty(),
    {
        match self {
            HeaderValue::Single(s) => {
                let r = s.as_str().is_empty();
                assert(self@.items()[0] == s@);
                r
            },
            HeaderValue::Multiple(v) => {
                let mut i: usize = 0;
                while i < v.len()
                    invariant
                        i <= v.len(),
                        self@.items() == v.deep_view(),
                        forall|k: int| 0 <= k < i ==> (#[trigger] v@[k]@).len() == 0,
                    decreases v.len() - i,
                {
                    if !v[i].as_str().is_empty() {
                        assert(self@.items()[i as int] == v@[i as int]@);
                        return false;
                    }
                    i += 1;
                }
                proof {
                    assert forall|k: int| 0 <= k < self@.items().len() implies (#[trigger] self@.items()[k]).len() == 0 by {
                        assert(self@.items()[k] == v@[k]@);
                    }
                }
                true
            },
        }
    }

    /// Returns the value at `index`, or `None` if out of range.
    /// A `Single` accepts only index 0.
    pub fn try_get(&self, index: usize) -> (r: Option<&String>)
        ensures
            r is Some <==> index < self@.items().len(),
            r matches Some(s) ==> s@ == self@.items()[index as int],
    {
        match self {
            HeaderValue::Single(s) => {
                if index == 0 {
                    Some(s)
                } else {
                    None
                }
            },
            HeaderValue::Multiple(v) => {
                if index < v.len() {
                    Some(&v[index])
                } else {
                    None
                }
            },
        }
    }

    /// Returns the value at `index`, or an empty string if out of range.
    pub fn get(&self, index: usize) -> (r: String)
        ensures
            r@ == (if index < self@.items().len() { self@.items()[index as int] } else { Seq::empty() }),
    {
        match self.try_get(index) {
            Some(s) => copy_string(s),
            None => String::new(),
        }
    }

    /// Returns the value at `index`, or the caller-supplied default.
    pub fn get_or(&self, index: usize, default: &str) -> (r: String)
        ensures
            r@ == (if index < self@.items().len() { self@.items()[index as int] } else { default@ }),
    {
        match self.try_get(index) {
            Some(s) => copy_string(s),
            None => String::from_str(default),
        }
    }

    /// Returns the first value, or `None` if there are none.
    pub fn try_first(&self) -> (r: Option<&String>)
        ensures
            r is Some <==> self@.items().len() > 0,
            r matches Some(s) ==> s@ == self@.items()[0],
    {
        self.try_get(0)
    }

    /// Returns the first value, or an empty string if there are none.
    pub fn first(&self) -> (r: String)
        ensures
            r@ == (if self@.items().len() > 0 { self@.items()[0] } else { Seq::empty() }),
    {
        self.get(0)
    }

    /// Returns the first value, or the caller-supplied default.
    pub fn first_or(&self, default: &str) -> (r: String)
        ensures
            r@ == (if self@.items().len() > 0 { self@.items()[0] } else { default@ }),
    {
        self.get_or(0, default)
    }

    /// Returns references to every value.
    pub fn values(&self) -> (r: Vec<&String>)
        ensures
            r@.len() == self@.items().len(),
            forall|i: int| 0 <= i < r@.len() ==> (#[trigger] r@[i])@ == self@.items()[i],
    {
        match self {
            HeaderValue::Single(s) => {
                let mut r: Vec<&String> = Vec::new();
                r.push(s);
                r
            },
            HeaderValue::Multiple(v) => {
                let mut r: Vec<&String> = Vec::new();
                let mut i: usize = 0;
                while i < v.len()
                    invariant
                        i <= v.len(),
                        r@.len() == i,
                        forall|k: int| 0 <= k < i ==> (#[trigger] r@[k])@ == v@[k]@,
                    decreases v.len() - i,
                {
                    r.push(&v[i]);
                    i += 1;
                }
                r
            },
        }
    }

    /// Renders as one or more `Name: value\r\n` header lines.
    /// `Multiple` produces one line per value (e.g. `Set-Cookie`).
    pub fn into_header_string(&self, header_name: &str) -> (r: String)
        ensures
            r@ == header_lines(header_name@, self@.items()),
    {
        let items = self.values();
        let ghost list = self@.items();
        let mut out = String::new();
        let mut i: usize = 0;
        while i < items.len()
            invariant
                i <= items.len() == list.len(),
                forall|k: int| 0 <= k < items@.len() ==> (#[trigger] items@[k])@ == list[k],
                out@ == header_lines(header_name@, list.take(i as int)),
            decreases items.len() - i,
        {
            proof {
                assert(list.take(i + 1).drop_last() =~= list.take(i as int));
            }
            out.append(header_name);
            out.append(": ");
            out.append(items[i].as_str());
            out.append("\r\n");
            proof {
                assert(out@ =~= header_lines(header_name@, list.take(i as int)) + header_name@
                    + ": "@ + list.take(i + 1).last() + "\r\n"@);
            }
            i += 1;
        }
        assert(list.take(items.len() as int) =~= list);
        out
    }

    /// The stored strings, in order.
    pub fn into_vec(self) -> (r: Vec<String>)
        ensures
            r.deep_view() == self@.items(),
    {
        match self {
            HeaderValue::Single(s) => {
                let mut r: Vec<String> = Vec::new();
                r.push(s);
                assert(r.deep_view() =~= self@.items());
                r
            },
            HeaderValue::Multiple(v) => v,
        }
    }
}

impl From<String> for HeaderValue {
    fn from(value: String) -> (r: Self) {
        HeaderValue::Single(value)
    }
}

impl vstd::std_specs::convert::FromSpecImpl<String> for HeaderValue {
    open spec fn obeys_from_spec() -> bool {
        true
    }

    open spec fn from_spec(value: String) -> Self {
        HeaderValue::Single(value)
    }
}

} // verus!
