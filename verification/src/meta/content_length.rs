//! The Content-Length cache.
use vstd::prelude::*;
use vstd::string::StringExecFns;
use crate::header::error::{HeaderError, is_invalid_value, is_multiple_values, is_overflow};
use crate::header::value::HeaderValueView;
use crate::meta::{HttpMeta, MetaCaches};
use crate::meta::error::MetaError;
use crate::text::{all_digits, chars_of, decimal_digits, digits_value, is_digit, lemma_decimal_digits_value, parse_unsigned, spec_parse_unsigned};

verus! {

/// What the Content-Length header of a header block says.
pub enum LengthField {
    /// No Content-Length header.
    Absent,
    /// One value, a decimal number that fits in `u64`.
    Value(u64),
    /// The header was stored as several values.
    Multiple,
    /// The value is empty or holds a character that is not a decimal digit.
    Invalid,
    /// The value is all digits but does not fit in `u64`.
    Overflow,
}

/// The Content-Length field of the header block `h`.
pub open spec fn content_length_field(h: Map<Seq<char>, HeaderValueView>) -> LengthField {
    let k = "content-length"@;
    if !h.contains_key(k) {
        LengthField::Absent
    } else {
        match h[k] {
            HeaderValueView::Multiple(_) => LengthField::Multiple,
            HeaderValueView::Single(s) => if s.len() == 0 || !all_digits(s) {
                LengthField::Invalid
            } else if digits_value(s) <= u64::MAX {
                LengthField::Value(digits_value(s) as u64)
            } else {
                LengthField::Overflow
            },
        }
    }
}

/// `e` is the error a read of the field `f` gives (none for a readable field).
pub open spec fn length_error(f: LengthField, e: MetaError) -> bool {
    match f {
        LengthField::Multiple => e matches MetaError::Header(h) && is_multiple_values(h, "content-length"@),
        LengthField::Invalid => e matches MetaError::Header(h) && is_invalid_value(h, "content-length"@),
        LengthField::Overflow => e matches MetaError::Header(h) && is_overflow(h, "content-length"@),
        _ => false,
    }
}

/// `r` is the answer a read of the field `f` gives.
pub open spec fn length_answer(f: LengthField, r: Result<Option<u64>, MetaError>) -> bool {
    match f {
        LengthField::Absent => r == Ok::<Option<u64>, MetaError>(None),
        LengthField::Value(n) => r == Ok::<Option<u64>, MetaError>(Some(n)),
        _ => r matches Err(e) && length_error(f, e),
    }
}

/// `r` is the answer a read of the field `f` gives when absence counts as 0.
pub open spec fn request_length_answer(f: LengthField, r: Result<u64, MetaError>) -> bool {
    match f {
        LengthField::Absent => r == Ok::<u64, MetaError>(0),
        LengthField::Value(n) => r == Ok::<u64, MetaError>(n),
        _ => r matches Err(e) && length_error(f, e),
    }
}

/// `after` is `before` with the Content-Length cache set to `v`.
pub open spec fn with_content_length(before: HttpMeta, after: HttpMeta, v: Option<u64>) -> bool {
    after.same_message(&before) && after.caches() == (MetaCaches { content_length: v, ..before.caches() })
}

/// `after` is `before` with the Content-Length cache emptied and the header
/// removed.
pub open spec fn without_content_length(before: HttpMeta, after: HttpMeta) -> bool {
    &&& after.start_line == before.start_line
    &&& after.header@ == before.header@.remove("content-length"@)
    &&& after.caches() == (MetaCaches { content_length: None, ..before.caches() })
}

/// `r` and `after` are what parsing the Content-Length header of `before`
/// gives: the header's answer, cached when it reads.
pub open spec fn parsed_content_length(before: HttpMeta, after: HttpMeta, r: Result<Option<u64>, MetaError>) -> bool {
    &&& length_answer(content_length_field(before.header@), r)
    &&& with_content_length(before, after, match r {
        Ok(v) => v,
        Err(_) => before.caches().content_length,
    })
}

/// `r` and `after` are what reading the Content-Length of `before` gives:
/// the cache when it is set (nothing changes), else the parsed header.
pub open spec fn got_content_length(before: HttpMeta, after: HttpMeta, r: Result<Option<u64>, MetaError>) -> bool {
    match before.caches().content_length {
        Some(n) => r == Ok::<Option<u64>, MetaError>(Some(n)) && after == before,
        None => parsed_content_length(before, after, r),
    }
}

/// The number a Content-Length value holds: digits only, at least one, and
/// no larger than `u64::MAX`.
fn content_length_value(value: &str) -> (r: Result<u64, HeaderError>)
    ensures
        value@.len() == 0 || !all_digits(value@) ==> (r matches Err(e) && is_invalid_value(e, "content-length"@)),
        value@.len() > 0 && all_digits(value@) && digits_value(value@) <= u64::MAX ==> r == Ok::<u64, HeaderError>(digits_value(value@) as u64),
        value@.len() > 0 && all_digits(value@) && digits_value(value@) > u64::MAX ==> (r matches Err(e) && is_overflow(e, "content-length"@)),
{
    let cs = chars_of(value);
    if cs.len() == 0 {
        return Err(HeaderError::InvalidHeaderValue(String::from_str("content-length")));
    }
    let mut i: usize = 0;
    while i < cs.len()
        invariant
            i <= cs@.len(),
            cs@ == value@,
            forall|k: int| 0 <= k < i ==> is_digit(#[trigger] cs@[k]),
        decreases cs.len() - i,
    {
        if !('0' <= cs[i] && cs[i] <= '9') {
            assert(!is_digit(value@[i as int]));
            return Err(HeaderError::InvalidHeaderValue(String::from_str("content-length")));
        }
        i += 1;
    }
    assert(all_digits(value@));
    assert(spec_parse_unsigned(value@) == Some(digits_value(value@)));
    match parse_unsigned(value, u64::MAX) {
        Some(n) => Ok(n),
        None => Err(HeaderError::HeaderValueOverflow(String::from_str("content-length"))),
    }
}

impl HttpMeta {
    /// Returns the cached Content-Length if set, otherwise parses it from the
    /// header block (see [`parse_content_length`](HttpMeta::parse_content_length)).
    pub fn get_content_length(&mut self) -> (r: Result<Option<u64>, MetaError>)
        ensures
            got_content_length(*old(self), *final(self), r),
    {
        if let Some(length) = self.content_length {
            return Ok(Some(length));
        }
        self.parse_content_length()
    }

    /// Parses the `Content-Length` header and caches the result.
    ///
    /// Absent is `Ok(None)`; several values give `MultipleValues`; a value
    /// that is empty or not all digits gives `InvalidHeaderValue`; one too
    /// large for `u64` gives `HeaderValueOverflow`.
    pub fn parse_content_length(&mut self) -> (r: Result<Option<u64>, MetaError>)
        ensures
            parsed_content_length(*old(self), *final(self), r),
    {
        let length = match self.header.get_only("content-length") {
            Err(e) => return Err(MetaError::Header(e)),
            Ok(None) => None,
            Ok(Some(value)) => match content_length_value(value) {
                Ok(n) => Some(n),
                Err(e) => return Err(MetaError::Header(e)),
            },
        };
        self.content_length = length;
        Ok(length)
    }

    /// Returns the request's declared Content-Length in bytes; an absent
    /// Content-Length counts as 0 (a request without framing headers has an
    /// empty body).
    pub fn get_content_length_request(&mut self) -> (r: Result<u64, MetaError>)
        ensures
            match old(self).caches().content_length {
                Some(n) => r == Ok::<u64, MetaError>(n) && *final(self) == *old(self),
                None => request_length_answer(content_length_field(old(self).header@), r)
                    && final(self).same_message(old(self)),
            },
    {
        match self.get_content_length() {
            Ok(v) => Ok(match v {
                Some(n) => n,
                None => 0,
            }),
            Err(e) => Err(e),
        }
    }

    /// Sets the cached Content-Length.
    pub fn set_content_length(&mut self, length: usize)
        ensures
            with_content_length(*old(self), *final(self), Some(length as u64)),
    {
        self.content_length = Some(length as u64);
    }

    /// Clears the cached Content-Length without removing the header.
    pub fn clear_content_length(&mut self)
        ensures
            with_content_length(*old(self), *final(self), None),
    {
        self.content_length = None;
    }

    /// Deletes both the cached Content-Length and the header entry.
    pub fn delete_content_length(&mut self)
        ensures
            without_content_length(*old(self), *final(self)),
    {
        self.content_length = None;
        self.header.remove("content-length");
    }
}

/// After `set_content_length(n)`, `get_content_length` answers `Ok(Some(n))`
/// and changes nothing.
pub proof fn law_content_length_set_then_get(m0: HttpMeta, m1: HttpMeta, n: usize, m2: HttpMeta, r: Result<Option<u64>, MetaError>)
    requires
        with_content_length(m0, m1, Some(n as u64)),
        got_content_length(m1, m2, r),
    ensures
        r == Ok::<Option<u64>, MetaError>(Some(n as u64)),
        m2 == m1,
{
}

/// After `clear_content_length`, `get_content_length` answers what the
/// Content-Length header of the metadata before the clear says.
pub proof fn law_content_length_clear_then_get(m0: HttpMeta, m1: HttpMeta, m2: HttpMeta, r: Result<Option<u64>, MetaError>)
    requires
        with_content_length(m0, m1, None),
        got_content_length(m1, m2, r),
    ensures
        length_answer(content_length_field(m0.header@), r),
{
}

/// After `delete_content_length`, `get_content_length` answers `Ok(None)`.
pub proof fn law_content_length_delete_then_get(m0: HttpMeta, m1: HttpMeta, m2: HttpMeta, r: Result<Option<u64>, MetaError>)
    requires
        without_content_length(m0, m1),
        got_content_length(m1, m2, r),
    ensures
        r == Ok::<Option<u64>, MetaError>(None),
{
}

/// A Content-Length header holding the decimal text of `n` reads back as `n`,
/// as the line `represent` writes for a cached length does.
pub proof fn law_content_length_text_reads_back(h: Map<Seq<char>, HeaderValueView>, n: u64)
    requires
        h.contains_key("content-length"@),
        h["content-length"@] == HeaderValueView::Single(decimal_digits(n as nat)),
    ensures
        content_length_field(h) == LengthField::Value(n),
{
    lemma_decimal_digits_value(n as nat);
}

} // verus!
