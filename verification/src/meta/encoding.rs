//! The Transfer-Encoding / Content-Encoding cache.
use vstd::prelude::*;
use crate::util::encoding::HttpEncoding;
use crate::meta::{HttpMeta, MetaCaches, header_first};

verus! {

/// The encodings the header block `h` names: the first Transfer-Encoding
/// value and the first Content-Encoding value.
pub open spec fn header_encoding(h: Map<Seq<char>, crate::header::value::HeaderValueView>) -> (Option<Seq<char>>, Option<Seq<char>>) {
    (header_first(h, "transfer-encoding"@), header_first(h, "content-encoding"@))
}

/// `after` is `before` with the encoding cache set to `v`.
pub open spec fn with_encoding(before: HttpMeta, after: HttpMeta, v: Option<(Option<Seq<char>>, Option<Seq<char>>)>) -> bool {
    after.same_message(&before) && after.caches() == (MetaCaches { encoding: v, ..before.caches() })
}

/// `after` is `before` with the encoding cache emptied and both encoding
/// headers removed.
pub open spec fn without_encoding(before: HttpMeta, after: HttpMeta) -> bool {
    &&& after.start_line == before.start_line
    &&& after.header@ == before.header@.remove("transfer-encoding"@).remove("content-encoding"@)
    &&& after.caches() == (MetaCaches { encoding: None, ..before.caches() })
}

/// `r` and `after` are what reading the encodings of `before` gives: the
/// cache when it is set (nothing changes), else the headers, cached.
pub open spec fn got_encoding(before: HttpMeta, after: HttpMeta, r: (Option<Seq<char>>, Option<Seq<char>>)) -> bool {
    match before.caches().encoding {
        Some(c) => r == c && after == before,
        None => r == header_encoding(before.header@) && with_encoding(before, after, Some(r)),
    }
}

impl HttpMeta {
    /// Returns the cached encodings if available, otherwise parses the
    /// headers (see [`parse_encoding`](HttpMeta::parse_encoding)).
    pub fn get_encoding(&mut self) -> (r: Option<HttpEncoding>)
        ensures
            r matches Some(e) && got_encoding(*old(self), *final(self), e@),
    {
        if let Some(enc) = &self.encoding {
            return Some(enc.clone());
        }
        self.parse_encoding()
    }

    /// Reads the Transfer-Encoding and Content-Encoding headers and caches
    /// them; always `Some`.
    pub fn parse_encoding(&mut self) -> (r: Option<HttpEncoding>)
        ensures
            r matches Some(e) && e@ == header_encoding(old(self).header@),
            with_encoding(*old(self), *final(self), Some(header_encoding(old(self).header@))),
    {
        let transfer_header = match self.header.get("transfer-encoding") {
            Some(values) => Some(values.first()),
            None => None,
        };
        let content_header = match self.header.get("content-encoding") {
            Some(values) => Some(values.first()),
            None => None,
        };
        let encoding = HttpEncoding::from_headers(transfer_header, content_header);
        self.encoding = Some(encoding.clone());
        Some(encoding)
    }

    /// Sets (or, with `None`, empties) the cached encodings.
    pub fn set_encoding(&mut self, encoding: Option<HttpEncoding>)
        ensures
            with_encoding(*old(self), *final(self), match encoding {
                Some(e) => Some(e@),
                None => None,
            }),
    {
        self.encoding = encoding;
    }

    /// Clears the cached encodings without modifying the header block.
    pub fn clear_encoding(&mut self)
        ensures
            with_encoding(*old(self), *final(self), None),
    {
        self.encoding = None;
    }

    /// Clears the cached encodings and removes both encoding headers.
    pub fn delete_encoding(&mut self)
        ensures
            without_encoding(*old(self), *final(self)),
    {
        self.encoding = None;
        self.header.remove("transfer-encoding");
        self.header.remove("content-encoding");
    }
}

/// After `set_encoding(Some(e))`, `get_encoding` answers `e` and changes
/// nothing.
pub proof fn law_encoding_set_then_get(m0: HttpMeta, m1: HttpMeta, e: (Option<Seq<char>>, Option<Seq<char>>), m2: HttpMeta, r: (Option<Seq<char>>, Option<Seq<char>>))
    requires
        with_encoding(m0, m1, Some(e)),
        got_encoding(m1, m2, r),
    ensures
        r == e,
        m2 == m1,
{
}

/// After `clear_encoding`, `get_encoding` reads the headers again.
pub proof fn law_encoding_clear_then_get(m0: HttpMeta, m1: HttpMeta, m2: HttpMeta, r: (Option<Seq<char>>, Option<Seq<char>>))
    requires
        with_encoding(m0, m1, None),
        got_encoding(m1, m2, r),
    ensures
        r == header_encoding(m0.header@),
{
}

/// After `delete_encoding`, `get_encoding` finds neither coding.
pub proof fn law_encoding_delete_then_get(m0: HttpMeta, m1: HttpMeta, m2: HttpMeta, r: (Option<Seq<char>>, Option<Seq<char>>))
    requires
        without_encoding(m0, m1),
        got_encoding(m1, m2, r),
    ensures
        r == (None::<Seq<char>>, None::<Seq<char>>),
{
}

} // verus!
