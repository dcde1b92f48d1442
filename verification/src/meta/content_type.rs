//! The Content-Type cache.
use vstd::prelude::*;
use crate::http_value::content::{HttpContentType, media_part, params_part};
use crate::meta::{HttpMeta, MetaCaches, header_first};

verus! {

/// `after` is `before` with the content-type cache set to `v`.
pub open spec fn with_content_type(before: HttpMeta, after: HttpMeta, v: Option<(Seq<char>, Seq<char>)>) -> bool {
    after.same_message(&before) && after.caches() == (MetaCaches { content_type: v, ..before.caches() })
}

/// `after` is `before` with the content-type cache emptied and the header
/// removed.
pub open spec fn without_content_type(before: HttpMeta, after: HttpMeta) -> bool {
    &&& after.start_line == before.start_line
    &&& after.header@ == before.header@.remove("content-type"@)
    &&& after.caches() == (MetaCaches { content_type: None, ..before.caches() })
}

/// `r` and `after` are what parsing the Content-Type header of `before`
/// gives: the first value read as a content type and cached; without the
/// header, `None` and nothing changes.
pub open spec fn parsed_content_type(before: HttpMeta, after: HttpMeta, r: Option<HttpContentType>) -> bool {
    match header_first(before.header@, "content-type"@) {
        Some(s) => r matches Some(t) && t@ == (media_part(s), params_part(s))
            && with_content_type(before, after, Some(t@)),
        None => r is None && with_content_type(before, after, before.caches().content_type),
    }
}

/// `r` and `after` are what reading the content type of `before` gives: the
/// cache when it is set (nothing changes), else the parsed header.
pub open spec fn got_content_type(before: HttpMeta, after: HttpMeta, r: Option<HttpContentType>) -> bool {
    match before.caches().content_type {
        Some(c) => r matches Some(t) && t@ == c && after == before,
        None => parsed_content_type(before, after, r),
    }
}

impl HttpMeta {
    /// Returns the cached content type if available, otherwise parses the
    /// Content-Type header (see [`parse_content_type`](HttpMeta::parse_content_type)).
    pub fn get_content_type(&mut self) -> (r: Option<HttpContentType>)
        ensures
            got_content_type(*old(self), *final(self), r),
    {
        if let Some(content_type) = &self.content_type {
            return Some(content_type.clone());
        }
        self.parse_content_type()
    }

    /// Parses the first Content-Type value and caches it. Without the header
    /// the answer is `None` and the cache is left as it was.
    pub fn parse_content_type(&mut self) -> (r: Option<HttpContentType>)
        ensures
            parsed_content_type(*old(self), *final(self), r),
    {
        let content_type_str = match self.header.get("content-type") {
            Some(value) => value.first(),
            None => return None,
        };
        let content_type = HttpContentType::from_str(content_type_str.as_str());
        self.set_content_type(content_type.clone());
        Some(content_type)
    }

    /// Sets the cached content type.
    pub fn set_content_type(&mut self, content_type: HttpContentType)
        ensures
            with_content_type(*old(self), *final(self), Some(content_type@)),
    {
        self.content_type = Some(content_type);
    }

    /// Clears the cached content type without modifying the header block.
    pub fn clear_content_type(&mut self)
        ensures
            with_content_type(*old(self), *final(self), None),
    {
        self.content_type = None;
    }

    /// Clears the cached content type and removes the Content-Type header.
    pub fn delete_content_type(&mut self)
        ensures
            without_content_type(*old(self), *final(self)),
    {
        self.content_type = None;
        self.header.remove("content-type");
    }
}

/// After `set_content_type(t)`, `get_content_type` answers `t` and changes
/// nothing.
pub proof fn law_content_type_set_then_get(m0: HttpMeta, m1: HttpMeta, t: (Seq<char>, Seq<char>), m2: HttpMeta, r: Option<HttpContentType>)
    requires
        with_content_type(m0, m1, Some(t)),
        got_content_type(m1, m2, r),
    ensures
        r matches Some(c) && c@ == t,
        m2 == m1,
{
}

/// After `clear_content_type`, `get_content_type` reads the header again:
/// it answers what parsing the header block before the clear gives.
pub proof fn law_content_type_clear_then_get(m0: HttpMeta, m1: HttpMeta, m2: HttpMeta, r: Option<HttpContentType>)
    requires
        with_content_type(m0, m1, None),
        got_content_type(m1, m2, r),
    ensures
        match header_first(m0.header@, "content-type"@) {
            Some(s) => r matches Some(t) && t@ == (media_part(s), params_part(s)),
            None => r is None,
        },
{
}

/// After `delete_content_type`, `get_content_type` answers `None`.
pub proof fn law_content_type_delete_then_get(m0: HttpMeta, m1: HttpMeta, m2: HttpMeta, r: Option<HttpContentType>)
    requires
        without_content_type(m0, m1),
        got_content_type(m1, m2, r),
    ensures
        r is None,
{
}

} // verus!
