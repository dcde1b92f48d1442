//! The Location cache.
use vstd::prelude::*;
use crate::meta::{HttpMeta, MetaCaches, header_first};
use crate::util::encoding::opt_view;
use crate::header::value::copy_string;

verus! {

/// `after` is `before` with the location cache set to `v`.
pub open spec fn with_location(before: HttpMeta, after: HttpMeta, v: Option<Seq<char>>) -> bool {
    after.same_message(&before) && after.caches() == (MetaCaches { location: v, ..before.caches() })
}

/// `after` is `before` with the location cache emptied and the Location
/// header removed.
pub open spec fn without_location(before: HttpMeta, after: HttpMeta) -> bool {
    &&& after.start_line == before.start_line
    &&& after.header@ == before.header@.remove("location"@)
    &&& after.caches() == (MetaCaches { location: None, ..before.caches() })
}

/// `r` and `after` are what reading the location of `before` gives: the
/// cache when it is set (nothing changes), else the first Location value,
/// cached.
pub open spec fn got_location(before: HttpMeta, after: HttpMeta, r: Option<Seq<char>>) -> bool {
    match before.caches().location {
        Some(c) => r == Some(c) && after == before,
        None => r == header_first(before.header@, "location"@) && with_location(before, after, r),
    }
}

impl HttpMeta {
    /// Returns the cached location if available, otherwise parses the
    /// Location header (see [`parse_location`](HttpMeta::parse_location)).
    pub fn get_location(&mut self) -> (r: Option<String>)
        ensures
            got_location(*old(self), *final(self), opt_view(r)),
    {
        if let Some(loc) = &self.location {
            return Some(copy_string(loc));
        }
        self.parse_location()
    }

    /// Reads the first Location value and caches it (an absent header caches
    /// `None`).
    pub fn parse_location(&mut self) -> (r: Option<String>)
        ensures
            opt_view(r) == header_first(old(self).header@, "location"@),
            with_location(*old(self), *final(self), opt_view(r)),
    {
        let location = match self.header.get("location") {
            Some(value) => Some(value.first()),
            None => None,
        };
        let cached = match &location {
            Some(l) => Some(copy_string(l)),
            None => None,
        };
        self.set_location(cached);
        location
    }

    /// Sets (or, with `None`, empties) the cached location.
    pub fn set_location(&mut self, location: Option<String>)
        ensures
            with_location(*old(self), *final(self), opt_view(location)),
    {
        self.location = location;
    }

    /// Clears the cached location without modifying the header block.
    pub fn clear_location(&mut self)
        ensures
            with_location(*old(self), *final(self), None),
    {
        self.location = None;
    }

    /// Clears the cached location and removes the Location header.
    pub fn delete_location(&mut self)
        ensures
            without_location(*old(self), *final(self)),
    {
        self.location = None;
        self.header.remove("location");
    }
}

/// After `set_location(Some(l))`, `get_location` answers `l` and changes
/// nothing.
pub proof fn law_location_set_then_get(m0: HttpMeta, m1: HttpMeta, l: Seq<char>, m2: HttpMeta, r: Option<Seq<char>>)
    requires
        with_location(m0, m1, Some(l)),
        got_location(m1, m2, r),
    ensures
        r == Some(l),
        m2 == m1,
{
}

/// After `clear_location`, `get_location` reads the Location header again.
pub proof fn law_location_clear_then_get(m0: HttpMeta, m1: HttpMeta, m2: HttpMeta, r: Option<Seq<char>>)
    requires
        with_location(m0, m1, None),
        got_location(m1, m2, r),
    ensures
        r == header_first(m0.header@, "location"@),
{
}

/// After `delete_location`, `get_location` answers `None`.
pub proof fn law_location_delete_then_get(m0: HttpMeta, m1: HttpMeta, m2: HttpMeta, r: Option<Seq<char>>)
    requires
        without_location(m0, m1),
        got_location(m1, m2, r),
    ensures
        r is None,
{
}

} // verus!
