//! The Content-Disposition cache.
use vstd::prelude::*;
use crate::http_value::content::{ContentDisposition, media_part, params_part, valid_disposition};
use crate::meta::{HttpMeta, MetaCaches, header_first};

verus! {

impl HttpMeta {
    /// Returns the cached Content-Disposition if available, otherwise parses
    /// the header (see [`parse_content_disposition`](HttpMeta::parse_content_disposition)).
    pub fn get_content_disposition(&mut self) -> (r: Option<ContentDisposition>)
        ensures
            match old(self).caches().content_disposition {
                Some(c) => r matches Some(d) && d@ == c && *final(self) == *old(self),
                None => final(self).same_message(old(self)) && match header_first(old(self).header@, "content-disposition"@) {
                    Some(s) => if valid_disposition(s) {
                        r matches Some(d) && d@ == (media_part(s), params_part(s))
                            && final(self).caches() == (MetaCaches { content_disposition: Some(d@), ..old(self).caches() })
                    } else {
                        r is None && final(self).caches() == old(self).caches()
                    },
                    None => r is None && final(self).caches() == old(self).caches(),
                },
            },
    {
        if let Some(content_disposition) = &self.content_disposition {
            return Some(content_disposition.clone());
        }
        self.parse_content_disposition()
    }

    /// Parses the first Content-Disposition value and caches it when it is
    /// valid. An absent or invalid header gives `None` and leaves the cache
    /// as it was.
    pub fn parse_content_disposition(&mut self) -> (r: Option<ContentDisposition>)
        ensures
            final(self).same_message(old(self)),
            match header_first(old(self).header@, "content-disposition"@) {
                Some(s) => if valid_disposition(s) {
                    r matches Some(d) && d@ == (media_part(s), params_part(s))
                        && final(self).caches() == (MetaCaches { content_disposition: Some(d@), ..old(self).caches() })
                } else {
                    r is None && final(self).caches() == old(self).caches()
                },
                None => r is None && final(self).caches() == old(self).caches(),
            },
    {
        let content_disposition = match self.header.get("content-disposition") {
            Some(s) => match ContentDisposition::parse(s.first().as_str()) {
                Ok(d) => Some(d),
                Err(_) => None,
            },
            None => None,
        };
        if let Some(cd) = &content_disposition {
            self.content_disposition = Some(cd.clone());
        }
        content_disposition
    }

    /// Sets the cached Content-Disposition.
    pub fn set_content_disposition(&mut self, content_disposition: ContentDisposition)
        ensures
            final(self).same_message(old(self)),
            final(self).caches() == (MetaCaches { content_disposition: Some(content_disposition@), ..old(self).caches() }),
    {
        self.content_disposition = Some(content_disposition);
    }

    /// Clears the cached Content-Disposition without modifying the header block.
    pub fn clear_content_disposition(&mut self)
        ensures
            final(self).same_message(old(self)),
            final(self).caches() == (MetaCaches { content_disposition: None, ..old(self).caches() }),
    {
        self.content_disposition = None;
    }

    /// Clears the cached Content-Disposition and removes the header.
    pub fn delete_content_disposition(&mut self)
        ensures
            final(self).start_line == old(self).start_line,
            final(self).header@ == old(self).header@.remove("content-disposition"@),
            final(self).caches() == (MetaCaches { content_disposition: None, ..old(self).caches() }),
    {
        self.content_disposition = None;
        self.header.remove("content-disposition");
    }
}

} // verus!
