//! The Connection cache.
use vstd::prelude::*;
use crate::meta::{HttpMeta, MetaCaches};
use crate::util::connection::{ConnectionError, ConnectionOptions, all_tokens, connection_values, spec_keep_alive, tokens_of};

verus! {

/// The Connection options of the header block `h`, when every option is a
/// token.
pub open spec fn header_connection(h: Map<Seq<char>, crate::header::value::HeaderValueView>) -> Option<Seq<Seq<char>>> {
    if all_tokens(tokens_of(connection_values(h))) {
        Some(tokens_of(connection_values(h)))
    } else {
        None
    }
}

/// The Connection options of `m`: its cache, else its headers.
pub open spec fn meta_connection(m: HttpMeta) -> Option<Seq<Seq<char>>> {
    match m.caches().connection {
        Some(c) => Some(c),
        None => header_connection(m.header@),
    }
}

/// `after` is `before` with the Connection cache emptied and the Connection
/// header removed.
pub open spec fn without_connection(before: HttpMeta, after: HttpMeta) -> bool {
    &&& after.start_line == before.start_line
    &&& after.header@ == before.header@.remove("connection"@)
    &&& after.caches() == (MetaCaches { connection: None, ..before.caches() })
}

impl HttpMeta {
    /// Returns the cached Connection options, or reads the current header
    /// values (without caching them).
    pub fn get_connection(&self) -> (r: Result<ConnectionOptions, ConnectionError>)
        ensures
            match meta_connection(*self) {
                Some(t) => r matches Ok(c) && c@ == t,
                None => r == Err::<ConnectionOptions, ConnectionError>(ConnectionError::InvalidToken),
            },
    {
        match &self.connection {
            Some(connection) => Ok(connection.clone()),
            None => ConnectionOptions::from_headers(&self.header),
        }
    }

    /// Whether this HTTP/1 message lets the connection stay open. Malformed
    /// Connection values fail closed; otherwise the options and the start
    /// line's version decide.
    pub fn is_keep_alive(&self) -> (r: bool)
        ensures
            r == match meta_connection(*self) {
                Some(t) => spec_keep_alive(t, self.start_line.spec_version()),
                None => false,
            },
    {
        let connection = match self.get_connection() {
            Ok(c) => c,
            Err(_) => return false,
        };
        connection.is_keep_alive(self.start_line.http_version())
    }

    /// Reads the current Connection header values and caches them.
    pub fn parse_connection(&mut self) -> (r: Result<ConnectionOptions, ConnectionError>)
        ensures
            final(self).same_message(old(self)),
            match header_connection(old(self).header@) {
                Some(t) => r matches Ok(c) && c@ == t
                    && final(self).caches() == (MetaCaches { connection: Some(t), ..old(self).caches() }),
                None => r == Err::<ConnectionOptions, ConnectionError>(ConnectionError::InvalidToken)
                    && final(self).caches() == old(self).caches(),
            },
    {
        let connection = match ConnectionOptions::from_headers(&self.header) {
            Ok(c) => c,
            Err(e) => return Err(e),
        };
        self.connection = Some(connection.clone());
        Ok(connection)
    }

    /// Replaces the typed Connection cache.
    pub fn set_connection(&mut self, connection: Option<ConnectionOptions>)
        ensures
            final(self).same_message(old(self)),
            final(self).caches() == (MetaCaches {
                connection: match connection {
                    Some(c) => Some(c@),
                    None => None,
                },
                ..old(self).caches()
            }),
    {
        self.connection = connection;
    }

    /// Clears the typed cache without removing the raw Connection header.
    pub fn clear_connection(&mut self)
        ensures
            final(self).same_message(old(self)),
            final(self).caches() == (MetaCaches { connection: None, ..old(self).caches() }),
    {
        self.connection = None;
    }

    /// Removes both the typed cache and the raw Connection header.
    pub fn delete_connection(&mut self)
        ensures
            without_connection(*old(self), *final(self)),
    {
        self.connection = None;
        self.header.remove("connection");
    }
}

/// After `set_connection(Some(c))`, `get_connection` answers `c`.
pub proof fn law_connection_set_then_get(m: HttpMeta, c: Seq<Seq<char>>)
    requires
        m.caches().connection == Some(c),
    ensures
        meta_connection(m) == Some(c),
{
}

/// After `delete_connection`, `get_connection` answers no options, so the
/// version alone decides whether the connection stays open.
pub proof fn law_connection_delete_then_get(m0: HttpMeta, m1: HttpMeta)
    requires
        without_connection(m0, m1),
    ensures
        meta_connection(m1) == Some(Seq::<Seq<char>>::empty()),
{
    assert(!m1.header@.contains_key("connection"@));
    assert(connection_values(m1.header@) =~= Seq::<Seq<char>>::empty());
    assert(tokens_of(Seq::<Seq<char>>::empty()) =~= Seq::<Seq<char>>::empty());
}

} // verus!
