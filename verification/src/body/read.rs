//! The decisions of reading a body off the wire: which framing delimits it,
//! what a chunk-size line says, and whether a chunk ends correctly. The
//! reads are the caller's.
use vstd::prelude::*;
use crate::body::body::{BodyLimits, HttpBody, body_size_ok};
use crate::body::error::{BodyError, ChunkingError, HttpError};
use crate::meta::HttpMeta;
use crate::meta::content_length::{LengthField, content_length_field, length_error};
use crate::meta::encoding::header_encoding;
use crate::meta::error::MetaError;
use crate::text::{before_first, chars_of, is_whitespace, spec_is_whitespace, split_once_char, string_from_chars};
use crate::transfer::{TransferOutcome, TransferTermination};
use crate::util::encoding::codings_of;

verus! {

/// How a body is delimited on the wire.
#[derive(Debug, Clone, Copy, PartialEq, Eq, Structural)]
pub enum BodyFraming {
    /// A sequence of chunks, each led by its size.
    Chunked,
    /// Exactly this many bytes.
    Length(usize),
}

/// The Content-Length read from the metadata: its cache, else the header
/// (`Err` for a header that does not read).
pub open spec fn framing_length(m: HttpMeta) -> Result<Option<u64>, ()> {
    match m.caches().content_length {
        Some(n) => Ok(Some(n)),
        None => match content_length_field(m.header@) {
            LengthField::Absent => Ok(None),
            LengthField::Value(n) => Ok(Some(n)),
            _ => Err(()),
        },
    }
}

/// The transfer codings the metadata declares: its cache, else the header.
pub open spec fn framing_codings(m: HttpMeta) -> Seq<Seq<char>> {
    match m.caches().encoding {
        Some(e) => codings_of(e.0),
        None => codings_of(header_encoding(m.header@).0),
    }
}

impl HttpBody {
    /// Chooses how the body of a message is delimited. An unreadable
    /// Content-Length is an error of the metadata; Content-Length together
    /// with Transfer-Encoding is conflicting framing; a last transfer coding
    /// `chunked` means chunks; otherwise the Content-Length (0 when absent)
    /// counts the bytes, and a length over the body limit is refused before
    /// anything is read.
    pub fn body_framing(meta: &mut HttpMeta, limits: &BodyLimits) -> (r: Result<BodyFraming, HttpError>)
        ensures
            final(meta).start_line == old(meta).start_line,
            final(meta).header == old(meta).header,
            match framing_length(*old(meta)) {
                Err(_) => r matches Err(HttpError::Meta(e)) && length_error(content_length_field(old(meta).header@), e),
                Ok(n) => if n is Some && old(meta).header@.contains_key("transfer-encoding"@) {
                    r == Err::<BodyFraming, HttpError>(HttpError::Meta(MetaError::ConflictingFraming))
                } else if framing_codings(*old(meta)).len() > 0 && framing_codings(*old(meta)).last() == "chunked"@ {
                    r == Ok::<BodyFraming, HttpError>(BodyFraming::Chunked)
                } else {
                    let len: int = match n {
                        Some(k) => k as int,
                        None => 0,
                    };
                    if len <= usize::MAX && body_size_ok(limits.max_body_size, len) {
                        r == Ok::<BodyFraming, HttpError>(BodyFraming::Length(len as usize))
                    } else {
                        r == Err::<BodyFraming, HttpError>(HttpError::Body(BodyError::TooLarge))
                    }
                },
            },
    {
        let content_length = match meta.get_content_length() {
            Ok(n) => n,
            Err(e) => return Err(HttpError::Meta(e)),
        };
        if content_length.is_some() && meta.header.contains_key("transfer-encoding") {
            return Err(HttpError::Meta(MetaError::ConflictingFraming));
        }
        let chunked = match meta.get_encoding() {
            Some(e) => e.is_chunked(),
            None => false,
        };
        if chunked {
            return Ok(BodyFraming::Chunked);
        }
        let length: u64 = match content_length {
            Some(n) => n,
            None => 0,
        };
        if length > usize::MAX as u64 {
            return Err(HttpError::Body(BodyError::TooLarge));
        }
        let length = length as usize;
        if !limits.check_body_size(length) {
            return Err(HttpError::Body(BodyError::TooLarge));
        }
        Ok(BodyFraming::Length(length))
    }
}

/// The value of a hex digit.
pub open spec fn hex_digit(c: char) -> int {
    if '0' <= c && c <= '9' {
        (c as u32 - '0' as u32) as int
    } else if 'a' <= c && c <= 'f' {
        (c as u32 - 'a' as u32) as int + 10
    } else {
        (c as u32 - 'A' as u32) as int + 10
    }
}

pub open spec fn is_hex(c: char) -> bool {
    ('0' <= c && c <= '9') || ('a' <= c && c <= 'f') || ('A' <= c && c <= 'F')
}

/// The value of a run of hex digits.
pub open spec fn hex_value(s: Seq<char>) -> nat
    decreases s.len(),
{
    if s.len() == 0 {
        0
    } else {
        (hex_value(s.drop_last()) * 16 + hex_digit(s.last())) as nat
    }
}

/// The number `usize::from_str_radix(s, 16)` reads: an optional `+`, then
/// at least one hex digit.
pub open spec fn spec_parse_hex(s: Seq<char>) -> Option<nat> {
    let d = if s.len() > 0 && s[0] == '+' { s.drop_first() } else { s };
    if d.len() > 0 && all_hex(d) {
        Some(hex_value(d))
    } else {
        None
    }
}

/// Every character of `s` is a hex digit.
pub open spec fn all_hex(s: Seq<char>) -> bool {
    forall|k: int| 0 <= k < s.len() ==> #[trigger] is_hex(s[k])
}

/// `s` without its trailing `\r` and `\n` characters.
pub open spec fn strip_crlf_end(s: Seq<char>) -> Seq<char>
    decreases s.len(),
{
    if s.len() > 0 && (s.last() == '\r' || s.last() == '\n') {
        strip_crlf_end(s.drop_last())
    } else {
        s
    }
}

/// `s` without its trailing white space.
pub open spec fn strip_ws_end(s: Seq<char>) -> Seq<char>
    decreases s.len(),
{
    if s.len() > 0 && spec_is_whitespace(s.last()) {
        strip_ws_end(s.drop_last())
    } else {
        s
    }
}

/// The size field of a chunk-size line: the line without its line break,
/// before any chunk extension (`;...`), without trailing white space.
pub open spec fn chunk_size_field(line: Seq<char>) -> Seq<char> {
    strip_ws_end(before_first(strip_crlf_end(line), ';'))
}

proof fn lemma_strip_crlf_take(s: Seq<char>, n: int)
    requires
        0 <= n <= s.len(),
        forall|k: int| n <= k < s.len() ==> s[k] == '\r' || s[k] == '\n',
        n == 0 || (s[n - 1] != '\r' && s[n - 1] != '\n'),
    ensures
        strip_crlf_end(s) == s.take(n),
    decreases s.len(),
{
    if s.len() > n {
        lemma_strip_crlf_take(s.drop_last(), n);
        assert(s.drop_last().take(n) =~= s.take(n));
    } else {
        assert(s.take(n) =~= s);
    }
}

proof fn lemma_strip_ws_take(s: Seq<char>, n: int)
    requires
        0 <= n <= s.len(),
        forall|k: int| n <= k < s.len() ==> spec_is_whitespace(s[k]),
        n == 0 || !spec_is_whitespace(s[n - 1]),
    ensures
        strip_ws_end(s) == s.take(n),
    decreases s.len(),
{
    if s.len() > n {
        lemma_strip_ws_take(s.drop_last(), n);
        assert(s.drop_last().take(n) =~= s.take(n));
    } else {
        assert(s.take(n) =~= s);
    }
}

/// Reads `cs` as a hex number no larger than `usize::MAX`.
fn parse_hex(cs: &Vec<char>) -> (r: Option<usize>)
    ensures
        match spec_parse_hex(cs@) {
            Some(v) => if v <= usize::MAX { r == Some(v as usize) } else { r is None },
            None => r is None,
        },
{
    let mut start: usize = 0;
    if cs.len() > 0 && cs[0] == '+' {
        start = 1;
    }
    let ghost d = if cs@.len() > 0 && cs@[0] == '+' { cs@.drop_first() } else { cs@ };
    assert(d =~= cs@.skip(start as int));
    if start == cs.len() {
        return None;
    }
    let mut v: usize = 0;
    let mut over = false;
    let mut i = start;
    while i < cs.len()
        invariant
            start <= i <= cs@.len(),
            start < cs@.len(),
            start == (if cs@.len() > 0 && cs@[0] == '+' { 1usize } else { 0usize }),
            d == (if cs@.len() > 0 && cs@[0] == '+' { cs@.drop_first() } else { cs@ }),
            d == cs@.skip(start as int),
            forall|k: int| start <= k < i ==> #[trigger] is_hex(cs@[k]),
            !over ==> v == hex_value(cs@.subrange(start as int, i as int)),
            over ==> hex_value(cs@.subrange(start as int, i as int)) > usize::MAX,
        decreases cs.len() - i,
    {
        let c = cs[i];
        let ghost pre = cs@.subrange(start as int, i as int);
        let ghost nxt = cs@.subrange(start as int, i + 1);
        assert(nxt.drop_last() =~= pre);
        let digit: usize = if '0' <= c && c <= '9' {
            (c as u32 - '0' as u32) as usize
        } else if 'a' <= c && c <= 'f' {
            (c as u32 - 'a' as u32 + 10) as usize
        } else if 'A' <= c && c <= 'F' {
            (c as u32 - 'A' as u32 + 10) as usize
        } else {
            assert(d[i - start] == c);
            assert(!is_hex(d[i - start]));
            assert(!all_hex(d));
            return None;
        };
        assert(hex_value(nxt) == hex_value(pre) * 16 + digit);
        if !over {
            if v > usize::MAX / 16 {
                over = true;
                assert(hex_value(nxt) > usize::MAX) by (nonlinear_arith)
                    requires
                        hex_value(nxt) == v * 16 + digit,
                        v > usize::MAX / 16,
                {
                }
            } else {
                assert(v * 16 <= usize::MAX) by (nonlinear_arith)
                    requires
                        v <= usize::MAX / 16,
                {
                }
                let t = v * 16;
                if digit > usize::MAX - t {
                    over = true;
                } else {
                    v = t + digit;
                }
            }
        } else {
            assert(hex_value(nxt) > usize::MAX) by (nonlinear_arith)
                requires
                    hex_value(nxt) == hex_value(pre) * 16 + digit,
                    hex_value(pre) > usize::MAX,
            {
            }
        }
        i += 1;
    }
    assert(cs@.subrange(start as int, cs@.len() as int) =~= d);
    assert(all_hex(d)) by {
        assert forall|k: int| 0 <= k < d.len() implies #[trigger] is_hex(d[k]) by {
            assert(d[k] == cs@[k + start]);
        }
    }
    if over {
        None
    } else {
        Some(v)
    }
}

/// Reads a chunk-size line: a line read stopped by its cap is too long;
/// otherwise the size field (before any `;` extension, without the line
/// break and trailing white space) must be a hex number that fits in
/// `usize`.
pub fn chunk_size(line: &str, outcome: TransferOutcome) -> (r: Result<usize, BodyError>)
    ensures
        outcome.termination == TransferTermination::CapReached ==> r == Err::<usize, BodyError>(BodyError::Chunking(ChunkingError::LineTooLong)),
        outcome.termination != TransferTermination::CapReached ==> match spec_parse_hex(chunk_size_field(line@)) {
            Some(v) => if v <= usize::MAX {
                r == Ok::<usize, BodyError>(v as usize)
            } else {
                r == Err::<usize, BodyError>(BodyError::Chunking(ChunkingError::InvalidSize))
            },
            None => r == Err::<usize, BodyError>(BodyError::Chunking(ChunkingError::InvalidSize)),
        },
{
    if outcome.termination == TransferTermination::CapReached {
        return Err(BodyError::Chunking(ChunkingError::LineTooLong));
    }
    let cs = chars_of(line);
    let mut end = cs.len();
    while end > 0 && (cs[end - 1] == '\r' || cs[end - 1] == '\n')
        invariant
            end <= cs@.len(),
            forall|k: int| end <= k < cs@.len() ==> cs@[k] == '\r' || cs@[k] == '\n',
        decreases end,
    {
        end -= 1;
    }
    proof {
        lemma_strip_crlf_take(cs@, end as int);
    }
    let trimmed = string_from_chars(&cs, 0, end);
    assert(trimmed@ =~= strip_crlf_end(line@));
    let (field, _) = split_once_char(trimmed.as_str(), ';');
    let fs = chars_of(field.as_str());
    let mut fend = fs.len();
    while fend > 0 && is_whitespace(fs[fend - 1])
        invariant
            fend <= fs@.len(),
            forall|k: int| fend <= k < fs@.len() ==> spec_is_whitespace(fs@[k]),
        decreases fend,
    {
        fend -= 1;
    }
    proof {
        lemma_strip_ws_take(fs@, fend as int);
    }
    let size_text = string_from_chars(&fs, 0, fend);
    let size_chars = chars_of(size_text.as_str());
    assert(size_chars@ =~= chunk_size_field(line@));
    match parse_hex(&size_chars) {
        Some(n) => Ok(n),
        None => Err(BodyError::Chunking(ChunkingError::InvalidSize)),
    }
}

/// The two bytes after a chunk's data must be `\r\n`.
pub fn chunk_terminator(crlf: &[u8]) -> (r: Result<(), BodyError>)
    ensures
        (crlf@.len() == 2 && crlf@[0] == 13 && crlf@[1] == 10) ==> r is Ok,
        !(crlf@.len() == 2 && crlf@[0] == 13 && crlf@[1] == 10) ==> r == Err::<(), BodyError>(BodyError::Chunking(ChunkingError::InvalidTerminator)),
{
    if crlf.len() == 2 && crlf[0] == 13 && crlf[1] == 10 {
        Ok(())
    } else {
        Err(BodyError::Chunking(ChunkingError::InvalidTerminator))
    }
}

/// Adds a chunk of `chunk` bytes to a body of `current` bytes: the new size
/// when the body limit allows it, else `TooLarge`.
pub fn add_chunk(limits: &BodyLimits, current: usize, chunk: usize) -> (r: Result<usize, BodyError>)
    ensures
        (current + chunk <= usize::MAX && body_size_ok(limits.max_body_size, current + chunk)) ==> r == Ok::<usize, BodyError>((current + chunk) as usize),
        !(current + chunk <= usize::MAX && body_size_ok(limits.max_body_size, current + chunk)) ==> r == Err::<usize, BodyError>(BodyError::TooLarge),
{
    match limits.check_body_size_delta(current, chunk) {
        Some(total) => Ok(total),
        None => Err(BodyError::TooLarge),
    }
}

} // verus!

verus! {

impl HttpBody {
    /// The buffered body of a message whose bytes were read: the bytes, the
    /// declared content type (empty when none) and the declared content
    /// codings. Reading them fills the metadata's content-type and encoding
    /// caches.
    pub fn buffered(data: Vec<u8>, meta: &mut HttpMeta) -> (r: HttpBody)
        ensures
            final(meta).start_line == old(meta).start_line,
            final(meta).header == old(meta).header,
            r matches HttpBody::Buffer { data: d, content_type, content_coding }
                && d@ == data@
                && content_type@ == (match crate::body::serialize::declared_content_type(*old(meta)) {
                    Some(c) => c,
                    None => (Seq::<char>::empty(), Seq::<char>::empty()),
                })
                && content_coding.deep_view() == codings_of(crate::body::serialize::declared_encoding(*old(meta)).1),
    {
        let content_type = match meta.get_content_type() {
            Some(c) => c,
            None => {
                crate::http_value::content::HttpContentType::from_parts(String::new(), String::new())
            },
        };
        let content_coding = match meta.get_encoding() {
            Some(e) => e.content_codings(),
            None => Vec::new(),
        };
        HttpBody::Buffer { data, content_type, content_coding }
    }
}

} // verus!
