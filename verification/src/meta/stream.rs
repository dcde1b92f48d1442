//! Reading a message head: finding the end of the header block in buffered
//! bytes, splitting it into lines, holding the header limits, and turning the
//! lines into metadata. The reads themselves are the caller's.
use vstd::prelude::*;
use vstd::utf8::{decode_utf8, encode_utf8, valid_utf8};
use crate::header::error::{HeaderError, HeaderLineError};
use crate::header::line::{all_tchars, has_forbidden_value_char, law_field_line_roundtrip, spec_parse_field_line};
use crate::header::map::EntryView;
use crate::entries::{entries_map, has_key, key_index, keys_unique, lemma_entries_map_push};
use crate::text::{ascii_lower_seq, is_ows};
use crate::header::map::HeaderMap;
use crate::header::value::{HeaderValueView, copy_string};
use crate::meta::{HttpMeta, MetaCaches, empty_caches};
use crate::meta::connection::header_connection;
use crate::meta::content_length::{LengthField, content_length_field, length_error};
use crate::meta::error::MetaError;
use crate::start_line::error::StartLineError;
use crate::start_line::request::spec_parse_request_line;
use crate::start_line::response::spec_parse_status_line;
use crate::start_line::start_line::{HttpStartLine, is_parsed_request, is_parsed_response};
use crate::text::{chars_of, push_char};
use crate::transfer::{TransferOutcome, TransferTermination};
use crate::util::connection::ConnectionError;

verus! {

/// Limits on a message head.
#[derive(Debug, Clone, Copy)]
pub struct HeaderLimits {
    /// Longest header line, in bytes, without its line break.
    pub max_line_length: usize,
    /// Largest header block, in bytes, line breaks included.
    pub max_header_size: usize,
    /// Most header lines.
    pub max_headers: usize,
}

impl HeaderLimits {
    /// A line of `len` bytes is allowed.
    pub fn check_line_length(&self, len: usize) -> (r: bool)
        ensures
            r == (len <= self.max_line_length),
    {
        len <= self.max_line_length
    }

    /// A header block of `size` bytes is allowed.
    pub fn check_header_size(&self, size: usize) -> (r: bool)
        ensures
            r == (size <= self.max_header_size),
    {
        size <= self.max_header_size
    }

    /// `count` header lines are allowed.
    pub fn check_headers_count(&self, count: usize) -> (r: bool)
        ensures
            r == (count <= self.max_headers),
    {
        count <= self.max_headers
    }

    /// The cap a line read uses.
    pub fn effective_line_length(&self) -> (r: usize)
        ensures
            r == self.max_line_length,
    {
        self.max_line_length
    }
}

/// The pieces of `s` between the `\r\n` pairs, as `str::split("\r\n")`
/// yields them.
pub open spec fn split_crlf(s: Seq<char>) -> Seq<Seq<char>>
    decreases s.len(),
{
    if s.len() == 0 {
        seq![Seq::<char>::empty()]
    } else {
        let prev = split_crlf(s.drop_last());
        let cur = prev.last();
        if s.last() == '\n' && cur.len() > 0 && cur.last() == '\r' {
            prev.update(prev.len() - 1, cur.drop_last()).push(Seq::<char>::empty())
        } else {
            prev.update(prev.len() - 1, cur.push(s.last()))
        }
    }
}

pub proof fn lemma_split_crlf_nonempty(s: Seq<char>)
    ensures
        split_crlf(s).len() > 0,
    decreases s.len(),
{
    if s.len() > 0 {
        lemma_split_crlf_nonempty(s.drop_last());
    }
}

pub open spec fn is_nonempty_line(x: Seq<char>) -> bool {
    x.len() > 0
}

/// The non-empty lines of a header section.
pub open spec fn section_lines(s: Seq<char>) -> Seq<Seq<char>> {
    split_crlf(s).filter(|x: Seq<char>| is_nonempty_line(x))
}

/// `i` starts a `\r\n\r\n` in `b`.
pub open spec fn is_head_end(b: Seq<u8>, i: int) -> bool {
    &&& 0 <= i
    &&& i + 3 < b.len()
    &&& b[i] == 13 && b[i + 1] == 10 && b[i + 2] == 13 && b[i + 3] == 10
}

/// `i` starts the first `\r\n\r\n` in `b`.
pub open spec fn is_first_head_end(b: Seq<u8>, i: int) -> bool {
    is_head_end(b, i) && forall|j: int| 0 <= j < i ==> !is_head_end(b, j)
}

/// The byte length of a text (its UTF-8 encoding), as `str::len` gives it.
pub open spec fn utf8_len(s: Seq<char>) -> usize {
    encode_utf8(s).len() as usize
}

/// std's `str::from_utf8` on the first `end` bytes: the text they encode,
/// when they are valid UTF-8. The contract claims `Some` exactly for valid
/// UTF-8 (vstd's `valid_utf8`), holding the decoded characters (vstd's
/// `decode_utf8`).
#[verifier::external_body]
fn utf8_text(bytes: &[u8], end: usize) -> (r: Option<&str>)
    requires
        end <= bytes@.len(),
    ensures
        r is Some <==> valid_utf8(bytes@.take(end as int)),
        r matches Some(s) ==> s@ == decode_utf8(bytes@.take(end as int)),
{
    std::str::from_utf8(&bytes[..end]).ok()
}

/// Splits a text at its `\r\n` pairs and keeps the non-empty pieces.
fn split_section(s: &str) -> (r: Vec<String>)
    ensures
        r.deep_view() == section_lines(s@),
{
    let cs = chars_of(s);
    let ghost pred = |x: Seq<char>| is_nonempty_line(x);
    let mut pieces: Vec<String> = Vec::new();
    let mut cur = String::new();
    let mut pending_cr = false;
    let mut i: usize = 0;
    while i < cs.len()
        invariant
            i <= cs@.len(),
            cs@ == s@,
            pieces.deep_view().push(if pending_cr { cur@.push('\r') } else { cur@ }) == split_crlf(s@.take(i as int)),
            !pending_cr ==> cur@.len() == 0 || cur@.last() != '\r',
        decreases cs.len() - i,
    {
        let c = cs[i];
        let ghost seen = s@.take(i as int);
        let ghost before = pieces.deep_view();
        proof {
            lemma_split_crlf_nonempty(seen);
            assert(s@.take(i + 1).drop_last() =~= seen);
            assert(s@.take(i + 1).last() == c);
        }
        if pending_cr && c == '\n' {
            let mut done = String::new();
            std::mem::swap(&mut done, &mut cur);
            pieces.push(done);
            pending_cr = false;
            proof {
                let prev = split_crlf(seen);
                assert(prev.last() == done@.push('\r'));
                assert(prev.last().drop_last() =~= done@);
                assert(pieces.deep_view().push(cur@) =~= split_crlf(s@.take(i + 1)));
            }
        } else {
            if pending_cr {
                push_char(&mut cur, '\r');
            }
            if c == '\r' {
                pending_cr = true;
            } else {
                push_char(&mut cur, c);
                pending_cr = false;
            }
            proof {
                let prev = split_crlf(seen);
                let full = if pending_cr { cur@.push('\r') } else { cur@ };
                assert(full =~= prev.last().push(c));
                assert(pieces.deep_view().push(full) =~= split_crlf(s@.take(i + 1)));
            }
        }
        i += 1;
    }
    if pending_cr {
        push_char(&mut cur, '\r');
    }
    let ghost all = pieces.deep_view().push(cur@);
    assert(s@.take(cs@.len() as int) =~= s@);
    pieces.push(cur);
    assert(pieces.deep_view() =~= all);
    let mut out: Vec<String> = Vec::new();
    let mut k: usize = 0;
    while k < pieces.len()
        invariant
            k <= pieces@.len(),
            all == pieces.deep_view(),
            all == split_crlf(s@),
            pred == (|x: Seq<char>| is_nonempty_line(x)),
            out.deep_view() == all.take(k as int).filter(pred),
        decreases pieces.len() - k,
    {
        proof {
            reveal_with_fuel(Seq::<Seq<char>>::filter, 1);
            assert(all.take(k + 1).drop_last() =~= all.take(k as int));
        }
        if !pieces[k].as_str().is_empty() {
            let ghost before = out.deep_view();
            out.push(copy_string(&pieces[k]));
            assert(out.deep_view() =~= before.push(all[k as int]));
        }
        k += 1;
    }
    assert(all.take(pieces@.len() as int) =~= all);
    out
}

impl HttpMeta {
    /// Finds a complete header block in buffered bytes: the text before the
    /// first `\r\n\r\n`, split into its non-empty lines, and the number of
    /// bytes the block takes with that terminator. `None` when there is no
    /// terminator yet, the block is not UTF-8, or it has more lines than the
    /// limits allow (the caller then reads line by line).
    pub fn extract_headers_from_buffer(buffer: &[u8], limits: &HeaderLimits) -> (r: Option<(Vec<String>, usize)>)
        ensures
            r matches Some((_, end)) ==> 4 <= end <= buffer@.len(),
            (forall|i: int| !is_head_end(buffer@, i)) ==> r is None,
            forall|i: int| #[trigger] is_first_head_end(buffer@, i) ==> (if !valid_utf8(buffer@.take(i + 2)) {
                r is None
            } else if section_lines(decode_utf8(buffer@.take(i + 2))).len() <= limits.max_headers {
                r matches Some((lines, end)) && lines.deep_view() == section_lines(decode_utf8(buffer@.take(i + 2)))
                    && end == i + 4
            } else {
                r is None
            }),
    {
        let mut i: usize = 0;
        while buffer.len() >= 4 && i < buffer.len() - 3
            invariant
                forall|j: int| 0 <= j < i ==> !is_head_end(buffer@, j),
            decreases buffer.len() - i,
        {
            if buffer[i] == 13 && buffer[i + 1] == 10 && buffer[i + 2] == 13 && buffer[i + 3] == 10 {
                proof {
                    assert(is_first_head_end(buffer@, i as int));
                    assert forall|j: int| is_first_head_end(buffer@, j) implies j == i by {
                        if j > i {
                            assert(is_head_end(buffer@, i as int));
                        }
                    }
                }
                let section = match utf8_text(buffer, i + 2) {
                    Some(s) => s,
                    None => return None,
                };
                let lines = split_section(section);
                if !limits.check_headers_count(lines.len()) {
                    return None;
                }
                return Some((lines, i + 4));
            }
            i += 1;
        }
        proof {
            assert forall|j: int| !is_head_end(buffer@, j) by {
                if 0 <= j < i {
                } else if j >= i && is_head_end(buffer@, j) {
                    assert(j + 3 < buffer@.len());
                }
            }
        }
        None
    }
}

/// The byte sizes of `lines`, each counted with a two-byte line break.
pub open spec fn block_size(lines: Seq<Seq<char>>) -> int
    decreases lines.len(),
{
    if lines.len() == 0 {
        0
    } else {
        block_size(lines.drop_last()) + utf8_len(lines.last()) + 2
    }
}

/// The first failure the header limits find among `lines` read one after
/// another: a line too long, the block growing too large, or too many lines
/// already kept; `None` when all of them pass.
pub open spec fn first_limit_error(lines: Seq<Seq<char>>, limits: HeaderLimits) -> Option<MetaError>
    decreases lines.len(),
{
    if lines.len() == 0 {
        None
    } else {
        match first_limit_error(lines.drop_last(), limits) {
            Some(e) => Some(e),
            None => {
                let n = lines.len() - 1;
                if utf8_len(lines.last()) > limits.max_line_length {
                    Some(MetaError::HeaderLineTooLong)
                } else if block_size(lines) > limits.max_header_size {
                    Some(MetaError::HeadersTooLarge)
                } else if n > limits.max_headers {
                    Some(MetaError::TooManyHeaders)
                } else {
                    None
                }
            },
        }
    }
}

/// Holds the lines of a header block found in one piece to the header
/// limits, in order: each line's length, the growing block size, and the
/// number of lines kept before it.
pub fn check_head_lines(lines: &Vec<String>, limits: &HeaderLimits) -> (r: Result<(), MetaError>)
    ensures
        match first_limit_error(lines.deep_view(), *limits) {
            Some(e) => r == Err::<(), MetaError>(e),
            None => r is Ok,
        },
{
    let ghost ls = lines.deep_view();
    let mut total: usize = 0;
    let mut i: usize = 0;
    while i < lines.len()
        invariant
            i <= lines@.len(),
            ls == lines.deep_view(),
            first_limit_error(ls.take(i as int), *limits) is None,
            total == block_size(ls.take(i as int)),
            total <= limits.max_header_size,
        decreases lines.len() - i,
    {
        let len = lines[i].as_str().len();
        proof {
            assert(ls.take(i + 1).drop_last() =~= ls.take(i as int));
            assert(ls.take(i + 1).last() == lines@[i as int]@);
        }
        assert(len == utf8_len(ls[i as int]));
        assert(block_size(ls.take(i + 1)) == total + len + 2);
        if !limits.check_line_length(len) {
            proof {
                lemma_first_limit_error_prefix(ls, *limits, i as int + 1);
            }
            return Err(MetaError::HeaderLineTooLong);
        }
        if len > limits.max_header_size || total > limits.max_header_size - len || limits.max_header_size - len - total < 2 {
            proof {
                lemma_first_limit_error_prefix(ls, *limits, i as int + 1);
            }
            return Err(MetaError::HeadersTooLarge);
        }
        total = total + len + 2;
        if !limits.check_headers_count(i) {
            proof {
                lemma_first_limit_error_prefix(ls, *limits, i as int + 1);
            }
            return Err(MetaError::TooManyHeaders);
        }
        i += 1;
    }
    assert(ls.take(lines@.len() as int) =~= ls);
    Ok(())
}

/// What one line read of a header block that is read line by line gives.
pub enum HeadLineStep {
    /// The block ended (an empty line, or the source ended).
    End,
    /// A header line, without its line break, and the block size so far.
    Line(String, usize),
}

/// The text without one trailing `\n` and then without one trailing `\r`.
pub open spec fn strip_line_break(s: Seq<char>) -> Seq<char> {
    let a = if s.len() > 0 && s.last() == '\n' { s.drop_last() } else { s };
    if a.len() > 0 && a.last() == '\r' { a.drop_last() } else { a }
}

/// Decides on one line read of a header block read line by line: `line` is
/// what the read gave and `outcome` how it ended; `total` bytes and `count`
/// lines were kept before. A read stopped by its cap means the line is too
/// long; a read of nothing or an empty line ends the block; otherwise the
/// line is kept if the block stays within the limits.
pub fn head_line_step(line: &str, outcome: TransferOutcome, total: usize, count: usize, limits: &HeaderLimits) -> (r: Result<HeadLineStep, MetaError>)
    ensures
        outcome.termination == TransferTermination::CapReached ==> r == Err::<HeadLineStep, MetaError>(MetaError::HeaderLineTooLong),
        outcome.termination != TransferTermination::CapReached && (outcome.transferred == 0 || strip_line_break(line@).len() == 0)
            ==> r matches Ok(HeadLineStep::End),
        outcome.termination != TransferTermination::CapReached && outcome.transferred > 0 && strip_line_break(line@).len() > 0 ==> (
            if total + outcome.transferred > limits.max_header_size {
                r == Err::<HeadLineStep, MetaError>(MetaError::HeadersTooLarge)
            } else if count > limits.max_headers {
                r == Err::<HeadLineStep, MetaError>(MetaError::TooManyHeaders)
            } else {
                r matches Ok(HeadLineStep::Line(l, t)) && l@ == strip_line_break(line@) && t == total + outcome.transferred
            }),
{
    if outcome.termination == TransferTermination::CapReached {
        return Err(MetaError::HeaderLineTooLong);
    }
    if outcome.transferred == 0 {
        return Ok(HeadLineStep::End);
    }
    let cs = chars_of(line);
    let mut end = cs.len();
    if end > 0 && cs[end - 1] == '\n' {
        end = end - 1;
    }
    if end > 0 && cs[end - 1] == '\r' {
        end = end - 1;
    }
    let stripped = crate::text::string_from_chars(&cs, 0, end);
    proof {
        let a = if line@.len() > 0 && line@.last() == '\n' { line@.drop_last() } else { line@ };
        assert(a =~= cs@.take(if line@.len() > 0 && line@.last() == '\n' { cs@.len() - 1 } else { cs@.len() as int }));
        assert(stripped@ =~= strip_line_break(line@));
    }
    if stripped.as_str().is_empty() {
        return Ok(HeadLineStep::End);
    }
    if outcome.transferred > limits.max_header_size || total > limits.max_header_size - outcome.transferred {
        return Err(MetaError::HeadersTooLarge);
    }
    let new_total = total + outcome.transferred;
    if !limits.check_headers_count(count) {
        return Err(MetaError::TooManyHeaders);
    }
    Ok(HeadLineStep::Line(stripped, new_total))
}

/// The header block the field lines `lines` make, read in order; a name
/// seen again gets the new value added beside the earlier ones. The first
/// line that does not parse gives its error.
pub open spec fn spec_parse_header_lines(lines: Seq<Seq<char>>) -> Result<Map<Seq<char>, HeaderValueView>, HeaderLineError>
    decreases lines.len(),
{
    if lines.len() == 0 {
        Ok(Map::empty())
    } else {
        match spec_parse_header_lines(lines.drop_last()) {
            Err(e) => Err(e),
            Ok(m) => match spec_parse_field_line(lines.last()) {
                Err(e) => Err(e),
                Ok((n, v)) => Ok(m.insert(n, if m.contains_key(n) {
                    m[n].added(v)
                } else {
                    HeaderValueView::Single(v)
                })),
            },
        }
    }
}

/// What reading a message head from its lines gives: the start line (a
/// request line or a status line, as asked), the header block, and the
/// Content-Length and Connection caches filled. `None` stands for success.
pub open spec fn head_error(lines: Seq<Seq<char>>, is_request: bool) -> Option<MetaError> {
    if lines.len() == 0 {
        Some(MetaError::StartLine(StartLineError::Empty))
    } else if is_request && spec_parse_request_line(lines[0]) is Err {
        Some(MetaError::StartLine(spec_parse_request_line(lines[0])->Err_0))
    } else if !is_request && spec_parse_status_line(lines[0]) is Err {
        Some(MetaError::StartLine(spec_parse_status_line(lines[0])->Err_0))
    } else if spec_parse_header_lines(lines.drop_first()) is Err {
        Some(MetaError::Header(HeaderError::ParseError(spec_parse_header_lines(lines.drop_first())->Err_0)))
    } else {
        let h = spec_parse_header_lines(lines.drop_first())->Ok_0;
        if h.contains_key("content-length"@) && h.contains_key("transfer-encoding"@) {
            Some(MetaError::ConflictingFraming)
        } else {
            None
        }
    }
}

impl HttpMeta {
    /// Parses the start line as a request line or a status line; on failure
    /// gives the default of that kind (`GET / HTTP/1.1` or `HTTP/1.1 200`).
    pub fn parse_start_line_or_default(line: &str, is_request: bool) -> (r: HttpStartLine)
        ensures
            is_request && spec_parse_request_line(line@) is Ok ==> (r matches HttpStartLine::Request(q) && is_parsed_request(q, line@)),
            is_request && spec_parse_request_line(line@) is Err ==> (r matches HttpStartLine::Request(q) && crate::start_line::request::is_default_request(q)),
            !is_request && spec_parse_status_line(line@) is Ok ==> (r matches HttpStartLine::Response(q) && is_parsed_response(q, line@)),
            !is_request && spec_parse_status_line(line@) is Err ==> r == HttpStartLine::Response(crate::start_line::start_line::default_response()),
    {
        if is_request {
            HttpStartLine::parse_request_or_default(line)
        } else {
            HttpStartLine::parse_response_or_default(line)
        }
    }

    /// Parses the start line as a request line or a status line.
    pub fn parse_start_line(line: &str, is_request: bool) -> (r: Result<HttpStartLine, StartLineError>)
        ensures
            is_request ==> match spec_parse_request_line(line@) {
                Ok(_) => r matches Ok(HttpStartLine::Request(q)) && is_parsed_request(q, line@),
                Err(e) => r == Err::<HttpStartLine, StartLineError>(e),
            },
            !is_request ==> match spec_parse_status_line(line@) {
                Ok(_) => r matches Ok(HttpStartLine::Response(q)) && is_parsed_response(q, line@),
                Err(e) => r == Err::<HttpStartLine, StartLineError>(e),
            },
    {
        if is_request {
            HttpStartLine::parse_request(line)
        } else {
            HttpStartLine::parse_response(line)
        }
    }

    /// Parses header field lines into a header block; a name seen again gets
    /// the new value added beside the earlier ones without combining them.
    pub fn parse_headers(header_lines: &[String]) -> (r: Result<HeaderMap, MetaError>)
        ensures
            match spec_parse_header_lines(header_lines@.map_values(|l: String| l@)) {
                Ok(m) => r matches Ok(h) && h@ == m,
                Err(e) => r == Err::<HeaderMap, MetaError>(MetaError::Header(HeaderError::ParseError(e))),
            },
    {
        let ghost ls = header_lines@.map_values(|l: String| l@);
        let mut headers = HeaderMap::new();
        let mut i: usize = 0;
        while i < header_lines.len()
            invariant
                i <= header_lines@.len(),
                ls == header_lines@.map_values(|l: String| l@),
                spec_parse_header_lines(ls.take(i as int)) == Ok::<Map<Seq<char>, HeaderValueView>, HeaderLineError>(headers@),
            decreases header_lines.len() - i,
        {
            proof {
                assert(ls.take(i + 1).drop_last() =~= ls.take(i as int));
                assert(ls.take(i + 1).last() == header_lines@[i as int]@);
            }
            match headers.insert_field_line(header_lines[i].as_str()) {
                Ok(()) => {},
                Err(HeaderError::ParseError(e)) => {
                    proof {
                        lemma_parse_header_lines_err(ls, i as int + 1);
                    }
                    return Err(MetaError::Header(HeaderError::ParseError(e)));
                },
                Err(_) => {
                    proof {
                        assert(false);
                    }
                    return Err(MetaError::InvalidHeader);
                },
            }
            i += 1;
        }
        assert(ls.take(header_lines@.len() as int) =~= ls);
        Ok(headers)
    }
}

impl HttpMeta {
    /// Builds the metadata of a message head from its lines: the start line
    /// (a request line when `is_request`, else a status line), then the
    /// header lines. Both Content-Length and Transfer-Encoding present is
    /// refused as conflicting framing; the Content-Length and Connection
    /// headers are then parsed into their caches, and their errors returned.
    pub fn from_head_lines(lines: Vec<String>, is_request: bool) -> (r: Result<HttpMeta, MetaError>)
        ensures
            head_error(lines.deep_view(), is_request) matches Some(e) ==> r == Err::<HttpMeta, MetaError>(e),
            head_error(lines.deep_view(), is_request) is None ==> ({
                let h = spec_parse_header_lines(lines.deep_view().drop_first())->Ok_0;
                let f = content_length_field(h);
                if !(f is Absent || f is Value) {
                    r matches Err(e) && length_error(f, e)
                } else if header_connection(h) is None {
                    r == Err::<HttpMeta, MetaError>(MetaError::Connection(ConnectionError::InvalidToken))
                } else {
                    r matches Ok(m) && m.header@ == h
                        && (is_request ==> (m.start_line matches HttpStartLine::Request(q) && is_parsed_request(q, lines.deep_view()[0])))
                        && (!is_request ==> (m.start_line matches HttpStartLine::Response(q) && is_parsed_response(q, lines.deep_view()[0])))
                        && m.caches() == (MetaCaches {
                            content_length: match f {
                                LengthField::Value(n) => Some(n),
                                _ => None,
                            },
                            connection: header_connection(h),
                            ..empty_caches()
                        })
                }
            }),
    {
        let ghost ls = lines.deep_view();
        if lines.len() == 0 {
            return Err(MetaError::StartLine(StartLineError::Empty));
        }
        let mut rest = lines;
        let first = rest.remove(0);
        proof {
            assert(first@ == ls[0]);
            assert(rest@.map_values(|l: String| l@) =~= ls.drop_first());
        }
        let start_line = match Self::parse_start_line(first.as_str(), is_request) {
            Ok(s) => s,
            Err(e) => return Err(MetaError::StartLine(e)),
        };
        let header = match Self::parse_headers(rest.as_slice()) {
            Ok(h) => h,
            Err(e) => return Err(e),
        };
        let mut meta = HttpMeta::new(start_line, header);
        if meta.header.contains_key("content-length") && meta.header.contains_key("transfer-encoding") {
            return Err(MetaError::ConflictingFraming);
        }
        match meta.parse_content_length() {
            Ok(_) => {},
            Err(e) => return Err(e),
        }
        match meta.parse_connection() {
            Ok(_) => {},
            Err(e) => return Err(MetaError::Connection(e)),
        }
        Ok(meta)
    }

    /// Merges a bare header block (no start line), such as chunked trailers,
    /// into the header block: a name already present gets the new values in
    /// its place. New Connection values empty the Connection cache. Lines
    /// that do not parse leave everything as it was.
    pub fn append_header_lines(&mut self, lines: Vec<String>) -> (r: Result<(), MetaError>)
        ensures
            match spec_parse_header_lines(lines.deep_view()) {
                Err(e) => r == Err::<(), MetaError>(MetaError::Header(HeaderError::ParseError(e))) && *final(self) == *old(self),
                Ok(m) => r is Ok && final(self).start_line == old(self).start_line
                    && final(self).header@ == old(self).header@.union_prefer_right(m)
                    && final(self).caches() == (if m.contains_key("connection"@) {
                        MetaCaches { connection: None, ..old(self).caches() }
                    } else {
                        old(self).caches()
                    }),
            },
    {
        if lines.len() == 0 {
            proof {
                assert(lines.deep_view() =~= Seq::<Seq<char>>::empty());
                assert(old(self).header@.union_prefer_right(Map::<Seq<char>, HeaderValueView>::empty()) =~= old(self).header@);
            }
            return Ok(());
        }
        proof {
            assert(lines@.map_values(|l: String| l@) =~= lines.deep_view());
        }
        let header = match Self::parse_headers(lines.as_slice()) {
            Ok(h) => h,
            Err(e) => return Err(e),
        };
        if header.contains_key("connection") {
            self.connection = None;
        }
        self.header.extend(header);
        Ok(())
    }
}

/// Once the limits fail on the lines up to `n`, they fail on all the lines
/// with the same error.
pub proof fn lemma_first_limit_error_prefix(ls: Seq<Seq<char>>, limits: HeaderLimits, n: int)
    requires
        0 <= n <= ls.len(),
        first_limit_error(ls.take(n), limits) is Some,
    ensures
        first_limit_error(ls, limits) == first_limit_error(ls.take(n), limits),
    decreases ls.len() - n,
{
    if n < ls.len() {
        assert(ls.take(n + 1).drop_last() =~= ls.take(n));
        lemma_first_limit_error_prefix(ls, limits, n + 1);
    } else {
        assert(ls.take(n) =~= ls);
    }
}

/// Once the lines up to `n` fail to parse, all the lines fail with the same
/// error.
pub proof fn lemma_parse_header_lines_err(ls: Seq<Seq<char>>, n: int)
    requires
        0 <= n <= ls.len(),
        spec_parse_header_lines(ls.take(n)) is Err,
    ensures
        spec_parse_header_lines(ls) == spec_parse_header_lines(ls.take(n)),
    decreases ls.len() - n,
{
    if n < ls.len() {
        assert(ls.take(n + 1).drop_last() =~= ls.take(n));
        lemma_parse_header_lines_err(ls, n + 1);
    } else {
        assert(ls.take(n) =~= ls);
    }
}

/// The field line `name: value` of a header entry with a single value.
pub open spec fn entry_line(e: EntryView) -> Seq<char> {
    e.0 + ": "@ + e.1->Single_0
}

/// A header entry `parse_headers` reads back from its field line: a
/// lower-case token name and a single value without forbidden characters
/// or surrounding spaces and tabs.
pub open spec fn is_plain_entry(e: EntryView) -> bool {
    &&& e.1 is Single
    &&& e.0.len() > 0
    &&& all_tchars(e.0)
    &&& ascii_lower_seq(e.0) == e.0
    &&& !has_forbidden_value_char(e.1->Single_0)
    &&& (e.1->Single_0.len() == 0 || (!is_ows(e.1->Single_0[0]) && !is_ows(e.1->Single_0.last())))
}

/// A header block of plain entries, written as one field line per entry,
/// reads back as the same block.
pub proof fn law_header_block_roundtrip(es: Seq<EntryView>)
    requires
        keys_unique(es),
        forall|i: int| 0 <= i < es.len() ==> #[trigger] is_plain_entry(es[i]),
    ensures
        spec_parse_header_lines(es.map_values(|e: EntryView| entry_line(e)))
            == Ok::<Map<Seq<char>, HeaderValueView>, HeaderLineError>(entries_map(es)),
    decreases es.len(),
{
    let lines = es.map_values(|e: EntryView| entry_line(e));
    if es.len() == 0 {
        assert(lines =~= Seq::<Seq<char>>::empty());
        assert(entries_map(es) =~= Map::<Seq<char>, HeaderValueView>::empty());
    } else {
        let init = es.drop_last();
        let e = es.last();
        assert(keys_unique(init));
        assert forall|i: int| 0 <= i < init.len() implies #[trigger] is_plain_entry(init[i]) by {
            assert(init[i] == es[i]);
        }
        law_header_block_roundtrip(init);
        assert(lines.drop_last() =~= init.map_values(|e: EntryView| entry_line(e)));
        assert(is_plain_entry(es[es.len() - 1]));
        law_field_line_roundtrip(e.0, e.1->Single_0);
        assert(lines.last() == entry_line(e));
        assert(!has_key(init, e.0)) by {
            if has_key(init, e.0) {
                let j = key_index(init, e.0);
                assert(es[j].0 != es[es.len() - 1].0);
            }
        }
        lemma_entries_map_push(init, e.0, e.1);
        assert(init.push(e) =~= es);
        assert(HeaderValueView::Single(e.1->Single_0) == e.1);
    }
}

/// A `\r\n` between two texts separates their pieces.
pub proof fn lemma_split_crlf_concat(a: Seq<char>, b: Seq<char>)
    ensures
        split_crlf(a + seq!['\r', '\n'] + b) == split_crlf(a) + split_crlf(b),
    decreases b.len(),
{
    let crlf = seq!['\r', '\n'];
    lemma_split_crlf_nonempty(a);
    if b.len() == 0 {
        let ar = a + seq!['\r'];
        let s = a + crlf + b;
        assert(ar.drop_last() =~= a);
        assert(s.drop_last() =~= ar);
        let pa = split_crlf(a);
        assert(split_crlf(ar) == pa.update(pa.len() - 1, pa.last().push('\r')));
        assert(split_crlf(ar).last() == pa.last().push('\r'));
        assert(pa.last().push('\r').drop_last() =~= pa.last());
        assert(split_crlf(ar).update(pa.len() - 1, pa.last()) =~= pa);
        assert(split_crlf(b) =~= seq![Seq::<char>::empty()]);
        assert(split_crlf(s) =~= pa + split_crlf(b));
    } else {
        let b0 = b.drop_last();
        let c = b.last();
        let s = a + crlf + b;
        lemma_split_crlf_concat(a, b0);
        lemma_split_crlf_nonempty(b0);
        assert(s.drop_last() =~= a + crlf + b0);
        assert(b.drop_last() =~= b0);
        let pa = split_crlf(a);
        let pb = split_crlf(b0);
        let prev = pa + pb;
        assert(prev.last() == pb.last());
        if c == '\n' && pb.last().len() > 0 && pb.last().last() == '\r' {
            assert(split_crlf(s) == prev.update(prev.len() - 1, pb.last().drop_last()).push(Seq::<char>::empty()));
            assert(split_crlf(b) == pb.update(pb.len() - 1, pb.last().drop_last()).push(Seq::<char>::empty()));
            assert(split_crlf(s) =~= pa + split_crlf(b));
        } else {
            assert(split_crlf(s) == prev.update(prev.len() - 1, pb.last().push(c)));
            assert(split_crlf(b) == pb.update(pb.len() - 1, pb.last().push(c)));
            assert(split_crlf(s) =~= pa + split_crlf(b));
        }
    }
}

/// A text without line feeds is one piece.
pub proof fn lemma_split_crlf_single(l: Seq<char>)
    requires
        !l.contains('\n'),
    ensures
        split_crlf(l) == seq![l],
    decreases l.len(),
{
    if l.len() > 0 {
        let init = l.drop_last();
        assert(!init.contains('\n')) by {
            if init.contains('\n') {
                let k = choose|k: int| 0 <= k < init.len() && init[k] == '\n';
                assert(l[k] == '\n');
            }
        }
        lemma_split_crlf_single(init);
        assert(l.last() != '\n') by {
            assert(l[l.len() - 1] == l.last());
        }
        assert(init.push(l.last()) =~= l);
        assert(split_crlf(l) == seq![init].update(0, init.push(l.last())));
        assert(seq![init].update(0, init.push(l.last())) =~= seq![l]);
    } else {
        assert(l =~= Seq::<char>::empty());
    }
}

/// Lines written one after another, each followed by `\r\n`.
pub open spec fn lines_text(ls: Seq<Seq<char>>) -> Seq<char>
    decreases ls.len(),
{
    if ls.len() == 0 {
        Seq::empty()
    } else {
        lines_text(ls.drop_last()) + ls.last() + seq!['\r', '\n']
    }
}

proof fn lemma_lines_text_pieces(ls: Seq<Seq<char>>)
    requires
        forall|i: int| 0 <= i < ls.len() ==> !(#[trigger] ls[i]).contains('\n'),
    ensures
        split_crlf(lines_text(ls)) == ls.push(Seq::<char>::empty()),
    decreases ls.len(),
{
    if ls.len() == 0 {
        assert(lines_text(ls) =~= Seq::<char>::empty());
        assert(ls.push(Seq::<char>::empty()) =~= seq![Seq::<char>::empty()]);
    } else {
        let init = ls.drop_last();
        let l = ls.last();
        assert forall|i: int| 0 <= i < init.len() implies !(#[trigger] init[i]).contains('\n') by {
            assert(init[i] == ls[i]);
        }
        lemma_lines_text_pieces(init);
        assert(!ls[ls.len() - 1].contains('\n'));
        lemma_split_crlf_single(l);
        let t = lines_text(init);
        // t + l + crlf, seen as (t without its final crlf) + crlf + (l + crlf + empty)
        lemma_split_crlf_concat(l, Seq::<char>::empty());
        assert(l + seq!['\r', '\n'] + Seq::<char>::empty() =~= l + seq!['\r', '\n']);
        assert(split_crlf(l + seq!['\r', '\n']) =~= seq![l, Seq::<char>::empty()]);
        if init.len() == 0 {
            assert(lines_text(ls) =~= l + seq!['\r', '\n']);
            assert(ls.push(Seq::<char>::empty()) =~= seq![l, Seq::<char>::empty()]);
        } else {
            let t0 = lines_text(init.drop_last()) + init.last();
            assert(t =~= t0 + seq!['\r', '\n']);
            assert(lines_text(ls) =~= t0 + seq!['\r', '\n'] + (l + seq!['\r', '\n']));
            lemma_split_crlf_concat(t0, l + seq!['\r', '\n']);
            lemma_split_crlf_concat(t0, Seq::<char>::empty());
            assert(t0 + seq!['\r', '\n'] + Seq::<char>::empty() =~= t);
            assert(split_crlf(Seq::<char>::empty()) =~= seq![Seq::<char>::empty()]);
            let e = Seq::<char>::empty();
            let lhs = split_crlf(t0);
            assert(lhs + seq![e] == init.push(e));
            assert(lhs.len() == init.len()) by {
                assert((lhs + seq![e]).len() == (init.push(e)).len());
            }
            assert forall|i: int| 0 <= i < lhs.len() implies lhs[i] == init[i] by {
                assert((lhs + seq![e])[i] == lhs[i]);
                assert(init.push(e)[i] == init[i]);
            }
            assert(lhs =~= init);
            assert(split_crlf(lines_text(ls)) =~= ls.push(Seq::<char>::empty()));
        }
    }
}

/// Non-empty lines without line feeds, each written followed by `\r\n`,
/// are read back as the same lines.
pub proof fn law_head_lines_roundtrip(ls: Seq<Seq<char>>)
    requires
        forall|i: int| 0 <= i < ls.len() ==> (#[trigger] ls[i]).len() > 0 && !ls[i].contains('\n'),
    ensures
        section_lines(lines_text(ls)) == ls,
{
    lemma_lines_text_pieces(ls);
    let pred = |x: Seq<char>| is_nonempty_line(x);
    lemma_filter_all(ls, pred);
    reveal_with_fuel(Seq::<Seq<char>>::filter, 1);
    let pushed = ls.push(Seq::<char>::empty());
    assert(pushed.drop_last() =~= ls);
    assert(!pred(pushed.last()));
}

proof fn lemma_filter_all(ls: Seq<Seq<char>>, pred: spec_fn(Seq<char>) -> bool)
    requires
        forall|i: int| 0 <= i < ls.len() ==> pred(#[trigger] ls[i]),
    ensures
        ls.filter(pred) == ls,
    decreases ls.len(),
{
    reveal_with_fuel(Seq::<Seq<char>>::filter, 1);
    if ls.len() > 0 {
        let init = ls.drop_last();
        assert forall|i: int| 0 <= i < init.len() implies pred(#[trigger] init[i]) by {
            assert(init[i] == ls[i]);
        }
        lemma_filter_all(init, pred);
        assert(pred(ls[ls.len() - 1]));
        assert(init.push(ls.last()) =~= ls);
    } else {
        assert(ls.filter(pred) =~= ls);
    }
}

/// The values of the field lines among `lines` whose (lower-cased) name is
/// `n`, in line order.
pub open spec fn values_named(lines: Seq<Seq<char>>, n: Seq<char>) -> Seq<Seq<char>>
    decreases lines.len(),
{
    if lines.len() == 0 {
        Seq::empty()
    } else {
        let prev = values_named(lines.drop_last(), n);
        match spec_parse_field_line(lines.last()) {
            Ok((k, v)) => if k == n { prev.push(v) } else { prev },
            Err(_) => prev,
        }
    }
}

/// Field lines that all parse make a header block with one key per
/// lower-cased name; each name holds the values of its lines in line order,
/// as a single value when it was seen once and as several values, never
/// joined, when it was seen more than once.
pub proof fn law_header_lines_collect(lines: Seq<Seq<char>>)
    requires
        forall|i: int| 0 <= i < lines.len() ==> #[trigger] spec_parse_field_line(lines[i]) is Ok,
    ensures
        spec_parse_header_lines(lines) matches Ok(m) && (forall|n: Seq<char>|
            (#[trigger] m.contains_key(n) <==> values_named(lines, n).len() > 0)
            && (m.contains_key(n) ==> m[n].items() == values_named(lines, n)
                && (m[n] is Single <==> values_named(lines, n).len() == 1))),
    decreases lines.len(),
{
    if lines.len() > 0 {
        let init = lines.drop_last();
        assert forall|i: int| 0 <= i < init.len() implies #[trigger] spec_parse_field_line(init[i]) is Ok by {
            assert(init[i] == lines[i]);
        }
        law_header_lines_collect(init);
        assert(spec_parse_field_line(lines[lines.len() - 1]) is Ok);
        let m0 = spec_parse_header_lines(init)->Ok_0;
        let (k, v) = spec_parse_field_line(lines.last())->Ok_0;
        let m = spec_parse_header_lines(lines)->Ok_0;
        assert forall|n: Seq<char>|
            (#[trigger] m.contains_key(n) <==> values_named(lines, n).len() > 0)
            && (m.contains_key(n) ==> m[n].items() == values_named(lines, n)
                && (m[n] is Single <==> values_named(lines, n).len() == 1)) by {
            assert(m0.contains_key(n) <==> values_named(init, n).len() > 0);
            if n == k {
                if m0.contains_key(k) {
                    assert(m0[k].items() == values_named(init, k));
                    assert(m[k].items() =~= values_named(lines, k));
                } else {
                    assert(values_named(init, k).len() == 0);
                    assert(m[k].items() =~= values_named(lines, k));
                }
            }
        }
    }
}

/// Field lines read until the first that does not parse give that line's
/// error, whatever follows it.
pub proof fn law_header_lines_first_error(lines: Seq<Seq<char>>, j: int)
    requires
        0 <= j < lines.len(),
        spec_parse_field_line(lines[j]) is Err,
        forall|i: int| 0 <= i < j ==> #[trigger] spec_parse_field_line(lines[i]) is Ok,
    ensures
        spec_parse_header_lines(lines) == Err::<Map<Seq<char>, HeaderValueView>, HeaderLineError>(
            spec_parse_field_line(lines[j])->Err_0),
{
    let pre = lines.take(j);
    assert forall|i: int| 0 <= i < pre.len() implies #[trigger] spec_parse_field_line(pre[i]) is Ok by {
        assert(pre[i] == lines[i]);
    }
    law_header_lines_collect(pre);
    let t = lines.take(j + 1);
    assert(t.drop_last() =~= pre);
    assert(t.last() == lines[j]);
    lemma_parse_header_lines_err(lines, j + 1);
}

} // verus!
