//! Progress and stopping events of byte transfers, the framework's own IO
//! errors, and the decisions the transfer helpers make between IO calls.
//!
//! The IO calls themselves (a read, a fill of the look-ahead buffer, a
//! complete write) belong to the caller. The functions here take what such a
//! call returned and decide what happens next: how much to take, how much to
//! write, and when the transfer stops and why.
use vstd::prelude::*;
use vstd::string::StringExecFns;
use vstd::utf8::{decode_utf8, valid_utf8};

verus! {

/// Reason a transfer stopped.
#[derive(Debug, Clone, Copy, PartialEq, Eq, Structural)]
pub enum TransferTermination {
    /// The operation reached its configured logical condition, such as a
    /// delimiter or line ending.
    ConditionReached,
    /// No input remained in the operation's source. For a delimiter read
    /// this means the source ended before the delimiter.
    SourceEnded,
    /// The configured transfer cap was reached before another stop condition.
    CapReached,
}

/// Progress and stopping state returned by a transfer: bytes transferred
/// during the call and why it stopped.
#[derive(Debug, Clone, Copy, PartialEq, Eq, Structural)]
pub struct TransferOutcome {
    /// Bytes transferred during this call.
    pub transferred: usize,
    /// Reason the operation stopped.
    pub termination: TransferTermination,
}

impl TransferOutcome {
    /// Creates a transfer outcome from its byte count and stopping event.
    pub fn new(transferred: usize, termination: TransferTermination) -> (r: Self)
        ensures
            r == (TransferOutcome { transferred, termination }),
    {
        TransferOutcome { transferred, termination }
    }
}

/// Framework-owned IO error.
#[derive(Debug, Clone, Copy, PartialEq, Eq, Structural)]
pub enum HotaruIOError {
    /// Reader returned 0 before `read_exact` filled its buffer.
    UnexpectedEof,
    /// Writer accepted 0 bytes before `write_all` drained its buffer.
    WriteZero,
    /// `read_until` / `read_line` hit the rate limit.
    SizeExceeded,
}

impl HotaruIOError {
    pub open spec fn spec_message(&self) -> Seq<char> {
        match self {
            HotaruIOError::UnexpectedEof => "unexpected EOF before buffer was filled"@,
            HotaruIOError::WriteZero => "writer accepted 0 bytes"@,
            HotaruIOError::SizeExceeded => "read rate limit exceeded"@,
        }
    }

    /// The human-readable description of the error.
    pub fn to_string(&self) -> (r: String)
        ensures
            r@ == self.spec_message(),
    {
        match self {
            HotaruIOError::UnexpectedEof => String::from_str("unexpected EOF before buffer was filled"),
            HotaruIOError::WriteZero => String::from_str("writer accepted 0 bytes"),
            HotaruIOError::SizeExceeded => String::from_str("read rate limit exceeded"),
        }
    }
}

/// An error type that can report a read rate limit being exceeded.
pub trait ReadLimitError: Sized {
    /// The error for an exceeded read rate limit.
    fn rate_limit_error() -> Self;
}

impl ReadLimitError for HotaruIOError {
    fn rate_limit_error() -> (r: Self)
        ensures
            r == HotaruIOError::SizeExceeded,
    {
        HotaruIOError::SizeExceeded
    }
}

/// The size of the scratch chunk `read_to_end` reads into.
pub const READ_CHUNK: usize = 1024;

/// The immediate answer of a capped read when the buffer is already full:
/// `Some((0, CapReached))` when `buf_len >= cap`, else `None` (read on).
pub fn capped_read_start(buf_len: usize, cap: usize) -> (r: Option<TransferOutcome>)
    ensures
        buf_len >= cap ==> r == Some(TransferOutcome { transferred: 0, termination: TransferTermination::CapReached }),
        buf_len < cap ==> r is None,
{
    if buf_len >= cap {
        Some(TransferOutcome::new(0, TransferTermination::CapReached))
    } else {
        None
    }
}

/// How many bytes the next raw read of `read_to_end` asks for, with
/// `buf_len` bytes in a buffer capped at `cap`.
pub open spec fn to_end_request(buf_len: int, cap: int) -> int {
    if cap - buf_len < READ_CHUNK { cap - buf_len } else { READ_CHUNK as int }
}

/// What `read_to_end` decides after a raw read of `read` bytes: `Some` of
/// the bytes transferred and the stopping event, or `None` to read on.
pub open spec fn to_end_step(buf_len: int, cap: int, transferred: int, read: int) -> Option<(int, TransferTermination)> {
    if read == 0 {
        Some((transferred, TransferTermination::SourceEnded))
    } else if buf_len + read == cap {
        Some((transferred + read, TransferTermination::CapReached))
    } else {
        None
    }
}

/// How many bytes the next raw read of `read_to_end` asks for: what fits
/// under the cap, at most one chunk.
pub fn read_to_end_request(buf_len: usize, cap: usize) -> (r: usize)
    requires
        buf_len < cap,
    ensures
        r == (if cap - buf_len < READ_CHUNK { (cap - buf_len) as usize } else { READ_CHUNK }),
        r == to_end_request(buf_len as int, cap as int),
        0 < r <= cap - buf_len,
        r <= READ_CHUNK,
{
    let remaining = cap - buf_len;
    if remaining < READ_CHUNK {
        remaining
    } else {
        READ_CHUNK
    }
}

/// What `read_to_end` does after a raw read of `read` bytes into a buffer
/// that held `buf_len` bytes, having transferred `transferred` bytes so far.
/// `Some` stops the transfer with that outcome; `None` reads on. The new
/// totals are `buf_len + read` and `transferred + read`.
pub fn read_to_end_step(buf_len: usize, cap: usize, transferred: usize, read: usize) -> (r: Option<TransferOutcome>)
    requires
        buf_len < cap,
        read <= cap - buf_len,
        transferred + read <= usize::MAX,
    ensures
        read == 0 ==> r == Some(TransferOutcome { transferred, termination: TransferTermination::SourceEnded }),
        read > 0 && buf_len + read == cap ==> r == Some(TransferOutcome {
            transferred: (transferred + read) as usize,
            termination: TransferTermination::CapReached,
        }),
        read > 0 && buf_len + read < cap ==> r is None,
        match to_end_step(buf_len as int, cap as int, transferred as int, read as int) {
            Some((n, t)) => r == Some(TransferOutcome { transferred: n as usize, termination: t }),
            None => r is None,
        },
{
    if read == 0 {
        return Some(TransferOutcome::new(transferred, TransferTermination::SourceEnded));
    }
    if buf_len + read == cap {
        Some(TransferOutcome::new(transferred + read, TransferTermination::CapReached))
    } else {
        None
    }
}

/// The text `String::from_utf8_lossy` makes of `bytes`: invalid sequences
/// become U+FFFD. A function of the bytes alone.
pub uninterp spec fn utf8_lossy(bytes: Seq<u8>) -> Seq<char>;

/// std's `String::from_utf8_lossy`: the text named by `utf8_lossy`; when the
/// bytes are valid UTF-8 it is their text, as std documents.
#[verifier::external_body]
fn utf8_lossy_text(bytes: &[u8]) -> (r: String)
    ensures
        r@ == utf8_lossy(bytes@),
        valid_utf8(bytes@) ==> r@ == decode_utf8(bytes@),
{
    String::from_utf8_lossy(bytes).into_owned()
}

/// Appends the line bytes a `read_line` read to its text, with invalid
/// UTF-8 replaced.
pub fn append_lossy(buf: &mut String, bytes: &[u8])
    ensures
        final(buf)@ == old(buf)@ + utf8_lossy(bytes@),
        valid_utf8(bytes@) ==> final(buf)@ == old(buf)@ + decode_utf8(bytes@),
{
    let text = utf8_lossy_text(bytes);
    buf.append(text.as_str());
}

/// `i` is the first position of `d` in `s`.
pub open spec fn is_first_byte(s: Seq<u8>, d: u8, i: int) -> bool {
    &&& 0 <= i < s.len()
    &&& s[i] == d
    &&& forall|k: int| 0 <= k < i ==> s[k] != d
}

/// The position of the first `d` in `s`, if any.
pub open spec fn first_byte_index(s: Seq<u8>, d: u8) -> Option<int>
    decreases s.len(),
{
    if s.len() == 0 {
        None
    } else if s[0] == d {
        Some(0)
    } else {
        match first_byte_index(s.drop_first(), d) {
            Some(i) => Some(i + 1),
            None => None,
        }
    }
}

pub proof fn lemma_first_byte_index(s: Seq<u8>, d: u8)
    ensures
        match first_byte_index(s, d) {
            Some(i) => is_first_byte(s, d, i),
            None => !s.contains(d),
        },
    decreases s.len(),
{
    if s.len() > 0 && s[0] != d {
        let t = s.drop_first();
        lemma_first_byte_index(t, d);
        match first_byte_index(t, d) {
            Some(i) => {
                assert forall|k: int| 0 <= k < i + 1 implies s[k] != d by {
                    if k > 0 {
                        assert(s[k] == t[k - 1]);
                    }
                }
            },
            None => {
                assert forall|k: int| 0 <= k < s.len() implies s[k] != d by {
                    if k > 0 {
                        assert(s[k] == t[k - 1]);
                    }
                }
            },
        }
    }
}

/// With no `d` in `a`, the first `d` of `a + t` is the first of `t`, moved
/// past `a`.
pub proof fn lemma_first_byte_index_after(a: Seq<u8>, t: Seq<u8>, d: u8)
    requires
        !a.contains(d),
    ensures
        first_byte_index(a + t, d) == (match first_byte_index(t, d) {
            Some(i) => Some(i + a.len()),
            None => None::<int>,
        }),
    decreases a.len(),
{
    if a.len() > 0 {
        assert((a + t)[0] == a[0]);
        assert((a + t).drop_first() =~= a.drop_first() + t);
        assert(!a.drop_first().contains(d)) by {
            if a.drop_first().contains(d) {
                let k = choose|k: int| 0 <= k < a.drop_first().len() && a.drop_first()[k] == d;
                assert(a[k + 1] == d);
            }
        }
        lemma_first_byte_index_after(a.drop_first(), t, d);
    } else {
        assert(a + t =~= t);
    }
}

/// With its first `d` at `i` among the first `w` bytes, `s` has its first
/// `d` at `i`.
pub proof fn lemma_first_byte_index_prefix(s: Seq<u8>, w: int, d: u8, i: int)
    requires
        0 <= w <= s.len(),
        first_byte_index(s.take(w), d) == Some(i),
    ensures
        first_byte_index(s, d) == Some(i),
{
    lemma_first_byte_index(s.take(w), d);
    lemma_first_byte_index(s, d);
    assert(s[i] == s.take(w)[i]);
    match first_byte_index(s, d) {
        Some(j) => {
            if j < i {
                assert(s.take(w)[j] == s[j]);
            }
            if i < j {
                assert(s[i] == d);
            }
        },
        None => {
            assert(s.contains(d));
        },
    }
}

/// What `read_until` takes from the look-ahead bytes `a` (see
/// [`read_until_step`]): the bytes to append and consume, and the stopping
/// event if the read stops after them.
pub open spec fn until_step(a: Seq<u8>, d: u8, buf_len: int, cap: int) -> (int, Option<TransferTermination>) {
    if a.len() == 0 {
        (0, Some(TransferTermination::SourceEnded))
    } else {
        let w = within_cap(a.len() as int, buf_len, cap);
        match first_byte_index(a.take(w), d) {
            Some(i) => (i + 1, Some(TransferTermination::ConditionReached)),
            None => (w, if w == cap - buf_len { Some(TransferTermination::CapReached) } else { None }),
        }
    }
}

/// The part of the look-ahead buffer a capped delimiter read may take.
pub open spec fn within_cap(available_len: int, buf_len: int, cap: int) -> int {
    if available_len < cap - buf_len {
        available_len
    } else {
        cap - buf_len
    }
}

/// What `read_until` takes from the look-ahead bytes `available`, with
/// `buf_len` bytes already in the destination and the cap `cap`: the number
/// of leading bytes to append and consume, and the stopping event if the
/// read stops after them. Empty look-ahead means the source ended. Only the
/// bytes under the cap are searched; a delimiter among them ends the read
/// after it; otherwise all of them are taken, and filling the cap stops the
/// read.
pub fn read_until_step(available: &[u8], delimiter: u8, buf_len: usize, cap: usize) -> (r: (usize, Option<TransferTermination>))
    requires
        buf_len < cap,
    ensures
        r.0 <= available@.len(),
        r.0 <= cap - buf_len,
        available@.len() == 0 ==> r == (0usize, Some(TransferTermination::SourceEnded)),
        available@.len() > 0 ==> ({
            let within = within_cap(available@.len() as int, buf_len as int, cap as int);
            &&& (forall|i: int| is_first_byte(available@.take(within), delimiter, i) ==>
                r == ((i + 1) as usize, Some(TransferTermination::ConditionReached)))
            &&& (!available@.take(within).contains(delimiter) ==> r.0 == within && r.1 == (if within == cap - buf_len {
                Some(TransferTermination::CapReached)
            } else {
                None::<TransferTermination>
            }))
        }),
        r.0 == until_step(available@, delimiter, buf_len as int, cap as int).0,
        r.1 == until_step(available@, delimiter, buf_len as int, cap as int).1,
{
    if available.len() == 0 {
        return (0, Some(TransferTermination::SourceEnded));
    }
    let remaining = cap - buf_len;
    let within = if available.len() < remaining {
        available.len()
    } else {
        remaining
    };
    let ghost w = available@.take(within as int);
    assert(within as int == within_cap(available@.len() as int, buf_len as int, cap as int));
    proof {
        lemma_first_byte_index(w, delimiter);
    }
    let mut i: usize = 0;
    while i < within
        invariant
            i <= within <= available@.len(),
            within as int == within_cap(available@.len() as int, buf_len as int, cap as int),
            w == available@.take(within as int),
            forall|k: int| 0 <= k < i ==> w[k] != delimiter,
        decreases within - i,
    {
        if available[i] == delimiter {
            proof {
                lemma_first_byte_index(w, delimiter);
                assert(within as int == within_cap(available@.len() as int, buf_len as int, cap as int));
                assert(is_first_byte(w, delimiter, i as int));
                assert(w[i as int] == delimiter);
                assert(w.contains(delimiter));
                assert forall|j: int| is_first_byte(w, delimiter, j) implies j == i by {
                    if j < i {
                        assert(w[j] != delimiter);
                    }
                    if i < j {
                        assert(w[i as int] == delimiter);
                    }
                }
            }
            return (i + 1, Some(TransferTermination::ConditionReached));
        }
        i += 1;
    }
    proof {
        assert forall|j: int| !is_first_byte(w, delimiter, j) by {
        }
        assert(!w.contains(delimiter));
        lemma_first_byte_index(w, delimiter);
    }
    if within == remaining {
        (within, Some(TransferTermination::CapReached))
    } else {
        (within, None)
    }
}

/// `write_exact`: write the first `min(len, exact)` bytes of a `len`-byte
/// source. The source ends there when it is no longer than `exact`; else the
/// exact count is the condition reached. Returns the prefix length and the
/// outcome once that prefix is written.
pub fn write_exact_plan(len: usize, exact: usize) -> (r: (usize, TransferOutcome))
    ensures
        r.0 == (if len < exact { len } else { exact }),
        r.1 == (TransferOutcome {
            transferred: r.0,
            termination: if len <= exact {
                TransferTermination::SourceEnded
            } else {
                TransferTermination::ConditionReached
            },
        }),
{
    let transferred = if len < exact {
        len
    } else {
        exact
    };
    let termination = if len <= exact {
        TransferTermination::SourceEnded
    } else {
        TransferTermination::ConditionReached
    };
    (transferred, TransferOutcome::new(transferred, termination))
}

/// `write_all_capped`: a `len`-byte source longer than `cap` is refused
/// before any IO (`None`, outcome `(0, CapReached)`); otherwise all of it is
/// written (`Some(len)`, outcome `(len, SourceEnded)`).
pub fn write_all_capped_plan(len: usize, cap: usize) -> (r: (Option<usize>, TransferOutcome))
    ensures
        len > cap ==> r == (None::<usize>, TransferOutcome { transferred: 0, termination: TransferTermination::CapReached }),
        len <= cap ==> r == (Some(len), TransferOutcome { transferred: len, termination: TransferTermination::SourceEnded }),
{
    if len > cap {
        (None, TransferOutcome::new(0, TransferTermination::CapReached))
    } else {
        (Some(len), TransferOutcome::new(len, TransferTermination::SourceEnded))
    }
}

/// `write_until`: the source `buf` is written up to and including its first
/// `delimiter`, or whole when it has none. A prefix longer than `cap` is
/// refused before any IO (`None`, outcome `(0, CapReached)`).
pub fn write_until_plan(delimiter: u8, buf: &[u8], cap: usize) -> (r: (Option<usize>, TransferOutcome))
    ensures
        forall|i: int| is_first_byte(buf@, delimiter, i) ==> (if i + 1 > cap {
            r == (None::<usize>, TransferOutcome { transferred: 0, termination: TransferTermination::CapReached })
        } else {
            r == (Some((i + 1) as usize), TransferOutcome { transferred: (i + 1) as usize, termination: TransferTermination::ConditionReached })
        }),
        !buf@.contains(delimiter) ==> (if buf@.len() > cap {
            r == (None::<usize>, TransferOutcome { transferred: 0, termination: TransferTermination::CapReached })
        } else {
            r == (Some(buf@.len() as usize), TransferOutcome { transferred: buf@.len() as usize, termination: TransferTermination::SourceEnded })
        }),
{
    let mut i: usize = 0;
    while i < buf.len()
        invariant
            i <= buf@.len(),
            forall|k: int| 0 <= k < i ==> buf@[k] != delimiter,
        decreases buf.len() - i,
    {
        if buf[i] == delimiter {
            proof {
                assert forall|j: int| is_first_byte(buf@, delimiter, j) implies j == i by {
                    if j < i {
                        assert(buf@[j] != delimiter);
                    }
                    if i < j {
                        assert(buf@[i as int] == delimiter);
                    }
                }
            }
            let intended = i + 1;
            if intended > cap {
                return (None, TransferOutcome::new(0, TransferTermination::CapReached));
            }
            return (Some(intended), TransferOutcome::new(intended, TransferTermination::ConditionReached));
        }
        i += 1;
    }
    proof {
        assert forall|j: int| !is_first_byte(buf@, delimiter, j) by {
        }
    }
    let intended = buf.len();
    if intended > cap {
        (None, TransferOutcome::new(0, TransferTermination::CapReached))
    } else {
        (Some(intended), TransferOutcome::new(intended, TransferTermination::SourceEnded))
    }
}

/// A delimiter read run to its end over a buffered source that shows its
/// bytes in the non-empty look-ahead pieces `chunks` (an exhausted source
/// shows nothing): each step takes what [`until_step`] says from the piece
/// shown, appends and consumes it, and stops on its stopping event. Returns
/// the bytes transferred, the stopping event and the bytes appended.
pub open spec fn until_run(chunks: Seq<Seq<u8>>, d: u8, buf_len: int, cap: int) -> (int, TransferTermination, Seq<u8>)
    decreases chunks.len(),
{
    if chunks.len() == 0 {
        (0, TransferTermination::SourceEnded, Seq::empty())
    } else {
        let a = chunks[0];
        let st = until_step(a, d, buf_len, cap);
        match st.1 {
            Some(t) => (st.0, t, a.take(st.0)),
            None => {
                let rest = until_run(chunks.drop_first(), d, buf_len + st.0, cap);
                (st.0 + rest.0, rest.1, a.take(st.0) + rest.2)
            },
        }
    }
}

/// `read_until` over the look-ahead pieces `chunks`, into a buffer holding
/// `buf_len` bytes: a full buffer answers at once, else the steps run.
pub open spec fn read_until_outcome(chunks: Seq<Seq<u8>>, d: u8, buf_len: int, cap: int) -> (int, TransferTermination, Seq<u8>) {
    if buf_len >= cap {
        (0, TransferTermination::CapReached, Seq::empty())
    } else {
        until_run(chunks, d, buf_len, cap)
    }
}

/// The bytes of the source `s` a read with room for `r` bytes may look at.
pub open spec fn read_window(s: Seq<u8>, r: int) -> int {
    if s.len() < r { s.len() as int } else { r }
}

/// What a delimiter read takes from the source `s` when `r` more bytes fit:
/// through the first `d` among the first `min(r, |s|)` bytes; else `r` bytes
/// when the source has that many; else the whole source.
pub open spec fn until_closed(s: Seq<u8>, d: u8, r: int) -> (int, TransferTermination) {
    let m = read_window(s, r);
    match first_byte_index(s.take(m), d) {
        Some(k) => (k + 1, TransferTermination::ConditionReached),
        None => if s.len() >= r {
            (r, TransferTermination::CapReached)
        } else {
            (s.len() as int, TransferTermination::SourceEnded)
        },
    }
}

proof fn lemma_until_run(chunks: Seq<Seq<u8>>, d: u8, buf_len: int, cap: int)
    requires
        buf_len < cap,
        forall|i: int| 0 <= i < chunks.len() ==> (#[trigger] chunks[i]).len() > 0,
    ensures
        ({
            let o = until_run(chunks, d, buf_len, cap);
            let c = until_closed(chunks.flatten(), d, cap - buf_len);
            &&& o.0 == c.0
            &&& o.1 == c.1
            &&& 0 <= o.0 <= chunks.flatten().len()
            &&& o.0 <= cap - buf_len
            &&& o.2 == chunks.flatten().take(o.0)
        }),
    decreases chunks.len(),
{
    let s = chunks.flatten();
    let r = cap - buf_len;
    if chunks.len() == 0 {
        assert(s.take(0) =~= Seq::<u8>::empty());
    } else {
        let a = chunks[0];
        let t = chunks.drop_first().flatten();
        assert(s == a + t);
        assert(a.len() > 0);
        let w = within_cap(a.len() as int, buf_len, cap);
        let m = read_window(s, r);
        lemma_first_byte_index(a.take(w), d);
        assert((a + t).take(w) =~= a.take(w));
        match first_byte_index(a.take(w), d) {
            Some(i) => {
                assert(s.take(m).take(w) =~= a.take(w));
                lemma_first_byte_index_prefix(s.take(m), w, d, i);
                assert(a.take(i + 1) =~= s.take(i + 1));
            },
            None => {
                if w == r {
                    assert(s.take(m) =~= a.take(w));
                    assert(a.take(w) =~= s.take(w));
                } else {
                    assert(w == a.len());
                    assert(a.take(w) =~= a);
                    let rest_chunks = chunks.drop_first();
                    assert forall|i: int| 0 <= i < rest_chunks.len() implies (#[trigger] rest_chunks[i]).len() > 0 by {
                        assert(rest_chunks[i] == chunks[i + 1]);
                    }
                    lemma_until_run(rest_chunks, d, buf_len + w, cap);
                    let rest = until_run(rest_chunks, d, buf_len + w, cap);
                    let r2 = cap - (buf_len + w);
                    let m2 = read_window(t, r2);
                    assert(m == a.len() + m2);
                    assert(s.take(m) =~= a + t.take(m2));
                    lemma_first_byte_index_after(a, t.take(m2), d);
                    assert(a + t.take(rest.0) =~= s.take(a.len() + rest.0));
                }
            },
        }
    }
}

/// `read_until` over a whole buffered source. The source shows its bytes in
/// the non-empty look-ahead pieces `chunks`, whatever their sizes; `s` is
/// all of them in order, and `r` is what fits under the cap. A full buffer
/// takes nothing and reports the cap. Otherwise the read appends exactly
/// the first `n` bytes of the source (so `s[n..]` stays unread), and:
/// through the first delimiter among the first `min(r, |s|)` bytes, the
/// condition is reached after it; with none there, `r` bytes are taken and
/// the cap reached when the source has that many, else the whole source is
/// taken and it ended. The destination never grows past the cap.
pub proof fn law_read_until_source(chunks: Seq<Seq<u8>>, d: u8, buf_len: int, cap: int)
    requires
        0 <= buf_len,
        forall|i: int| 0 <= i < chunks.len() ==> (#[trigger] chunks[i]).len() > 0,
    ensures
        ({
            let s = chunks.flatten();
            let o = read_until_outcome(chunks, d, buf_len, cap);
            let r = cap - buf_len;
            let m = read_window(s, r);
            &&& 0 <= o.0 <= s.len()
            &&& o.2 == s.take(o.0)
            &&& buf_len >= cap ==> o.0 == 0 && o.1 == TransferTermination::CapReached
            &&& buf_len < cap ==> buf_len + o.0 <= cap
            &&& buf_len < cap ==> (forall|k: int| is_first_byte(s.take(m), d, k) ==>
                o.0 == k + 1 && o.1 == TransferTermination::ConditionReached)
            &&& buf_len < cap && !s.take(m).contains(d) && s.len() >= r ==>
                o.0 == r && o.1 == TransferTermination::CapReached
            &&& buf_len < cap && !s.take(m).contains(d) && s.len() < r ==>
                o.0 == s.len() && o.1 == TransferTermination::SourceEnded
        }),
{
    let s = chunks.flatten();
    if buf_len >= cap {
        assert(s.take(0) =~= Seq::<u8>::empty());
    } else {
        lemma_until_run(chunks, d, buf_len, cap);
        let r = cap - buf_len;
        let m = read_window(s, r);
        lemma_first_byte_index(s.take(m), d);
        assert forall|k: int| is_first_byte(s.take(m), d, k) implies
            read_until_outcome(chunks, d, buf_len, cap).0 == k + 1 by {
            match first_byte_index(s.take(m), d) {
                Some(j) => {
                    if j < k {
                        assert(s.take(m)[j] == d);
                    }
                    if k < j {
                        assert(s.take(m)[k] == d);
                    }
                },
                None => {
                    assert(s.take(m)[k] == d);
                },
            }
        }
    }
}

/// `read_line`: a `\n` read into a fresh buffer, so that the cap bounds
/// only the bytes of this line and not what the destination text already
/// holds. Over a source shown in the pieces `chunks`, the outcome and the
/// bytes taken are those of [`law_read_until_source`] with an empty buffer:
/// through the first `\n` among the first `min(cap, |s|)` bytes; else `cap`
/// bytes (cap reached) or the whole source (source ended). The text added is
/// the lossy decoding of those bytes, appended by [`append_lossy`].
pub proof fn law_read_line_source(chunks: Seq<Seq<u8>>, cap: int)
    requires
        forall|i: int| 0 <= i < chunks.len() ==> (#[trigger] chunks[i]).len() > 0,
    ensures
        ({
            let s = chunks.flatten();
            let o = read_until_outcome(chunks, 10u8, 0, cap);
            let m = read_window(s, cap);
            &&& 0 <= o.0 <= s.len()
            &&& o.2 == s.take(o.0)
            &&& cap <= 0 ==> o.0 == 0 && o.1 == TransferTermination::CapReached
            &&& cap > 0 ==> o.0 <= cap
            &&& cap > 0 ==> (forall|k: int| is_first_byte(s.take(m), 10u8, k) ==>
                o.0 == k + 1 && o.1 == TransferTermination::ConditionReached)
            &&& cap > 0 && !s.take(m).contains(10u8) && s.len() >= cap ==>
                o.0 == cap && o.1 == TransferTermination::CapReached
            &&& cap > 0 && !s.take(m).contains(10u8) && s.len() < cap ==>
                o.0 == s.len() && o.1 == TransferTermination::SourceEnded
        }),
{
    law_read_until_source(chunks, 10u8, 0, cap);
    assert(cap - 0 == cap);
}

/// How many bytes one raw read of `read_to_end` returns from the rest `src`
/// of the source when it asks for `request`: the reader returns at most
/// what was asked and what remains, at least one byte while any remains,
/// and as many as its own next limit in `limits` (all it may when its
/// limits run out).
pub open spec fn to_end_count(src_len: int, request: int, limits: Seq<int>) -> int {
    if src_len == 0 {
        0
    } else {
        let want = if limits.len() > 0 { limits[0] } else { request };
        if want < request && want < src_len {
            want
        } else if request < src_len {
            request
        } else {
            src_len
        }
    }
}

/// The reader's limits after one read.
pub open spec fn later_limits(limits: Seq<int>) -> Seq<int> {
    if limits.len() > 0 { limits.drop_first() } else { limits }
}

/// `read_to_end`'s loop run over the rest `src` of a source: each raw read
/// asks for [`to_end_request`] bytes, gets [`to_end_count`] of them, appends
/// them, and [`to_end_step`] decides. Returns the bytes transferred, the
/// stopping event and the bytes appended.
pub open spec fn to_end_run(src: Seq<u8>, limits: Seq<int>, buf_len: int, cap: int, transferred: int) -> (int, TransferTermination, Seq<u8>)
    decreases src.len(),
{
    let k = to_end_count(src.len() as int, to_end_request(buf_len, cap), limits);
    match to_end_step(buf_len, cap, transferred, k) {
        Some((n, t)) => (n, t, src.take(k)),
        None => if 0 < k <= src.len() {
            let rest = to_end_run(src.skip(k), later_limits(limits), buf_len + k, cap, transferred + k);
            (rest.0, rest.1, src.take(k) + rest.2)
        } else {
            (transferred, TransferTermination::SourceEnded, Seq::empty())
        },
    }
}

/// `read_to_end` over the source `src`, into a buffer holding `buf_len`
/// bytes: a full buffer answers at once, else the reads run.
pub open spec fn read_to_end_outcome(src: Seq<u8>, limits: Seq<int>, buf_len: int, cap: int) -> (int, TransferTermination, Seq<u8>) {
    if buf_len >= cap {
        (0, TransferTermination::CapReached, Seq::empty())
    } else {
        to_end_run(src, limits, buf_len, cap, 0)
    }
}

proof fn lemma_to_end_run(src: Seq<u8>, limits: Seq<int>, buf_len: int, cap: int, transferred: int)
    requires
        buf_len < cap,
        forall|i: int| 0 <= i < limits.len() ==> #[trigger] limits[i] > 0,
    ensures
        src.len() >= cap - buf_len ==> to_end_run(src, limits, buf_len, cap, transferred) == (transferred + (cap - buf_len),
            TransferTermination::CapReached, src.take(cap - buf_len)),
        src.len() < cap - buf_len ==> to_end_run(src, limits, buf_len, cap, transferred) == (transferred + src.len(),
            TransferTermination::SourceEnded, src),
    decreases src.len(),
{
    let k = to_end_count(src.len() as int, to_end_request(buf_len, cap), limits);
    if src.len() == 0 {
        assert(src.take(0) =~= src);
    } else {
        assert(0 < k <= src.len());
        assert(k <= cap - buf_len);
        if buf_len + k < cap {
            let ls = later_limits(limits);
            assert forall|i: int| 0 <= i < ls.len() implies #[trigger] ls[i] > 0 by {
                assert(ls[i] == limits[i + 1]);
            }
            lemma_to_end_run(src.skip(k), ls, buf_len + k, cap, transferred + k);
            let r = cap - buf_len;
            if src.len() >= r {
                assert(src.take(k) + src.skip(k).take(r - k) =~= src.take(r));
            } else {
                assert(src.take(k) + src.skip(k) =~= src);
            }
        }
    }
}

/// `read_to_end` over a whole source `src`, whatever amounts each raw read
/// returns (at most what was asked, at least one byte until the source
/// ends; `limits` holds them, all positive). With `r` bytes fitting under
/// the cap: a full buffer takes nothing and reports the cap; a source of at
/// least `r` bytes gives its first `r` bytes and the cap, with no further
/// read to probe for its end; a shorter source is taken whole and ends.
/// What is appended is always the first bytes of the source.
pub proof fn law_read_to_end_source(src: Seq<u8>, limits: Seq<int>, buf_len: int, cap: int)
    requires
        0 <= buf_len,
        forall|i: int| 0 <= i < limits.len() ==> #[trigger] limits[i] > 0,
    ensures
        ({
            let o = read_to_end_outcome(src, limits, buf_len, cap);
            let r = cap - buf_len;
            &&& buf_len >= cap ==> o == (0int, TransferTermination::CapReached, Seq::<u8>::empty())
            &&& buf_len < cap && src.len() >= r ==> o == (r, TransferTermination::CapReached, src.take(r))
            &&& buf_len < cap && src.len() < r ==> o == (src.len() as int, TransferTermination::SourceEnded, src)
        }),
{
    if buf_len < cap {
        lemma_to_end_run(src, limits, buf_len, cap, 0);
    }
}

} // verus!
