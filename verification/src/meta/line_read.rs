//! A header block read line by line: what the reads and the per-line
//! decisions give over a whole source.
use vstd::prelude::*;
use vstd::utf8::{decode_utf8, encode_scalar, encode_utf8, encode_utf8_decode_utf8, encode_utf8_valid_utf8, has_width_1_encoding, has_width_2_encoding, has_width_3_encoding, is_scalar, leading_byte_width_1, leading_byte_width_2, leading_byte_width_3, leading_byte_width_4, last_continuation_byte, second_last_continuation_byte, third_last_continuation_byte, char_is_scalar, char_u32_cast, valid_utf8};
use crate::meta::error::MetaError;
use crate::meta::stream::{HeaderLimits, strip_line_break, utf8_len};
use crate::transfer::{TransferTermination, first_byte_index, lemma_first_byte_index, lemma_first_byte_index_after, read_window, until_closed, utf8_lossy};

verus! {

/// The UTF-8 encoding of a concatenation is the concatenation of the
/// encodings.
pub proof fn lemma_encode_utf8_concat(a: Seq<char>, b: Seq<char>)
    ensures
        encode_utf8(a + b) == encode_utf8(a) + encode_utf8(b),
    decreases a.len(),
{
    if a.len() > 0 {
        assert((a + b)[0] == a[0]);
        assert((a + b).drop_first() =~= a.drop_first() + b);
        lemma_encode_utf8_concat(a.drop_first(), b);
        assert(encode_utf8(a + b) =~= encode_utf8(a) + encode_utf8(b));
    } else {
        assert(a + b =~= b);
        assert(encode_utf8(a) =~= Seq::<u8>::empty());
        assert(encode_utf8(a) + encode_utf8(b) =~= encode_utf8(b));
    }
}

/// A line break is written as the two bytes 13, 10.
pub proof fn lemma_encode_crlf()
    ensures
        encode_utf8(seq!['\r', '\n']) == seq![13u8, 10u8],
{
    let s = seq!['\r', '\n'];
    assert(s.drop_first() =~= seq!['\n']);
    assert(seq!['\n'].drop_first() =~= Seq::<char>::empty());
    assert(('\r' as u32) == 13u32);
    assert(('\n' as u32) == 10u32);
    assert(leading_byte_width_1(13u32) == 13u8) by (bit_vector);
    assert(leading_byte_width_1(10u32) == 10u8) by (bit_vector);
    assert(encode_scalar('\r' as u32) =~= seq![13u8]);
    assert(encode_scalar('\n' as u32) =~= seq![10u8]);
    assert(encode_utf8(Seq::<char>::empty()) =~= Seq::<u8>::empty());
    assert(seq!['\n'][0] == '\n');
    assert(s[0] == '\r');
    assert(encode_utf8(seq!['\n']) == encode_scalar('\n' as u32) + encode_utf8(seq!['\n'].drop_first()));
    assert(encode_utf8(seq!['\n']) =~= seq![10u8]);
    assert(encode_utf8(s) =~= seq![13u8, 10u8]);
}

proof fn lemma_encode_scalar_no_lf(v: u32)
    requires
        is_scalar(v),
        v != 10,
    ensures
        !encode_scalar(v).contains(10u8),
{
    if has_width_1_encoding(v) {
        assert(leading_byte_width_1(v) != 10u8) by (bit_vector)
            requires
                v <= 0x7F,
                v != 10,
        ;
        assert(encode_scalar(v) =~= seq![leading_byte_width_1(v)]);
    } else {
        assert(leading_byte_width_2(v) != 10u8) by (bit_vector);
        assert(leading_byte_width_3(v) != 10u8) by (bit_vector);
        assert(leading_byte_width_4(v) != 10u8) by (bit_vector);
        assert(last_continuation_byte(v) != 10u8) by (bit_vector);
        assert(second_last_continuation_byte(v) != 10u8) by (bit_vector);
        assert(third_last_continuation_byte(v) != 10u8) by (bit_vector);
        let e = encode_scalar(v);
        assert forall|k: int| 0 <= k < e.len() implies e[k] != 10u8 by {
            if has_width_2_encoding(v) {
            } else if has_width_3_encoding(v) {
            } else {
            }
        }
    }
}

/// Text without a line feed is written without the byte 10.
pub proof fn lemma_encode_no_lf(l: Seq<char>)
    requires
        !l.contains('\n'),
    ensures
        !encode_utf8(l).contains(10u8),
    decreases l.len(),
{
    if l.len() > 0 {
        char_is_scalar(l[0]);
        assert(l[0] != '\n');
        assert((l[0] as u32) != 10u32) by {
            assert(('\n' as u32) == 10u32);
            if (l[0] as u32) == 10u32 {
                char_u32_cast(l[0], 10u32);
                char_u32_cast('\n', 10u32);
            }
        }
        lemma_encode_scalar_no_lf(l[0] as u32);
        assert(!l.drop_first().contains('\n')) by {
            if l.drop_first().contains('\n') {
                let k = choose|k: int| 0 <= k < l.drop_first().len() && l.drop_first()[k] == '\n';
                assert(l[k + 1] == '\n');
            }
        }
        lemma_encode_no_lf(l.drop_first());
        let a = encode_scalar(l[0] as u32);
        let b = encode_utf8(l.drop_first());
        assert(encode_utf8(l) == a + b);
        assert forall|k: int| 0 <= k < (a + b).len() implies (a + b)[k] != 10u8 by {
            if k < a.len() {
                assert((a + b)[k] == a[k]);
            } else {
                assert((a + b)[k] == b[k - a.len()]);
            }
        }
    } else {
        assert(encode_utf8(l) =~= Seq::<u8>::empty());
    }
}

/// The text a line read adds for the bytes it took: their own text when
/// they are valid UTF-8, else the lossy one (see `append_lossy`).
pub open spec fn line_text(b: Seq<u8>) -> Seq<char> {
    if valid_utf8(b) {
        decode_utf8(b)
    } else {
        utf8_lossy(b)
    }
}

/// What one `read_line` with the cap `cap` takes from the source `s`: the
/// bytes read and the stopping event (a `\n` read into an empty buffer).
pub open spec fn line_read(s: Seq<u8>, cap: int) -> (int, TransferTermination) {
    if cap <= 0 {
        (0, TransferTermination::CapReached)
    } else {
        until_closed(s, 10u8, cap)
    }
}

/// A header block read line by line from the source `s`, `total` bytes and
/// `count` lines having been kept: each line is read with the line-length
/// cap and decided as `head_line_step` does, until an empty line, the end
/// of the source, or an error.
pub open spec fn head_read(s: Seq<u8>, limits: HeaderLimits, total: int, count: int) -> Result<Seq<Seq<char>>, MetaError>
    decreases s.len(),
{
    let c = line_read(s, limits.max_line_length as int);
    let text = line_text(s.take(c.0));
    if c.1 == TransferTermination::CapReached {
        Err(MetaError::HeaderLineTooLong)
    } else if c.0 == 0 || strip_line_break(text).len() == 0 {
        Ok(Seq::empty())
    } else if total + c.0 > limits.max_header_size {
        Err(MetaError::HeadersTooLarge)
    } else if count > limits.max_headers {
        Err(MetaError::TooManyHeaders)
    } else if 0 < c.0 <= s.len() {
        match head_read(s.skip(c.0), limits, total + c.0, count + 1) {
            Ok(ls) => Ok(seq![strip_line_break(text)] + ls),
            Err(e) => Err(e),
        }
    } else {
        Ok(Seq::empty())
    }
}

/// Header lines written one after another, each followed by `\r\n`.
pub open spec fn block_bytes(ls: Seq<Seq<char>>) -> Seq<u8>
    decreases ls.len(),
{
    if ls.len() == 0 {
        Seq::empty()
    } else {
        encode_utf8(ls[0]) + seq![13u8, 10u8] + block_bytes(ls.drop_first())
    }
}

/// The bytes of header lines with their line breaks.
pub open spec fn lines_bytes(ls: Seq<Seq<char>>) -> int
    decreases ls.len(),
{
    if ls.len() == 0 {
        0
    } else {
        encode_utf8(ls[0]).len() + 2 + lines_bytes(ls.drop_first())
    }
}

/// The lines `ls` and the blank line after them pass the header limits,
/// read line by line after `total` bytes and `count` lines: each line with
/// its line break fits the line cap (the blank line too), the block fits
/// the size limit, and no line comes after `max_headers` lines.
pub open spec fn block_within_limits(ls: Seq<Seq<char>>, limits: HeaderLimits, total: int, count: int) -> bool {
    &&& forall|i: int| 0 <= i < ls.len() ==> encode_utf8(#[trigger] ls[i]).len() + 2 <= limits.max_line_length
    &&& 2 <= limits.max_line_length
    &&& total + lines_bytes(ls) <= limits.max_header_size
    &&& (ls.len() == 0 || count + ls.len() - 1 <= limits.max_headers)
}

/// What reading the header lines `ls` line by line gives: the first limit a
/// line breaks (too long for the line cap, the block too large, too many
/// lines), else the lines; the blank line ending the block must fit the
/// line cap too.
pub open spec fn head_expected(ls: Seq<Seq<char>>, limits: HeaderLimits, total: int, count: int) -> Result<Seq<Seq<char>>, MetaError>
    decreases ls.len(),
{
    if ls.len() == 0 {
        if limits.max_line_length < 2 {
            Err(MetaError::HeaderLineTooLong)
        } else {
            Ok(Seq::empty())
        }
    } else {
        let n = encode_utf8(ls[0]).len() + 2;
        if n > limits.max_line_length {
            Err(MetaError::HeaderLineTooLong)
        } else if total + n > limits.max_header_size {
            Err(MetaError::HeadersTooLarge)
        } else if count > limits.max_headers {
            Err(MetaError::TooManyHeaders)
        } else {
            match head_expected(ls.drop_first(), limits, total + n, count + 1) {
                Ok(v) => Ok(seq![ls[0]] + v),
                Err(e) => Err(e),
            }
        }
    }
}

/// A header line: no line feed or carriage return.
pub open spec fn is_bare_line(l: Seq<char>) -> bool {
    !l.contains('\n') && !l.contains('\r')
}

/// One line read over a line `l` written with its line break, followed by
/// anything: within the cap it takes exactly that line and gives its text
/// with the break; over the cap it stops at the cap.
proof fn lemma_line_read_line(l: Seq<char>, t: Seq<u8>, cap: int)
    requires
        is_bare_line(l),
    ensures
        ({
            let b = encode_utf8(l) + seq![13u8, 10u8];
            let s = b + t;
            &&& cap >= b.len() ==> line_read(s, cap) == (b.len() as int, TransferTermination::ConditionReached)
            &&& s.take(b.len() as int) == b
            &&& s.skip(b.len() as int) == t
            &&& line_text(b) == l + seq!['\r', '\n']
            &&& strip_line_break(l + seq!['\r', '\n']) == l
            &&& cap < b.len() ==> line_read(s, cap).1 == TransferTermination::CapReached
        }),
{
    let e = encode_utf8(l);
    let b = e + seq![13u8, 10u8];
    let s = b + t;
    lemma_encode_no_lf(l);
    let p = e.push(13u8);
    assert(!p.contains(10u8)) by {
        if p.contains(10u8) {
            let k = choose|k: int| 0 <= k < p.len() && p[k] == 10u8;
            if k < e.len() {
                assert(e[k] == p[k]);
            }
        }
    }
    assert(s.take(b.len() as int) =~= b);
    assert(s.skip(b.len() as int) =~= t);
    lemma_encode_crlf();
    lemma_encode_utf8_concat(l, seq!['\r', '\n']);
    encode_utf8_valid_utf8(l + seq!['\r', '\n']);
    encode_utf8_decode_utf8(l + seq!['\r', '\n']);
    assert(b == encode_utf8(l + seq!['\r', '\n']));
    let lc = l + seq!['\r', '\n'];
    assert(lc.drop_last() =~= l + seq!['\r']);
    assert((l + seq!['\r']).drop_last() =~= l);
    if cap >= b.len() {
        let m = read_window(s, cap);
        let q = s.take(m).skip(p.len() as int);
        assert(s.take(m) =~= p + q);
        assert(q[0] == 10u8);
        lemma_first_byte_index_after(p, q, 10u8);
    } else if cap > 0 {
        assert(read_window(s, cap) == cap);
        assert(s.take(cap) =~= p.take(cap));
        lemma_first_byte_index(s.take(cap), 10u8);
        if first_byte_index(s.take(cap), 10u8) is Some {
            let i = first_byte_index(s.take(cap), 10u8)->Some_0;
            assert(p[i] == 10u8);
        }
    }
}

proof fn lemma_head_read(ls: Seq<Seq<char>>, t: Seq<u8>, limits: HeaderLimits, total: int, count: int)
    requires
        forall|i: int| 0 <= i < ls.len() ==> (#[trigger] ls[i]).len() > 0 && is_bare_line(ls[i]),
    ensures
        head_read(block_bytes(ls) + seq![13u8, 10u8] + t, limits, total, count) == head_expected(ls, limits, total, count),
    decreases ls.len(),
{
    let s = block_bytes(ls) + seq![13u8, 10u8] + t;
    if ls.len() == 0 {
        let e = Seq::<char>::empty();
        assert(encode_utf8(e) =~= Seq::<u8>::empty());
        assert(is_bare_line(e));
        lemma_line_read_line(e, t, limits.max_line_length as int);
        assert(encode_utf8(e) + seq![13u8, 10u8] =~= seq![13u8, 10u8]);
        assert(s =~= seq![13u8, 10u8] + t);
        assert(e + seq!['\r', '\n'] =~= seq!['\r', '\n']);
    } else {
        let l = ls[0];
        let rest = ls.drop_first();
        let tt = block_bytes(rest) + seq![13u8, 10u8] + t;
        let b = encode_utf8(l) + seq![13u8, 10u8];
        assert(s =~= b + tt);
        lemma_line_read_line(l, tt, limits.max_line_length as int);
        assert forall|i: int| 0 <= i < rest.len() implies (#[trigger] rest[i]).len() > 0 && is_bare_line(rest[i]) by {
            assert(rest[i] == ls[i + 1]);
        }
        lemma_head_read(rest, t, limits, total + b.len(), count + 1);
    }
}

proof fn lemma_head_expected(ls: Seq<Seq<char>>, limits: HeaderLimits, total: int, count: int)
    requires
        0 <= count,
        0 <= total <= limits.max_header_size,
    ensures
        head_expected(ls, limits, total, count) is Ok <==> block_within_limits(ls, limits, total, count),
        head_expected(ls, limits, total, count) is Ok ==> head_expected(ls, limits, total, count) == Ok::<Seq<Seq<char>>, MetaError>(ls),
        head_expected(ls, limits, total, count) matches Err(e) ==> (e is HeaderLineTooLong || e is HeadersTooLarge || e is TooManyHeaders),
    decreases ls.len(),
{
    if ls.len() == 0 {
        assert(lines_bytes(ls) == 0);
        assert(ls =~= Seq::<Seq<char>>::empty());
    } else {
        let rest = ls.drop_first();
        let n = encode_utf8(ls[0]).len() + 2;
        lemma_lines_bytes_nonneg(rest);
        assert(lines_bytes(ls) == n + lines_bytes(rest));
        if n <= limits.max_line_length && total + n <= limits.max_header_size && count <= limits.max_headers {
            lemma_head_expected(rest, limits, total + n, count + 1);
            if block_within_limits(ls, limits, total, count) {
                assert forall|i: int| 0 <= i < rest.len() implies encode_utf8(#[trigger] rest[i]).len() + 2 <= limits.max_line_length by {
                    assert(rest[i] == ls[i + 1]);
                }
                assert(block_within_limits(rest, limits, total + n, count + 1));
            }
            if block_within_limits(rest, limits, total + n, count + 1) {
                assert forall|i: int| 0 <= i < ls.len() implies encode_utf8(#[trigger] ls[i]).len() + 2 <= limits.max_line_length by {
                    if i > 0 {
                        assert(ls[i] == rest[i - 1]);
                    }
                }
                assert(block_within_limits(ls, limits, total, count));
            }
            assert(seq![ls[0]] + rest =~= ls);
        } else {
            if block_within_limits(ls, limits, total, count) {
                assert(encode_utf8(ls[0]).len() + 2 <= limits.max_line_length);
            }
        }
    }
}

proof fn lemma_lines_bytes_nonneg(ls: Seq<Seq<char>>)
    ensures
        lines_bytes(ls) >= 0,
    decreases ls.len(),
{
    if ls.len() > 0 {
        lemma_lines_bytes_nonneg(ls.drop_first());
    }
}

/// A header block read line by line: header lines `ls` (non-empty, without
/// line breaks), each written with `\r\n`, then the blank line, then
/// anything. The read gives back exactly `ls`, in order and without their
/// line breaks, when the block passes the limits line by line; otherwise it
/// fails with the limit broken first (a line too long for the line cap,
/// the block too large, too many lines), and with no other error.
pub proof fn law_header_block_read(ls: Seq<Seq<char>>, rest: Seq<u8>, limits: HeaderLimits)
    requires
        forall|i: int| 0 <= i < ls.len() ==> (#[trigger] ls[i]).len() > 0 && is_bare_line(ls[i]),
    ensures
        head_read(block_bytes(ls) + seq![13u8, 10u8] + rest, limits, 0, 0) == head_expected(ls, limits, 0, 0),
        block_within_limits(ls, limits, 0, 0) ==> head_expected(ls, limits, 0, 0) == Ok::<Seq<Seq<char>>, MetaError>(ls),
        !block_within_limits(ls, limits, 0, 0) ==> (head_expected(ls, limits, 0, 0) matches Err(e)
            && (e is HeaderLineTooLong || e is HeadersTooLarge || e is TooManyHeaders)),
{
    lemma_head_read(ls, rest, limits, 0, 0);
    lemma_head_expected(ls, limits, 0, 0);
}

} // verus!
