use hotaru::meta::stream::{head_line_step, HeadLineStep, HeaderLimits};
use hotaru::meta::MetaError;
use hotaru::transfer::{
    append_lossy, capped_read_start, read_to_end_request, read_to_end_step, read_until_step, TransferOutcome,
    TransferTermination,
};

use TransferTermination::{CapReached, ConditionReached, SourceEnded};

/// A buffered source that shows its bytes in the given pieces.
struct Pieces {
    pieces: Vec<Vec<u8>>,
    at: usize,
}

impl Pieces {
    fn new(pieces: &[&[u8]]) -> Self {
        Pieces { pieces: pieces.iter().map(|p| p.to_vec()).filter(|p| !p.is_empty()).collect(), at: 0 }
    }

    fn fill_buf(&self) -> &[u8] {
        match self.pieces.first() {
            Some(p) => &p[self.at..],
            None => &[],
        }
    }

    fn consume(&mut self, n: usize) {
        self.at += n;
        if let Some(p) = self.pieces.first() {
            if self.at == p.len() {
                self.pieces.remove(0);
                self.at = 0;
            }
        }
    }

    fn read_until(&mut self, delimiter: u8, buf: &mut Vec<u8>, cap: usize) -> TransferOutcome {
        if let Some(outcome) = capped_read_start(buf.len(), cap) {
            return outcome;
        }
        let mut transferred = 0;
        loop {
            let available = self.fill_buf().to_vec();
            let (used, termination) = read_until_step(&available, delimiter, buf.len(), cap);
            buf.extend_from_slice(&available[..used]);
            self.consume(used);
            transferred += used;
            if let Some(termination) = termination {
                return TransferOutcome::new(transferred, termination);
            }
        }
    }

    fn read_line(&mut self, buf: &mut String, cap: usize) -> TransferOutcome {
        let mut bytes = Vec::new();
        let outcome = self.read_until(b'\n', &mut bytes, cap);
        append_lossy(buf, &bytes);
        outcome
    }

    fn unread(&self) -> Vec<u8> {
        let mut out = Vec::new();
        for (i, p) in self.pieces.iter().enumerate() {
            out.extend_from_slice(if i == 0 { &p[self.at..] } else { p });
        }
        out
    }
}

/// `read_to_end` over a source whose reads return at most `step` bytes.
fn read_to_end(source: &[u8], step: usize, buf: &mut Vec<u8>, cap: usize) -> TransferOutcome {
    if let Some(outcome) = capped_read_start(buf.len(), cap) {
        return outcome;
    }
    let mut pos = 0;
    let mut transferred = 0;
    loop {
        let request = read_to_end_request(buf.len(), cap);
        let read = request.min(step).min(source.len() - pos);
        let before = buf.len();
        buf.extend_from_slice(&source[pos..pos + read]);
        pos += read;
        if let Some(outcome) = read_to_end_step(before, cap, transferred, read) {
            return outcome;
        }
        transferred += read;
    }
}

#[test]
fn read_until_over_pieces_stops_after_the_first_delimiter() {
    let mut source = Pieces::new(&[b"ab", b"c\n", b"xyz"]);
    let mut buf = b"<".to_vec();
    let outcome = source.read_until(b'\n', &mut buf, 10);
    assert_eq!(outcome, TransferOutcome::new(4, ConditionReached));
    assert_eq!(buf, b"<abc\n");
    assert_eq!(source.unread(), b"xyz");
}

#[test]
fn read_until_delimiter_in_the_last_byte_under_the_cap_is_the_condition() {
    let mut source = Pieces::new(&[b"abc\n"]);
    let mut buf = Vec::new();
    assert_eq!(source.read_until(b'\n', &mut buf, 4), TransferOutcome::new(4, ConditionReached));
}

#[test]
fn read_until_over_pieces_fills_the_cap_or_ends_with_the_source() {
    let mut source = Pieces::new(&[b"ab", b"cd", b"ef"]);
    let mut buf = Vec::new();
    assert_eq!(source.read_until(b'\n', &mut buf, 5), TransferOutcome::new(5, CapReached));
    assert_eq!(buf, b"abcde");
    assert_eq!(source.unread(), b"f");

    let mut source = Pieces::new(&[b"ab"]);
    let mut buf = Vec::new();
    assert_eq!(source.read_until(b'\n', &mut buf, 10), TransferOutcome::new(2, SourceEnded));

    let mut source = Pieces::new(&[b"ab"]);
    let mut buf = b"full".to_vec();
    assert_eq!(source.read_until(b'\n', &mut buf, 4), TransferOutcome::new(0, CapReached));
    assert_eq!(source.unread(), b"ab");
}

#[test]
fn read_to_end_takes_the_source_or_the_cap_whatever_the_read_sizes() {
    for step in [1, 4, 1024] {
        let mut buf = Vec::new();
        assert_eq!(read_to_end(b"complete source", step, &mut buf, 32), TransferOutcome::new(15, SourceEnded));
        assert_eq!(buf, b"complete source");

        let mut buf = b"ab".to_vec();
        assert_eq!(read_to_end(b"complete source", step, &mut buf, 10), TransferOutcome::new(8, CapReached));
        assert_eq!(buf, b"abcomplete");
    }
}

#[test]
fn read_line_counts_only_the_new_bytes_and_replaces_invalid_utf8() {
    let mut source = Pieces::new(&[b"h\xffi\nnext"]);
    let mut line = "previous text".to_string();
    assert_eq!(source.read_line(&mut line, 4), TransferOutcome::new(4, ConditionReached));
    assert_eq!(line, "previous texth\u{FFFD}i\n");
    assert_eq!(source.unread(), b"next");
}

fn read_block(source: &mut Pieces, limits: &HeaderLimits) -> Result<Vec<String>, MetaError> {
    let mut headers = Vec::new();
    let mut total = 0;
    loop {
        let mut line = String::new();
        let outcome = source.read_line(&mut line, limits.effective_line_length());
        match head_line_step(&line, outcome, total, headers.len(), limits)? {
            HeadLineStep::End => return Ok(headers),
            HeadLineStep::Line(text, new_total) => {
                total = new_total;
                headers.push(text);
            }
        }
    }
}

#[test]
fn header_block_read_line_by_line_gives_its_lines() {
    let limits = HeaderLimits { max_line_length: 64, max_header_size: 256, max_headers: 4 };
    let mut source = Pieces::new(&[b"a: 1\r\nb: ", b"2\r\n\r\nbody"]);
    assert_eq!(read_block(&mut source, &limits).unwrap(), vec!["a: 1".to_string(), "b: 2".to_string()]);
    assert_eq!(source.unread(), b"body");
}

#[test]
fn header_block_read_line_by_line_reports_the_limit_broken() {
    let short = HeaderLimits { max_line_length: 5, max_header_size: 256, max_headers: 4 };
    let mut source = Pieces::new(&[b"abcd\r\n\r\n"]);
    assert_eq!(read_block(&mut source, &short), Err(MetaError::HeaderLineTooLong));

    let small = HeaderLimits { max_line_length: 64, max_header_size: 10, max_headers: 4 };
    let mut source = Pieces::new(&[b"a: 1\r\nb: 2\r\n\r\n"]);
    assert_eq!(read_block(&mut source, &small), Err(MetaError::HeadersTooLarge));

    let few = HeaderLimits { max_line_length: 64, max_header_size: 256, max_headers: 0 };
    let mut source = Pieces::new(&[b"a: 1\r\nb: 2\r\n\r\n"]);
    assert_eq!(read_block(&mut source, &few), Err(MetaError::TooManyHeaders));
}
