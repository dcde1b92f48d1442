use hotaru::body::read::{add_chunk, chunk_size, chunk_terminator, BodyFraming};
use hotaru::body::{BodyError, BodyLimits, ChunkingError, CompressionError, HttpBody, HttpError};
use hotaru::context::prepare_send;
use hotaru::header::{HeaderMap, HeaderValue};
use hotaru::http_value::HttpContentType;
use hotaru::meta::{HttpMeta, MetaError};
use hotaru::transfer::{TransferOutcome, TransferTermination};
use hotaru::util::{EncodingError, HttpEncoding};

fn buffer(data: &[u8], content_type: &str, codings: &[&str]) -> HttpBody {
    HttpBody::Buffer {
        data: data.to_vec(),
        content_type: HttpContentType::from_str(content_type),
        content_coding: codings.iter().map(|s| s.to_string()).collect(),
    }
}

#[test]
fn buffers_parse_by_content_type() {
    let limits = BodyLimits::new();
    assert!(matches!(buffer(b"hi", "text/plain; charset=utf-8", &[]).parse_buffer(&limits), Ok(HttpBody::Text(ref t)) if t == "hi"));
    assert!(matches!(buffer(b"a=1", "application/x-www-form-urlencoded", &[]).parse_buffer(&limits), Ok(HttpBody::Form(ref d)) if d == b"a=1"));
    assert!(matches!(buffer(b"--x--", "multipart/form-data; boundary=x", &[]).parse_buffer(&limits), Ok(HttpBody::Files { ref boundary, .. }) if boundary == "x"));
    assert!(matches!(buffer(b"\x00\x01", "image/png", &[]).parse_buffer(&limits), Ok(HttpBody::Binary(ref d)) if d == &vec![0u8, 1u8]));
    assert!(matches!(buffer(b"x", "text/html", &["identity"]).parse_buffer(&limits), Ok(HttpBody::Text(_))));
    assert!(matches!(HttpBody::Empty.parse_buffer(&limits), Ok(HttpBody::Empty)));
}

#[test]
fn buffer_errors() {
    let limits = BodyLimits::new();
    match buffer(b"--x--", "multipart/form-data", &[]).parse_buffer(&limits) {
        Err(BodyError::InvalidMultipart(m)) => assert_eq!(m, "multipart/form-data boundary is missing"),
        other => panic!("unexpected {other:?}"),
    }
    assert!(matches!(buffer(b"{", "application/json", &[]).parse_buffer(&limits), Err(BodyError::InvalidJson(_))));
    assert!(matches!(buffer(b"\xff", "text/plain", &[]).parse_buffer(&limits), Err(BodyError::InvalidUtf8)));
    assert!(matches!(buffer(b"x", "text/plain", &["gzip"]).parse_buffer(&limits), Err(BodyError::InvalidEncoding)));
}

#[test]
fn raw_gives_only_binary_bytes() {
    assert_eq!(HttpBody::Binary(vec![1, 2]).raw(), vec![1, 2]);
    assert!(HttpBody::Text("x".to_string()).raw().is_empty());
    assert!(matches!(HttpBody::default(), HttpBody::Unparsed));
}

#[test]
fn serializes_text_and_sets_body_metadata() {
    let mut meta = HttpMeta::default();

    let body = HttpBody::Text("hello".to_string()).into_static(&mut meta).unwrap();

    assert_eq!(body, b"hello");
    assert_eq!(meta.get_content_length().unwrap(), Some(5));
    assert_eq!(meta.get_content_type().unwrap().media_type(), "text/html");
}

#[test]
fn returns_content_coding_failure() {
    let mut meta = HttpMeta::default();
    meta.set_encoding(Some(HttpEncoding::from_headers(None, Some("compress".to_string()))));

    let result = HttpBody::Text("hello".to_string()).into_static(&mut meta);

    assert!(matches!(result, Err(BodyError::InvalidEncoding)));
}

#[test]
fn serializing_keeps_declared_values() {
    let mut meta = HttpMeta::default();
    meta.set_content_length(2);
    meta.set_content_type(HttpContentType::TextPlain());
    let body = HttpBody::Binary(vec![9, 9, 9]).into_static(&mut meta).unwrap();
    assert_eq!(body, vec![9, 9, 9]);
    assert_eq!(meta.get_content_length().unwrap(), Some(2));
    assert_eq!(meta.get_content_type().unwrap().media_type(), "text/plain");
}

#[test]
fn serializing_files_names_the_boundary() {
    let mut meta = HttpMeta::default();
    let body = HttpBody::Files { data: b"--b--".to_vec(), boundary: "b".to_string() }.into_static(&mut meta).unwrap();
    assert_eq!(body, b"--b--");
    let ct = meta.get_content_type().unwrap();
    assert_eq!(ct.media_type(), "multipart/form-data");
    assert_eq!(ct.params(), "boundary=----DefaultBoundary7MA4YWxkTrZu0gW");

    let mut meta = HttpMeta::default();
    meta.set_attribute("content-type", HeaderValue::new("multipart/mixed; boundary=zz"));
    HttpBody::Files { data: Vec::new(), boundary: String::new() }.into_static(&mut meta).unwrap();
    assert_eq!(meta.get_content_type().unwrap().media_type(), "multipart/mixed");
}

#[test]
fn serializing_an_empty_body_sets_length_zero() {
    let mut meta = HttpMeta::default();
    let body = HttpBody::Empty.into_static(&mut meta).unwrap();
    assert!(body.is_empty());
    assert_eq!(meta.get_content_length().unwrap(), Some(0));
    assert!(meta.get_content_type().is_none());
}

#[test]
fn prepare_send_writes_the_head_after_the_body_metadata() {
    let mut meta = HttpMeta::default();
    let (head, bin) = prepare_send(&mut meta, HttpBody::Text("hey".to_string())).unwrap();
    assert_eq!(head, "GET / HTTP/1.1\r\ncontent-type: text/html\r\ncontent-length: 3\r\n\r\n");
    assert_eq!(bin, b"hey");
}

#[test]
fn buffered_takes_type_and_codings_from_the_metadata() {
    let mut headers = HeaderMap::new();
    headers.insert("content-type".to_string(), HeaderValue::new("application/json"));
    headers.insert("content-encoding".to_string(), HeaderValue::new("identity"));
    let mut meta = HttpMeta::new(Default::default(), headers);
    match HttpBody::buffered(b"{}".to_vec(), &mut meta) {
        HttpBody::Buffer { data, content_type, content_coding } => {
            assert_eq!(data, b"{}");
            assert_eq!(content_type.media_type(), "application/json");
            assert_eq!(content_coding, vec!["identity".to_string()]);
        }
        other => panic!("unexpected {other:?}"),
    }
}

#[test]
fn chunk_size_lines() {
    let line = TransferOutcome::new(4, TransferTermination::ConditionReached);
    assert_eq!(chunk_size("1a\r\n", line), Ok(26));
    assert_eq!(chunk_size("1A;name=value\r\n", line), Ok(26));
    assert_eq!(chunk_size("0\r\n", line), Ok(0));
    assert_eq!(chunk_size("+f \r\n", line), Ok(15));
    assert_eq!(chunk_size("xyz\r\n", line), Err(BodyError::Chunking(ChunkingError::InvalidSize)));
    assert_eq!(chunk_size("\r\n", line), Err(BodyError::Chunking(ChunkingError::InvalidSize)));
    assert_eq!(chunk_size("ffffffffffffffffff\r\n", line), Err(BodyError::Chunking(ChunkingError::InvalidSize)));
    let capped = TransferOutcome::new(4, TransferTermination::CapReached);
    assert_eq!(chunk_size("1a\r\n", capped), Err(BodyError::Chunking(ChunkingError::LineTooLong)));
}

#[test]
fn chunk_terminators_and_sizes() {
    assert!(chunk_terminator(b"\r\n").is_ok());
    assert_eq!(chunk_terminator(b"\n\r"), Err(BodyError::Chunking(ChunkingError::InvalidTerminator)));
    let mut limits = BodyLimits::new();
    limits.set_max_body_size(Some(10));
    assert_eq!(add_chunk(&limits, 4, 6), Ok(10));
    assert_eq!(add_chunk(&limits, 4, 7), Err(BodyError::TooLarge));
    assert_eq!(add_chunk(&BodyLimits::new(), usize::MAX, 1), Err(BodyError::TooLarge));
}

#[test]
fn framing_is_chosen_from_the_metadata() {
    let limits = BodyLimits::new();
    let mut meta = HttpMeta::default();
    assert_eq!(HttpBody::body_framing(&mut meta, &limits), Ok(BodyFraming::Length(0)));

    meta.set_attribute("content-length", HeaderValue::new("12"));
    assert_eq!(HttpBody::body_framing(&mut meta, &limits), Ok(BodyFraming::Length(12)));

    let mut chunked = HttpMeta::default();
    chunked.set_attribute("transfer-encoding", HeaderValue::new("gzip, chunked"));
    assert_eq!(HttpBody::body_framing(&mut chunked, &limits), Ok(BodyFraming::Chunked));

    let mut both = HttpMeta::default();
    both.set_attribute("transfer-encoding", HeaderValue::new("chunked"));
    both.set_content_length(3);
    assert_eq!(HttpBody::body_framing(&mut both, &limits), Err(HttpError::Meta(MetaError::ConflictingFraming)));

    let mut small = BodyLimits::new();
    small.set_max_body_size(Some(5));
    assert_eq!(HttpBody::body_framing(&mut meta, &small), Err(HttpError::Body(BodyError::TooLarge)));

    let mut bad = HttpMeta::default();
    bad.set_attribute("content-length", HeaderValue::new("x"));
    assert!(matches!(HttpBody::body_framing(&mut bad, &limits), Err(HttpError::Meta(MetaError::Header(_)))));
}

#[test]
fn body_errors_describe_and_classify_themselves() {
    assert_eq!(BodyError::TooLarge.to_string(), "request body is too large");
    assert_eq!(BodyError::TooLarge.status_code().as_u16(), 413);
    assert!(!BodyError::TooLarge.can_continue());
    assert!(!BodyError::IncompleteBody.can_continue());
    assert!(BodyError::Missing.can_continue());
    assert_eq!(BodyError::UnsupportedContentType("a/b".to_string()).to_string(), "unsupported request body Content-Type: a/b");
    assert_eq!(BodyError::MissingContentType.status_code().as_u16(), 415);
    assert_eq!(BodyError::InvalidJson("eof".to_string()).to_string(), "request body contains invalid JSON: eof");
    let chunk = BodyError::from(ChunkingError::InvalidSize);
    assert_eq!(chunk.to_string(), "invalid chunk size");
    assert!(!chunk.can_continue());
    assert!(chunk.source().is_some());
    assert_eq!(chunk.status_code().as_u16(), 400);
    let enc = BodyError::from(EncodingError::CodingAfterChunked);
    assert!(!enc.can_continue());
    let comp = BodyError::from(CompressionError::UnsupportedCoding("br".to_string()));
    assert_eq!(comp.to_string(), "unsupported content coding: br");
    assert!(comp.can_continue());
    assert!(BodyError::Missing.source().is_none());
    assert_eq!(ChunkingError::LineTooLong.to_string(), "chunk size line exceeds maximum length");
    assert!(!ChunkingError::InvalidTerminator.can_continue());
}

#[test]
fn serializes_json_as_nonempty_utf8_text() {
    let mut meta = HttpMeta::default();
    let body = HttpBody::Json(akari::Value::Str("hi".to_string())).into_static(&mut meta).unwrap();
    assert!(!body.is_empty());
    assert_eq!(String::from_utf8(body.clone()).unwrap(), "\"hi\"");
    assert_eq!(meta.get_content_length().unwrap(), Some(body.len() as u64));
    assert_eq!(meta.get_content_type().unwrap().media_type(), "application/json");
}
