use hotaru::header::{HeaderError, HeaderLineError, HeaderMap, HeaderValue};
use hotaru::http_value::HttpMethod;
use hotaru::start_line::HttpStartLine;
use hotaru::meta::stream::{HeadLineStep, HeaderLimits, head_line_step, check_head_lines};
use hotaru::meta::{HttpMeta, MetaError};
use hotaru::start_line::StartLineError;
use hotaru::transfer::{TransferOutcome, TransferTermination};

fn limits() -> HeaderLimits {
    HeaderLimits { max_line_length: 64, max_header_size: 256, max_headers: 4 }
}

fn lines(head: &[&str]) -> Vec<String> {
    head.iter().map(|s| s.to_string()).collect()
}

#[test]
fn extract_finds_the_whole_head_in_one_buffer() {
    let buffer = b"GET / HTTP/1.1\r\nHost: a\r\n\r\nbody";
    let (found, end) = HttpMeta::extract_headers_from_buffer(buffer, &limits()).unwrap();
    assert_eq!(found, vec!["GET / HTTP/1.1".to_string(), "Host: a".to_string()]);
    assert_eq!(end, 27);
    assert_eq!(&buffer[end..], b"body");
}

#[test]
fn extract_needs_the_blank_line() {
    assert!(HttpMeta::extract_headers_from_buffer(b"GET / HTTP/1.1\r\nHost: a\r\n", &limits()).is_none());
    assert!(HttpMeta::extract_headers_from_buffer(b"", &limits()).is_none());
}

#[test]
fn extract_refuses_invalid_utf8_and_too_many_lines() {
    assert!(HttpMeta::extract_headers_from_buffer(b"GET / HTTP/1.1\r\nX: \xff\r\n\r\n", &limits()).is_none());
    let many = b"GET / HTTP/1.1\r\na: 1\r\nb: 2\r\nc: 3\r\nd: 4\r\n\r\n";
    assert!(HttpMeta::extract_headers_from_buffer(many, &limits()).is_none());
}

#[test]
fn extract_keeps_a_lone_carriage_return_inside_a_line() {
    let (found, _) = HttpMeta::extract_headers_from_buffer(b"A\rB\r\nC\r\n\r\n", &limits()).unwrap();
    assert_eq!(found, vec!["A\rB".to_string(), "C".to_string()]);
}

#[test]
fn head_lines_are_held_to_the_limits() {
    assert!(check_head_lines(&lines(&["GET / HTTP/1.1", "Host: a"]), &limits()).is_ok());
    let long = "x".repeat(65);
    assert_eq!(check_head_lines(&lines(&["GET / HTTP/1.1", &long]), &limits()), Err(MetaError::HeaderLineTooLong));
    let big = HeaderLimits { max_line_length: 64, max_header_size: 20, max_headers: 4 };
    assert_eq!(check_head_lines(&lines(&["GET / HTTP/1.1", "Host: a"]), &big), Err(MetaError::HeadersTooLarge));
    let few = HeaderLimits { max_line_length: 64, max_header_size: 256, max_headers: 1 };
    assert_eq!(check_head_lines(&lines(&["GET / HTTP/1.1", "a: 1", "b: 2"]), &few), Err(MetaError::TooManyHeaders));
}

#[test]
fn a_head_read_line_by_line_stops_at_the_blank_line() {
    let cont = TransferOutcome::new(7, TransferTermination::ConditionReached);
    match head_line_step("Host: a\r\n", cont, 0, 0, &limits()).unwrap() {
        HeadLineStep::Line(l, total) => {
            assert_eq!(l, "Host: a");
            assert_eq!(total, 7);
        }
        HeadLineStep::End => panic!("expected a line"),
    }
    assert!(matches!(head_line_step("\r\n", TransferOutcome::new(2, TransferTermination::ConditionReached), 7, 1, &limits()), Ok(HeadLineStep::End)));
    assert!(matches!(head_line_step("", TransferOutcome::new(0, TransferTermination::SourceEnded), 7, 1, &limits()), Ok(HeadLineStep::End)));
    assert!(matches!(head_line_step("xxxx", TransferOutcome::new(4, TransferTermination::CapReached), 0, 0, &limits()), Err(MetaError::HeaderLineTooLong)));
    assert!(matches!(head_line_step("a: b\n", TransferOutcome::new(5, TransferTermination::ConditionReached), 255, 0, &limits()), Err(MetaError::HeadersTooLarge)));
    assert!(matches!(head_line_step("a: b\n", TransferOutcome::new(5, TransferTermination::ConditionReached), 0, 5, &limits()), Err(MetaError::TooManyHeaders)));
}

#[test]
fn malformed_request_line_is_not_defaulted_to_root_get() {
    for case in ["GE T / HTTP/1.1", " / HTTP/1.1", "GET /"] {
        let result = HttpMeta::from_head_lines(lines(&[case, "Host: example.test"]), true);
        assert!(matches!(result, Err(MetaError::StartLine(StartLineError::Unrecognised))), "{case}");
    }
}

#[test]
fn empty_request_head_returns_start_line_error() {
    assert!(matches!(HttpMeta::from_head_lines(Vec::new(), true), Err(MetaError::StartLine(StartLineError::Empty))));
}

fn assert_invalid_header(result: Result<HttpMeta, MetaError>) {
    match result {
        Err(error @ MetaError::Header(HeaderError::ParseError(_))) => {
            assert_eq!(error.status_code().as_u16(), 400);
            assert!(!error.can_continue());
        }
        other => panic!("expected invalid header error, got {other:?}"),
    }
}

#[test]
fn invalid_field_lines_fail_the_head() {
    assert_invalid_header(HttpMeta::from_head_lines(lines(&["GET / HTTP/1.1", "Host: example.test", "X-Test: a\rb"]), true));
    assert_invalid_header(HttpMeta::from_head_lines(lines(&["GET / HTTP/1.1", "X-Test: a\0b"]), true));
    assert_invalid_header(HttpMeta::from_head_lines(lines(&["GET / HTTP/1.1", "X : v"]), true));
    assert_invalid_header(HttpMeta::from_head_lines(lines(&["POST / HTTP/1.1", "Transfer-Encoding : chunked"]), true));
    assert_invalid_header(HttpMeta::from_head_lines(lines(&["GET / HTTP/1.1", " part2"]), true));
}

#[test]
fn valid_head_is_parsed_with_length_and_connection() {
    let meta = HttpMeta::from_head_lines(lines(&["POST /x HTTP/1.1", "Host: example.test", "Content-Length: 12", "X-Test: v"]), true).unwrap();
    assert_eq!(meta.header.get("x-test").unwrap().first(), "v");
    assert_eq!(meta.content_length, Some(12));
    assert!(meta.connection.is_some());
    assert_eq!(meta.url(), "/x");

    let response = HttpMeta::from_head_lines(lines(&["HTTP/1.1 404 Not Found"]), false).unwrap();
    assert_eq!(response.start_line.status_code().as_u16(), 404);
}

#[test]
fn framing_and_length_errors_fail_the_head() {
    let conflict = HttpMeta::from_head_lines(lines(&["POST / HTTP/1.1", "Content-Length: 3", "Transfer-Encoding: chunked"]), true);
    assert!(matches!(conflict, Err(MetaError::ConflictingFraming)));
    let duplicate = HttpMeta::from_head_lines(lines(&["POST / HTTP/1.1", "Content-Length: 3", "Content-Length: 3"]), true);
    assert!(matches!(duplicate, Err(MetaError::Header(HeaderError::MultipleValues(_)))));
    let comma = HttpMeta::from_head_lines(lines(&["POST / HTTP/1.1", "Content-Length: 3, 3"]), true);
    assert!(matches!(comma, Err(MetaError::Header(HeaderError::InvalidHeaderValue(_)))));
    let bad_connection = HttpMeta::from_head_lines(lines(&["GET / HTTP/1.1", "Connection: a b"]), true);
    assert!(matches!(bad_connection, Err(MetaError::Connection(_))));
}

#[test]
fn parse_headers_keeps_repeated_names_apart() {
    let map = HttpMeta::parse_headers(&lines(&["Set-Cookie: a=1", "Set-Cookie: b=2", "Host: h"])).unwrap();
    assert_eq!(map.get_all("set-cookie"), vec!["a=1", "b=2"]);
    assert_eq!(map.len(), 2);
    assert_eq!(
        HttpMeta::parse_headers(&lines(&["ok: 1", "bad line"])).unwrap_err(),
        MetaError::Header(HeaderError::ParseError(HeaderLineError::MissingColon))
    );
}

#[test]
fn trailers_are_merged_into_the_header_block() {
    let mut meta = HttpMeta::from_head_lines(lines(&["POST / HTTP/1.1", "Transfer-Encoding: chunked", "Connection: keep-alive"]), true).unwrap();
    assert!(meta.connection.is_some());
    meta.append_header_lines(lines(&["X-Checksum: abc", "Connection: close"])).unwrap();
    assert_eq!(meta.get_header("x-checksum"), Some("abc".to_string()));
    assert!(meta.connection.is_none());
    assert!(!meta.is_keep_alive());
    let before = meta.header.len();
    assert!(meta.append_header_lines(lines(&["Host: example.com\0malicious.com"])).is_err());
    assert_eq!(meta.header.len(), before);
    assert!(meta.append_header_lines(Vec::new()).is_ok());
}

#[test]
fn start_line_parsing_by_kind() {
    assert!(HttpMeta::parse_start_line("GET / HTTP/1.1", true).is_ok());
    assert!(HttpMeta::parse_start_line("GET / HTTP/1.1", false).is_err());
    let fallback = HttpMeta::parse_start_line_or_default("nonsense", true);
    assert_eq!(fallback.path(), "/");
    let fallback = HttpMeta::parse_start_line_or_default("nonsense", false);
    assert_eq!(fallback.status_code().as_u16(), 200);
    let _ = HeaderMap::new();
}

#[test]
fn parse_headers_collects_values_per_lowercased_name_in_order() {
    let map = HttpMeta::parse_headers(&lines(&["A: 1", "b: 2", "a: 3", "A:  4 "])).unwrap();
    assert_eq!(map.len(), 2);
    assert!(matches!(map.get("a"), Some(HeaderValue::Multiple(v)) if v == &vec!["1".to_string(), "3".to_string(), "4".to_string()]));
    assert!(matches!(map.get("b"), Some(HeaderValue::Single(v)) if v == "2"));
    assert_eq!(
        HttpMeta::parse_headers(&lines(&["a: 1", "b 2", "c"])).unwrap_err(),
        MetaError::Header(HeaderError::ParseError(HeaderLineError::MissingColon))
    );
}

#[test]
fn request_methods_parse_to_their_own_variants() {
    match HttpStartLine::parse("GET / HTTP/1.1").unwrap() {
        HttpStartLine::Request(q) => assert!(matches!(q.method, HttpMethod::GET)),
        _ => panic!("not a request"),
    }
    match HttpStartLine::parse("BREW / HTTP/1.1").unwrap() {
        HttpStartLine::Request(q) => assert!(matches!(q.method, HttpMethod::Other(ref m) if m == "BREW")),
        _ => panic!("not a request"),
    }
}
