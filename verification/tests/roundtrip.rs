use hotaru::header::{HeaderLine, HeaderMap, HeaderValue};
use hotaru::http_value::{HttpMethod, HttpVersion, StatusCode};
use hotaru::meta::HttpMeta;
use hotaru::start_line::{HttpStartLine, RequestStartLine, ResponseStartLine};

#[test]
fn request_line_reads_back() {
    let line = RequestStartLine::new(HttpVersion::Http10, HttpMethod::POST, "/a?b=c".to_string());
    let text = line.represent();
    assert_eq!(text, "POST /a?b=c HTTP/1.0");
    let back = RequestStartLine::parse(&text).unwrap();
    assert_eq!(back.represent(), text);
    assert_eq!(back.path, "/a?b=c");
    assert_eq!(back.http_version, HttpVersion::Http10);
}

#[test]
fn status_line_reads_back() {
    for code in [200u16, 404, 599, 1000] {
        let line = ResponseStartLine::new(HttpVersion::Http11, StatusCode(code));
        let back = ResponseStartLine::parse(&line.represent()).unwrap();
        assert_eq!(back.status_code, StatusCode(code));
        assert_eq!(back.http_version, HttpVersion::Http11);
    }
}

#[test]
fn field_line_reads_back() {
    let text = HeaderValue::new("a b").into_header_string("x-name");
    let line = HeaderLine::parse(text.trim_end_matches("\r\n")).unwrap();
    assert_eq!(line.into_parts(), ("x-name".to_string(), "a b".to_string()));
}

#[test]
fn represented_head_reads_back() {
    let mut meta = HttpMeta::new(
        HttpStartLine::new_request(HttpVersion::Http11, HttpMethod::GET, "/x".to_string()),
        HeaderMap::new(),
    );
    meta.set_content_length(1234);
    meta.set_attribute("accept", HeaderValue::new("text/html"));
    let text = meta.represent();
    let lines: Vec<String> = text
        .split("\r\n")
        .filter(|l| !l.is_empty())
        .map(|l| l.to_string())
        .collect();
    let mut back = HttpMeta::from_head_lines(lines, true).unwrap();
    assert_eq!(back.get_content_length().unwrap(), Some(1234));
    assert_eq!(back.get_header("accept"), Some("text/html".to_string()));
    assert_eq!(back.url(), "/x");
}

#[test]
fn header_block_reads_back() {
    let mut block = HeaderMap::new();
    block.insert("host".to_string(), HeaderValue::new("example.com"));
    block.insert("x-a".to_string(), HeaderValue::new("1 2"));
    let mut lines = Vec::new();
    for (name, value) in block.iter() {
        lines.push(value.into_header_string(name).trim_end_matches("\r\n").to_string());
    }
    let back = HttpMeta::parse_headers(&lines).unwrap();
    assert_eq!(back.len(), 2);
    assert_eq!(back.get_only("host").unwrap(), Some("example.com"));
    assert_eq!(back.get_only("x-a").unwrap(), Some("1 2"));
}
