use hotaru::header::{HeaderMap, HeaderValue};
use hotaru::http_value::{AcceptLang, HttpContentType, HttpMethod, HttpVersion, StatusCode};
use hotaru::meta::HttpMeta;
use hotaru::start_line::HttpStartLine;
use hotaru::util::{ConnectionOptions, Cookie};

fn meta_with(pairs: &[(&str, &str)]) -> HttpMeta {
    let mut headers = HeaderMap::new();
    for (k, v) in pairs {
        headers.insert(k.to_string(), HeaderValue::new(v));
    }
    HttpMeta::new(Default::default(), headers)
}

#[test]
fn content_length_set_then_get_returns_the_set_value() {
    let mut meta = meta_with(&[("content-length", "10")]);
    meta.set_content_length(456);
    assert_eq!(meta.get_content_length().unwrap(), Some(456));
}

#[test]
fn content_length_clear_then_get_reads_the_header_again() {
    let mut meta = meta_with(&[("content-length", "10")]);
    meta.set_content_length(456);
    meta.clear_content_length();
    assert_eq!(meta.get_content_length().unwrap(), Some(10));
}

#[test]
fn content_length_delete_removes_the_header() {
    let mut meta = HttpMeta::default();
    meta.set_attribute("content-length", HeaderValue::new("123"));
    meta.delete_content_length();
    assert!(meta.get_header("content-length").is_none());
    assert_eq!(meta.get_content_length().unwrap(), None);
}

#[test]
fn content_type_is_read_cleared_and_deleted() {
    let mut meta = meta_with(&[("content-type", "text/html; charset=UTF-8")]);
    let ct = meta.get_content_type().unwrap();
    assert_eq!(ct.media_type(), "text/html");
    assert_eq!(ct.params(), "charset=UTF-8");

    meta.set_content_type(HttpContentType::ApplicationJson());
    assert_eq!(meta.get_content_type().unwrap().media_type(), "application/json");

    meta.clear_content_type();
    assert_eq!(meta.get_content_type().unwrap().media_type(), "text/html");

    meta.delete_content_type();
    assert!(meta.get_header("content-type").is_none());
    assert!(meta.get_content_type().is_none());
}

#[test]
fn host_is_read_cleared_and_deleted() {
    let mut meta = meta_with(&[("host", "example.com")]);
    assert_eq!(meta.get_host(), Some("example.com".to_string()));
    meta.set_host(Some("other.example".to_string()));
    assert_eq!(meta.get_host(), Some("other.example".to_string()));
    meta.clear_host();
    assert_eq!(meta.get_host(), Some("example.com".to_string()));
    meta.delete_host();
    assert!(meta.get_header("host").is_none());
    assert_eq!(meta.get_host(), None);
}

#[test]
fn lang_uses_accept_language_for_requests_and_content_language_for_responses() {
    let mut headers = HeaderMap::new();
    headers.insert("accept-language".to_string(), HeaderValue::new("en-US, en;q=0.9"));
    headers.insert("content-language".to_string(), HeaderValue::new("zh-TW"));
    let mut meta = HttpMeta::new(
        HttpStartLine::new_request(HttpVersion::Http11, HttpMethod::GET, "/".to_string()),
        headers.clone(),
    );
    assert_eq!(meta.get_lang().unwrap().most_preferred(), "en-US");

    let mut meta = HttpMeta::new(HttpStartLine::new_response(HttpVersion::Http11, StatusCode::OK()), headers);
    assert_eq!(meta.parse_lang().unwrap().most_preferred(), "zh-TW");
    meta.delete_lang();
    assert!(meta.get_header("content-language").is_none());
    assert!(meta.get_header("accept-language").is_some());
    meta.set_lang(Some(AcceptLang::from_str("fr")));
    assert_eq!(meta.get_lang().unwrap().most_preferred(), "fr");
}

#[test]
fn location_is_cached_even_when_absent() {
    let mut meta = meta_with(&[("location", "/next")]);
    assert_eq!(meta.parse_location(), Some("/next".to_string()));
    meta.delete_location();
    assert_eq!(meta.get_location(), None);
}

#[test]
fn encoding_reads_both_headers() {
    let mut meta = meta_with(&[("transfer-encoding", "gzip, chunked"), ("content-encoding", "br")]);
    let enc = meta.get_encoding().unwrap();
    assert_eq!(enc.transfer(), Some("gzip, chunked"));
    assert_eq!(enc.content(), Some("br"));
    assert!(enc.is_chunked());
    meta.delete_encoding();
    assert!(meta.get_header("transfer-encoding").is_none());
    assert!(meta.get_header("content-encoding").is_none());
}

#[test]
fn content_disposition_only_caches_valid_values() {
    let mut meta = meta_with(&[("content-disposition", "attachment; filename=\"a.txt\"")]);
    let cd = meta.get_content_disposition().unwrap();
    assert_eq!(cd.disposition(), "attachment");
    assert_eq!(cd.params(), "filename=\"a.txt\"");

    let mut bad = meta_with(&[("content-disposition", "bad value; x=1")]);
    assert!(bad.parse_content_disposition().is_none());
}

#[test]
fn request_cookies_are_read_from_every_cookie_header() {
    let mut headers = HeaderMap::new();
    headers.insert(
        "cookie".to_string(),
        HeaderValue::Multiple(vec!["a=1; b=2".to_string(), "b=3".to_string()]),
    );
    let mut meta = HttpMeta::new(Default::default(), headers);
    assert_eq!(meta.get_cookie("a").unwrap().value(), "1");
    assert_eq!(meta.get_cookie("b").unwrap().value(), "3");
    assert!(meta.get_cookie("c").is_none());
    assert_eq!(meta.get_cookie_or_default("c").value(), "");
    assert_eq!(meta.get_cookies().len(), 2);
}

#[test]
fn response_cookies_keep_their_attributes() {
    let mut headers = HeaderMap::new();
    headers.insert(
        "set-cookie".to_string(),
        HeaderValue::Multiple(vec!["id=7; Path=/".to_string(), "lang=en".to_string()]),
    );
    let mut meta = HttpMeta::new(HttpStartLine::new_response(HttpVersion::Http11, StatusCode::OK()), headers);
    let id = meta.get_cookie("id").unwrap();
    assert_eq!(id.value(), "7");
    assert_eq!(id.attributes(), "Path=/");
}

#[test]
fn add_cookie_then_get_cookie() {
    let mut meta = HttpMeta::default();
    meta.add_cookie("session", Cookie::new("abc"));
    assert_eq!(meta.get_cookie("session").unwrap().value(), "abc");
    meta.delete_cookies();
    assert!(meta.get_cookie("session").is_none());
}

#[test]
fn connection_keep_alive_follows_version_and_options() {
    let meta = HttpMeta::default();
    assert!(meta.is_keep_alive());

    let meta = meta_with(&[("connection", "close")]);
    assert!(!meta.is_keep_alive());

    let mut meta = HttpMeta::new(
        HttpStartLine::new_request(HttpVersion::Http10, HttpMethod::GET, "/".to_string()),
        HeaderMap::new(),
    );
    assert!(!meta.is_keep_alive());
    meta.set_attribute("Connection", HeaderValue::new("Keep-Alive"));
    assert!(meta.is_keep_alive());
    assert!(meta.parse_connection().unwrap().keep_alive());

    let mut bad = meta_with(&[("connection", "a b")]);
    assert!(bad.parse_connection().is_err());
    assert!(!bad.is_keep_alive());
    bad.set_connection(Some(ConnectionOptions::from_headers(&HeaderMap::new()).unwrap()));
    assert!(bad.is_keep_alive());
}

#[test]
fn attributes_are_stored_trimmed_and_lower_case() {
    let mut meta = HttpMeta::default();
    meta.set_attribute("  X-Custom ", HeaderValue::new("1"));
    assert_eq!(meta.get_header("x-custom"), Some("1".to_string()));
    assert_eq!(meta.get_header(" X-CUSTOM"), Some("1".to_string()));
}

#[test]
fn path_and_query_of_the_request_target() {
    let mut meta = HttpMeta::new(
        HttpStartLine::new_request(HttpVersion::Http11, HttpMethod::GET, "/a/b/c?x=1&y=2".to_string()),
        HeaderMap::new(),
    );
    assert_eq!(meta.url(), "/a/b/c?x=1&y=2");
    assert_eq!(meta.path(), "/a/b/c");
    assert_eq!(meta.get_path(1), "b");
    assert_eq!(meta.get_path(7), "");
    assert_eq!(meta.get_url_args("y"), Some("2".to_string()));
    assert_eq!(meta.get_url_args("z"), None);
    assert!(matches!(meta.method(), HttpMethod::GET));
}

#[test]
fn require_valid_request_host_checks_the_syntax() {
    for good in ["example.com", "example.com:8080", "127.0.0.1", "[::1]", "[::1]:80", "a-b.c"] {
        let mut meta = meta_with(&[("host", good)]);
        assert_eq!(meta.require_valid_request_host().unwrap(), good, "{good}");
        assert_eq!(meta.get_host(), Some(good.to_string()));
    }
    for bad in ["", "exa mple", "a/b", "host:", "[::1", "[]", "[::1]x", "host:99999", "host:x", ":80", "a@b", "[g::1]"] {
        let mut meta = meta_with(&[("host", bad)]);
        assert!(meta.require_valid_request_host().is_err(), "{bad}");
        assert_eq!(meta.get_host(), Some(bad.to_string()));
    }
    let mut missing = HttpMeta::default();
    assert!(missing.require_valid_request_host().is_err());

    let mut headers = HeaderMap::new();
    headers.insert("host".to_string(), HeaderValue::Multiple(vec!["a".to_string(), "b".to_string()]));
    let mut multiple = HttpMeta::new(Default::default(), headers);
    assert!(multiple.require_valid_request_host().is_err());
}

#[test]
fn represent_writes_start_line_caches_headers_and_blank_line() {
    let mut meta = HttpMeta::new(
        HttpStartLine::new_request(HttpVersion::Http11, HttpMethod::GET, "/index.html".to_string()),
        HeaderMap::new(),
    );
    meta.set_attribute("host", HeaderValue::new("example.com"));

    let http_string = meta.represent();
    assert!(http_string.starts_with("GET /index.html HTTP/1.1\r\n"));
    assert!(http_string.contains("host: example.com\r\n"));
    assert!(http_string.ends_with("\r\n\r\n"));
}

#[test]
fn represent_puts_cached_values_first_and_skips_their_headers() {
    let mut meta = HttpMeta::new(HttpStartLine::new_response(HttpVersion::Http11, StatusCode::OK()), HeaderMap::new());
    meta.set_attribute("content-length", HeaderValue::new("999"));
    meta.set_attribute("x-a", HeaderValue::new("1"));
    meta.set_content_length(5);
    meta.set_content_type(HttpContentType::TextPlain());
    meta.add_cookie("id", Cookie::with_attributes("7", "Path=/"));
    assert_eq!(
        meta.represent(),
        "HTTP/1.1 200 OK\r\ncontent-type: text/plain\r\ncontent-length: 5\r\nset-cookie: id=7; Path=/\r\nx-a: 1\r\n\r\n"
    );
}

#[test]
fn represent_keeps_the_host_header_beside_a_cached_language() {
    let mut meta = HttpMeta::new(
        HttpStartLine::new_request(HttpVersion::Http11, HttpMethod::GET, "/".to_string()),
        HeaderMap::new(),
    );
    meta.set_attribute("host", HeaderValue::new("example.com"));
    meta.set_attribute("accept-language", HeaderValue::new("fr"));
    meta.set_lang(Some(AcceptLang::from_str("de")));
    assert_eq!(
        meta.represent(),
        "GET / HTTP/1.1\r\naccept-language: de\r\nhost: example.com\r\n\r\n"
    );
}

#[test]
fn bracketed_host_port_must_be_digits() {
    for bad in ["[::1]:+80", "[::1]:", "[::1]:65536", "[::1]:8x"] {
        let mut meta = meta_with(&[("host", bad)]);
        assert!(meta.require_valid_request_host().is_err(), "{bad}");
    }
    let mut meta = meta_with(&[("host", "[::1]:65535")]);
    assert!(meta.require_valid_request_host().is_ok());
}
