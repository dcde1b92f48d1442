use hotaru::header::{HeaderMap, HeaderValue};
use hotaru::http_value::ContentDisposition;
use hotaru::meta::stream::HeaderLimits;
use hotaru::meta::HttpMeta;
use hotaru::util::{Cookie, CookieMap, EncodingError, HttpEncoding};

fn meta_with(pairs: &[(&str, &str)]) -> HttpMeta {
    let mut headers = HeaderMap::new();
    for (k, v) in pairs {
        headers.insert(k.to_string(), HeaderValue::new(v));
    }
    HttpMeta::new(Default::default(), headers)
}

#[test]
fn clearing_keeps_the_header_and_deleting_removes_it() {
    let mut meta = meta_with(&[
        ("connection", "close"),
        ("content-disposition", "inline"),
        ("cookie", "a=1"),
        ("content-encoding", "gzip"),
        ("accept-language", "de"),
        ("location", "/l"),
    ]);
    meta.set_connection(None);
    meta.clear_connection();
    assert!(!meta.is_keep_alive());
    meta.delete_connection();
    assert!(meta.is_keep_alive());

    meta.set_content_disposition(ContentDisposition::parse("attachment").unwrap());
    assert_eq!(meta.get_content_disposition().unwrap().disposition(), "attachment");
    meta.clear_content_disposition();
    assert_eq!(meta.get_content_disposition().unwrap().disposition(), "inline");
    meta.delete_content_disposition();
    assert!(meta.get_content_disposition().is_none());

    let mut jar = CookieMap::new();
    jar.set("b", Cookie::new("2"));
    meta.set_cookies(jar);
    assert!(meta.get_cookie("a").is_none());
    meta.clear_cookies();
    assert_eq!(meta.get_cookie("a").unwrap().get_value(), "1");

    meta.set_encoding(Some(HttpEncoding::from_headers(Some("chunked".to_string()), None)));
    assert!(meta.get_encoding().unwrap().is_chunked());
    meta.clear_encoding();
    assert_eq!(meta.get_encoding().unwrap().content(), Some("gzip"));

    meta.set_lang(None);
    meta.clear_lang();
    assert_eq!(meta.get_lang().unwrap().to_header_string(), "de");

    meta.set_location(Some("/m".to_string()));
    assert_eq!(meta.get_location(), Some("/m".to_string()));
    meta.clear_location();
    assert_eq!(meta.get_location(), Some("/l".to_string()));
}

#[test]
fn the_header_block_can_be_replaced() {
    let mut meta = HttpMeta::default();
    let mut headers = HeaderMap::new();
    headers.insert("x".to_string(), HeaderValue::new("1"));
    meta.set_header_hashmap(headers);
    assert!(meta.get_header_hashmap().contains_key("x"));
    assert_eq!(meta.clone().get_header("x"), Some("1".to_string()));
}

#[test]
fn transfer_codings_are_checked() {
    assert!(HttpEncoding::from_headers(Some("gzip, chunked".to_string()), None).check_transfer().is_ok());
    assert_eq!(
        HttpEncoding::from_headers(Some("chunked, chunked".to_string()), None).check_transfer(),
        Err(EncodingError::DuplicateChunked)
    );
    assert_eq!(
        HttpEncoding::from_headers(Some("chunked, gzip".to_string()), None).check_transfer(),
        Err(EncodingError::CodingAfterChunked)
    );
}

#[test]
fn header_limits_compare_inclusively() {
    let limits = HeaderLimits { max_line_length: 10, max_header_size: 100, max_headers: 3 };
    assert!(limits.check_line_length(10));
    assert!(!limits.check_line_length(11));
    assert!(limits.check_header_size(100));
    assert!(!limits.check_header_size(101));
    assert!(limits.check_headers_count(3));
    assert!(!limits.check_headers_count(4));
    assert_eq!(limits.effective_line_length(), 10);
}
