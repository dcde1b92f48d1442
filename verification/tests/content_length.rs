use hotaru::header::{HeaderError, HeaderValue};
use hotaru::meta::{HttpMeta, MetaError};

fn meta_with(name: &str, value: HeaderValue) -> HttpMeta {
    let mut meta = HttpMeta::default();
    meta.header.insert(name.to_string(), value);
    meta
}

#[test]
fn parses_valid_content_length() {
    let mut meta = meta_with("content-length", HeaderValue::Single("42".to_string()));
    assert_eq!(meta.parse_content_length().unwrap(), Some(42));
}

#[test]
fn absent_content_length_is_ok_none() {
    let mut meta = HttpMeta::default();
    assert_eq!(meta.parse_content_length().unwrap(), None);
}

#[test]
fn non_numeric_is_invalid_header_value() {
    let mut meta = meta_with("content-length", HeaderValue::Single("abc".to_string()));
    let err = meta.parse_content_length().unwrap_err();
    assert!(matches!(
        err,
        MetaError::Header(HeaderError::InvalidHeaderValue(ref name)) if name == "content-length"
    ));
}

#[test]
fn empty_value_is_invalid_header_value() {
    let mut meta = meta_with("content-length", HeaderValue::Single(String::new()));
    let err = meta.parse_content_length().unwrap_err();
    assert!(matches!(
        err,
        MetaError::Header(HeaderError::InvalidHeaderValue(ref name)) if name == "content-length"
    ));
}

#[test]
fn overflowing_value_is_header_value_overflow() {
    let mut meta = meta_with(
        "content-length",
        HeaderValue::Single("18446744073709551616".to_string()),
    );
    let err = meta.parse_content_length().unwrap_err();
    assert!(matches!(
        err,
        MetaError::Header(HeaderError::HeaderValueOverflow(ref name)) if name == "content-length"
    ));
}

#[test]
fn get_content_length_request_treats_absent_as_zero() {
    let mut meta = HttpMeta::default();
    assert_eq!(meta.get_content_length_request().unwrap(), 0);

    let mut meta_with_value =
        meta_with("content-length", HeaderValue::Single("42".to_string()));
    assert_eq!(meta_with_value.get_content_length_request().unwrap(), 42);
}

#[test]
fn get_content_length_request_propagates_parse_errors() {
    let mut meta = meta_with("content-length", HeaderValue::Single("abc".to_string()));
    let err = meta.get_content_length_request().unwrap_err();
    assert!(matches!(
        err,
        MetaError::Header(HeaderError::InvalidHeaderValue(ref name)) if name == "content-length"
    ));
}

#[test]
fn multiple_content_length_headers_yields_multiple_values() {
    let mut meta = meta_with(
        "content-length",
        HeaderValue::Multiple(vec!["10".to_string(), "20".to_string()]),
    );
    let err = meta.parse_content_length().unwrap_err();
    assert!(matches!(
        err,
        MetaError::Header(HeaderError::MultipleValues(ref name)) if name == "content-length"
    ));
}
