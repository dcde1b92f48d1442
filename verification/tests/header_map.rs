use hotaru::header::{HeaderError, HeaderMap, HeaderValue};
use hotaru::meta::HttpMeta;

#[test]
fn get_only_returns_none_when_absent() {
    let map = HeaderMap::new();
    assert!(matches!(map.get_only("content-length"), Ok(None)));
}

#[test]
fn get_only_returns_value_when_singular() {
    let mut map = HeaderMap::new();
    map.insert(
        "content-length".to_string(),
        HeaderValue::Single("42".to_string()),
    );
    assert!(matches!(map.get_only("content-length"), Ok(Some("42"))));
}

#[test]
fn get_only_errors_for_multiple_variant_regardless_of_count() {
    let mut map = HeaderMap::new();
    map.insert(
        "content-length".to_string(),
        HeaderValue::Multiple(vec!["10".to_string(), "20".to_string()]),
    );
    assert_eq!(
        map.get_only("content-length"),
        Err(HeaderError::MultipleValues("content-length".to_string()))
    );

    map.insert(
        "content-length".to_string(),
        HeaderValue::Multiple(vec!["42".to_string()]),
    );
    assert_eq!(
        map.get_only("content-length"),
        Err(HeaderError::MultipleValues("content-length".to_string()))
    );

    map.insert("content-length".to_string(), HeaderValue::Multiple(vec![]));
    assert_eq!(
        map.get_only("content-length"),
        Err(HeaderError::MultipleValues("content-length".to_string()))
    );
}

#[test]
fn get_only_parsed_invokes_closure_and_propagates_its_error() {
    let mut map = HeaderMap::new();
    map.insert(
        "content-length".to_string(),
        HeaderValue::Single("42".to_string()),
    );

    let ok: Result<Option<u64>, HeaderError> = map.get_only_parsed("content-length", |s| {
        s.parse()
            .map_err(|_| HeaderError::HeaderValueOverflow("content-length".to_string()))
    });
    assert!(matches!(ok, Ok(Some(42))));

    let err: Result<Option<u64>, HeaderError> = map.get_only_parsed("content-length", |_| {
        Err(HeaderError::InvalidHeaderValue("content-length".to_string()))
    });
    assert_eq!(
        err,
        Err(HeaderError::InvalidHeaderValue("content-length".to_string()))
    );
}

#[test]
fn require_only_parsed_errors_on_absence() {
    let map = HeaderMap::new();
    let result: Result<String, HeaderError> = map.require_only_parsed("host", |s| Ok(s.to_string()));
    assert_eq!(result, Err(HeaderError::Missing("host".to_string())));
}

#[test]
fn require_variants_error_on_absence() {
    let map = HeaderMap::new();
    assert!(matches!(
        map.require("host"),
        Err(HeaderError::Missing(name)) if name == "host"
    ));
    assert_eq!(
        map.require_only("host"),
        Err(HeaderError::Missing("host".to_string()))
    );
    assert_eq!(
        map.require_all("host"),
        Err(HeaderError::Missing("host".to_string()))
    );
}

#[test]
fn get_parsed_sees_full_header_value() {
    let mut map = HeaderMap::new();
    map.insert(
        "set-cookie".to_string(),
        HeaderValue::Multiple(vec!["a=1".to_string(), "b=2".to_string()]),
    );
    let count: Result<Option<usize>, HeaderError> = map.get_parsed("set-cookie", |v| Ok(v.len()));
    assert!(matches!(count, Ok(Some(2))));

    let missing: Result<usize, HeaderError> = map.require_parsed("host", |v| Ok(v.len()));
    assert_eq!(missing, Err(HeaderError::Missing("host".to_string())));
}

#[test]
fn require_remove_returns_value_when_present_and_errors_when_absent() {
    let mut map = HeaderMap::new();
    map.insert(
        "host".to_string(),
        HeaderValue::Single("example.com".to_string()),
    );

    let removed = map.require_remove("host").unwrap();
    assert!(matches!(removed, HeaderValue::Single(ref s) if s == "example.com"));
    assert!(!map.contains_key("host"));

    assert!(matches!(
        map.require_remove("host"),
        Err(HeaderError::Missing(name)) if name == "host"
    ));
}

#[test]
fn accessors_accept_dynamic_name() {
    let mut map = HeaderMap::new();
    map.insert(
        "content-length".to_string(),
        HeaderValue::Single("42".to_string()),
    );

    let dynamic: String = String::from("content-length");
    assert!(map.get(&dynamic).is_some());
    assert!(matches!(map.get_only(&dynamic), Ok(Some("42"))));
    assert!(map.require(&dynamic).is_ok());
}

#[test]
fn test_header_content_length_u64_boundaries() {
    let mut headers = HeaderMap::new();
    headers.insert("content-length".to_string(), HeaderValue::new(&u64::MAX.to_string()));
    let mut meta = HttpMeta::new(Default::default(), headers);
    assert_eq!(meta.parse_content_length().unwrap(), Some(u64::MAX));

    let mut headers = HeaderMap::new();
    headers.insert("content-length".to_string(), HeaderValue::new("18446744073709551616"));
    let mut meta = HttpMeta::new(Default::default(), headers);
    assert!(meta.parse_content_length().is_err());
}

#[test]
fn test_header_field_line_appends_duplicate_field_names_without_combining() {
    let mut headers = HeaderMap::new();

    headers.insert_field_line("Accept: text/html").unwrap();
    headers.insert_field_line("Accept: application/json").unwrap();

    assert_eq!(headers.get_all("accept"), vec!["text/html", "application/json"]);
}
