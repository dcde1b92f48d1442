use hotaru::body::{BodyError, BodyLimits, HttpBody};
use hotaru::http_value::HttpContentType;

fn buffered_json(data: Vec<u8>) -> HttpBody {
    HttpBody::Buffer {
        data,
        content_type: HttpContentType::ApplicationJson(),
        content_coding: Vec::new(),
    }
}

#[test]
fn parses_valid_json() {
    let body = buffered_json(br#"{"name":"Hotaru"}"#.to_vec())
        .parse_buffer(&BodyLimits::new())
        .unwrap();

    assert!(matches!(body, HttpBody::Json(_)));
}

#[test]
fn rejects_invalid_utf8_json() {
    let result = buffered_json(vec![0xff]).parse_buffer(&BodyLimits::new());

    assert!(matches!(result, Err(BodyError::InvalidUtf8)));
}

#[test]
fn rejects_oversized_buffer() {
    let mut safety = BodyLimits::new();
    safety.set_max_body_size(Some(1));

    let result = buffered_json(b"{}".to_vec()).parse_buffer(&safety);

    assert!(matches!(result, Err(BodyError::TooLarge)));
}
