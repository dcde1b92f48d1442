use hotaru::header::HeaderValue;

#[test]
fn append_promotes_to_multiple_and_as_str_joins() {
    let mut header_value = HeaderValue::new("text/html");
    header_value.append("charset=UTF-8");
    assert_eq!(header_value.as_str(), "text/html, charset=UTF-8");

    let mut header_value = HeaderValue::new("text/html");
    header_value.append("application/xhtml+xml");
    assert_eq!(header_value.as_str(), "text/html, application/xhtml+xml");
}

#[test]
fn len_and_is_empty_count_values() {
    let mut header = HeaderValue::new("text/html");
    assert_eq!(header.len(), 1);
    header.append("application/json");
    assert_eq!(header.len(), 2);

    assert!(HeaderValue::new("").is_empty());
    assert!(!HeaderValue::new("application/json").is_empty());
    assert!(HeaderValue::Multiple(vec![]).is_empty());
    assert!(HeaderValue::Multiple(vec![String::new(), String::new()]).is_empty());
}

#[test]
fn indexed_access() {
    let mut header = HeaderValue::new("text/html");
    assert_eq!(header.try_get(0), Some(&"text/html".to_string()));
    assert_eq!(header.try_get(1), None);
    header.append("application/json");
    assert_eq!(header.try_get(1), Some(&"application/json".to_string()));

    let header = HeaderValue::new("text/html");
    assert_eq!(header.get(0), "text/html");
    assert_eq!(header.get(1), "");
    assert_eq!(header.get_or(0, "default"), "text/html");
    assert_eq!(header.get_or(1, "default"), "default");
}

#[test]
fn add_without_combining_keeps_values_apart() {
    let mut cookies = HeaderValue::new("sessionId=abc123; Path=/");
    cookies.add_without_combining("theme=dark; Path=/; Max-Age=3600");
    assert_eq!(cookies.try_get(0), Some(&"sessionId=abc123; Path=/".to_string()));
    assert_eq!(cookies.try_get(1), Some(&"theme=dark; Path=/; Max-Age=3600".to_string()));
}

#[test]
fn first_values() {
    let mut header = HeaderValue::new("text/html");
    header.append("application/json");
    assert_eq!(header.try_first(), Some(&"text/html".to_string()));

    let header = HeaderValue::new("text/html");
    assert_eq!(header.first(), "text/html");
    let empty: HeaderValue = HeaderValue::Multiple(vec![]);
    assert_eq!(empty.first(), "");
    assert_eq!(header.first_or("default"), "text/html");
    assert_eq!(empty.first_or("default"), "default");
}

#[test]
fn values_and_header_lines() {
    let mut header = HeaderValue::new("text/html");
    header.append("application/json");
    let values = header.values();
    assert_eq!(values.len(), 2);
    assert_eq!(values[0], &"text/html".to_string());
    assert_eq!(values[1], &"application/json".to_string());

    let header_value = HeaderValue::new("text/html");
    assert_eq!(header_value.into_header_string("Content-Type"), "Content-Type: text/html\r\n");
    let mut multi_header = HeaderValue::new("text/html");
    multi_header.append("application/json");
    assert_eq!(multi_header.into_header_string("Accept"), "Accept: text/html\r\nAccept: application/json\r\n");

    assert_eq!(multi_header.into_vec(), vec!["text/html".to_string(), "application/json".to_string()]);
    assert!(matches!(HeaderValue::from("x".to_string()), HeaderValue::Single(ref s) if s == "x"));
}
