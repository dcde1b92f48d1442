use hotaru::header::{HeaderLine, HeaderLineError};

#[test]
fn parses_valid_header_line() {
    let line = HeaderLine::parse("X-Test: v").unwrap();

    assert_eq!(line.name(), "x-test");
    assert_eq!(line.value(), "v");
}

#[test]
fn trims_only_ows_around_value() {
    let line = HeaderLine::parse("X-Test:\t value \t").unwrap();

    assert_eq!(
        line.into_parts(),
        ("x-test".to_string(), "value".to_string())
    );
}

#[test]
fn rejects_cr_in_value() {
    assert_eq!(
        HeaderLine::parse("X-Test: a\rb"),
        Err(HeaderLineError::InvalidValue)
    );
}

#[test]
fn rejects_nul_in_value() {
    assert_eq!(
        HeaderLine::parse("X-Test: a\0b"),
        Err(HeaderLineError::InvalidValue)
    );
}

#[test]
fn rejects_whitespace_before_colon() {
    assert_eq!(
        HeaderLine::parse("X-Test : v"),
        Err(HeaderLineError::InvalidName)
    );
}

#[test]
fn rejects_missing_colon() {
    assert_eq!(
        HeaderLine::parse("X-Test v"),
        Err(HeaderLineError::MissingColon)
    );
}

#[test]
fn rejects_empty_name() {
    assert_eq!(HeaderLine::parse(": v"), Err(HeaderLineError::EmptyName));
}

#[test]
fn allows_obs_text_in_value() {
    let line = HeaderLine::parse("X-Test: cafe\u{00e9}").unwrap();

    assert_eq!(line.value(), "cafe\u{00e9}");
}
