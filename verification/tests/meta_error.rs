use hotaru::header::HeaderError;
use hotaru::meta::MetaError;
use hotaru::start_line::StartLineError;
use hotaru::util::EncodingError;

#[test]
fn wrapping_variants_delegate_display_to_the_inner_error() {
    assert_eq!(
        MetaError::from(StartLineError::Unrecognised).to_string(),
        "start line could not be parsed",
    );
    assert_eq!(
        MetaError::from(HeaderError::MultipleValues("content-length".to_string())).to_string(),
        "multiple content-length header values",
    );
    assert_eq!(
        MetaError::from(EncodingError::DuplicateChunked).to_string(),
        "`chunked` appeared more than once in Transfer-Encoding",
    );
}

#[test]
fn source_is_present_only_for_wrapping_variants() {
    assert!(MetaError::from(StartLineError::Unrecognised).source().is_some());
    assert!(MetaError::from(HeaderError::MultipleValues(
        "content-length".to_string()
    ))
    .source()
    .is_some());
    assert!(MetaError::from(EncodingError::DuplicateChunked).source().is_some());
    assert!(MetaError::HeadersTooLarge.source().is_none());
}
