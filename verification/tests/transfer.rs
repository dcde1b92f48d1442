use hotaru::transfer::{
    capped_read_start, read_to_end_request, read_to_end_step, read_until_step, write_all_capped_plan,
    write_exact_plan, write_until_plan, HotaruIOError, ReadLimitError, TransferOutcome, TransferTermination,
};

use TransferTermination::{CapReached, ConditionReached, SourceEnded};

#[test]
fn delimiter_inside_cap_wins_over_larger_available_buffer() {
    assert_eq!(read_until_step(b"ab\ncdef", b'\n', 0, 10), (3, Some(ConditionReached)));
}

#[test]
fn cap_reached_consumes_only_the_prefix_that_fits() {
    assert_eq!(read_until_step(b"abcdef", b'\n', 0, 3), (3, Some(CapReached)));
}

#[test]
fn delimiter_beyond_the_cap_is_not_seen() {
    assert_eq!(read_until_step(b"abc\n", b'\n', 0, 3), (3, Some(CapReached)));
}

#[test]
fn eof_before_delimiter_is_reported_as_source_ended() {
    assert_eq!(read_until_step(b"", b'\n', 2, 10), (0, Some(SourceEnded)));
}

#[test]
fn short_read_without_delimiter_reads_on() {
    assert_eq!(read_until_step(b"ab", b'\n', 0, 10), (2, None));
}

#[test]
fn existing_buffer_length_counts_toward_cap() {
    assert_eq!(read_until_step(b"abcd", b'\n', 2, 4), (2, Some(CapReached)));
    assert_eq!(
        capped_read_start(4, 4),
        Some(TransferOutcome { transferred: 0, termination: CapReached })
    );
    assert_eq!(capped_read_start(3, 4), None);
}

#[test]
fn read_to_end_asks_for_at_most_one_chunk_under_the_cap() {
    assert_eq!(read_to_end_request(0, 5000), 1024);
    assert_eq!(read_to_end_request(4990, 5000), 10);
}

#[test]
fn read_to_end_reports_source_ended_after_exhausting_input() {
    assert_eq!(
        read_to_end_step(3, 100, 3, 0),
        Some(TransferOutcome { transferred: 3, termination: SourceEnded })
    );
    assert_eq!(read_to_end_step(3, 100, 3, 5), None);
}

#[test]
fn read_to_end_stops_at_cap_without_overconsuming() {
    assert_eq!(
        read_to_end_step(6, 10, 6, 4),
        Some(TransferOutcome { transferred: 10, termination: CapReached })
    );
}

#[test]
fn write_exact_reports_condition_reached_at_the_requested_count() {
    assert_eq!(write_exact_plan(5, 3), (3, TransferOutcome::new(3, ConditionReached)));
}

#[test]
fn write_exact_reports_source_ended_when_the_buffer_is_shorter() {
    assert_eq!(write_exact_plan(2, 5), (2, TransferOutcome::new(2, SourceEnded)));
    assert_eq!(write_exact_plan(5, 5), (5, TransferOutcome::new(5, SourceEnded)));
}

#[test]
fn write_exact_zero_reaches_the_condition_without_writing() {
    assert_eq!(write_exact_plan(4, 0), (0, TransferOutcome::new(0, ConditionReached)));
}

#[test]
fn capped_write_reports_source_ended_after_writing_the_full_buffer() {
    assert_eq!(write_all_capped_plan(5, 10), (Some(5), TransferOutcome::new(5, SourceEnded)));
}

#[test]
fn capped_write_rejects_an_oversized_buffer_before_writing() {
    assert_eq!(write_all_capped_plan(5, 4), (None, TransferOutcome::new(0, CapReached)));
}

#[test]
fn delimiter_write_reports_condition_and_ignores_remaining_source() {
    assert_eq!(write_until_plan(b'\n', b"ab\ncd", 10), (Some(3), TransferOutcome::new(3, ConditionReached)));
}

#[test]
fn delimiter_write_reports_source_ended_when_delimiter_is_absent() {
    assert_eq!(write_until_plan(b'\n', b"abcd", 10), (Some(4), TransferOutcome::new(4, SourceEnded)));
}

#[test]
fn delimiter_write_rejects_over_cap_prefix_before_writing() {
    assert_eq!(write_until_plan(b'\n', b"abcd\n", 3), (None, TransferOutcome::new(0, CapReached)));
}

#[test]
fn line_write_uses_existing_newline_without_appending_one() {
    assert_eq!(write_until_plan(b'\n', "hi\nthere".as_bytes(), usize::MAX), (Some(3), TransferOutcome::new(3, ConditionReached)));
}

#[test]
fn io_errors_describe_themselves() {
    assert_eq!(HotaruIOError::UnexpectedEof.to_string(), "unexpected EOF before buffer was filled");
    assert_eq!(HotaruIOError::WriteZero.to_string(), "writer accepted 0 bytes");
    assert_eq!(HotaruIOError::rate_limit_error(), HotaruIOError::SizeExceeded);
    assert_eq!(HotaruIOError::SizeExceeded.to_string(), "read rate limit exceeded");
}
