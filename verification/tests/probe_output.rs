use media_segmenter::probe::{
    duration_of_text, probe_args, probe_result, ProbeError, MAX_SECONDS, MILLIS_PER_SECOND,
    PROBER_PROGRAM,
};

#[test]
fn fractional_output_keeps_the_whole_seconds() {
    assert_eq!(probe_result(true, b"12.345000\n"), Ok(12_000));
    assert_eq!(probe_result(true, b"0.999\n"), Ok(0));
    assert_eq!(probe_result(true, b"3.2"), Ok(3_000));
}

#[test]
fn output_without_fraction_is_trimmed() {
    assert_eq!(probe_result(true, b"12\n"), Ok(12_000));
    assert_eq!(probe_result(true, b"  \t7 \r\n"), Ok(7_000));
    assert_eq!(duration_of_text("\u{a0}\u{2003}42\u{3000}"), Ok(42_000));
    assert_eq!(duration_of_text(" 5 .5"), Ok(5_000));
}

#[test]
fn only_the_text_before_the_first_dot_counts() {
    assert_eq!(duration_of_text("1.2.3"), Ok(1_000));
    assert_eq!(duration_of_text("10.garbage"), Ok(10_000));
    assert_eq!(duration_of_text(".5"), Err(ProbeError::NotNumeric));
}

#[test]
fn signs_are_read() {
    assert_eq!(duration_of_text("+3"), Ok(3_000));
    assert_eq!(duration_of_text("-5.2"), Ok(-5_000));
    assert_eq!(duration_of_text("-0"), Ok(0));
    assert_eq!(duration_of_text("-"), Err(ProbeError::NotNumeric));
    assert_eq!(duration_of_text("+"), Err(ProbeError::NotNumeric));
    assert_eq!(duration_of_text("--1"), Err(ProbeError::NotNumeric));
    assert_eq!(duration_of_text("- 1"), Err(ProbeError::NotNumeric));
}

#[test]
fn leading_zeros_are_harmless() {
    assert_eq!(duration_of_text("0000000000000000000000000000007"), Ok(7_000));
}

#[test]
fn text_that_is_no_integer_is_not_numeric() {
    assert_eq!(probe_result(true, b""), Err(ProbeError::NotNumeric));
    assert_eq!(probe_result(true, b"\n"), Err(ProbeError::NotNumeric));
    assert_eq!(probe_result(true, b"N/A\n"), Err(ProbeError::NotNumeric));
    assert_eq!(duration_of_text("12a"), Err(ProbeError::NotNumeric));
    assert_eq!(duration_of_text("1 2"), Err(ProbeError::NotNumeric));
    assert_eq!(duration_of_text("1e3"), Err(ProbeError::NotNumeric));
    assert_eq!(duration_of_text("inf"), Err(ProbeError::NotNumeric));
    assert_eq!(duration_of_text("\u{664}"), Err(ProbeError::NotNumeric));
}

#[test]
fn durations_beyond_the_millisecond_range_are_out_of_range() {
    assert_eq!(MILLIS_PER_SECOND, 1000);
    assert_eq!(MAX_SECONDS, (i64::MAX / 1000) as u64);
    assert_eq!(
        duration_of_text("9223372036854775"),
        Ok(9_223_372_036_854_775_000)
    );
    assert_eq!(
        duration_of_text("-9223372036854775"),
        Ok(-9_223_372_036_854_775_000)
    );
    assert_eq!(duration_of_text("9223372036854776"), Err(ProbeError::OutOfRange));
    assert_eq!(duration_of_text("-9223372036854776"), Err(ProbeError::OutOfRange));
    assert_eq!(
        duration_of_text("99999999999999999999999999999999999999"),
        Err(ProbeError::OutOfRange)
    );
    assert_eq!(
        duration_of_text("99999999999999999999999999999999999999x"),
        Err(ProbeError::NotNumeric)
    );
}

#[test]
fn failed_exit_comes_before_the_output() {
    assert_eq!(probe_result(false, b"12.0\n"), Err(ProbeError::ExitStatus));
    assert_eq!(probe_result(false, b"\xff"), Err(ProbeError::ExitStatus));
}

#[test]
fn output_that_is_not_utf8_is_refused() {
    assert_eq!(probe_result(true, b"12.\xff"), Err(ProbeError::NotUtf8));
    assert_eq!(probe_result(true, b"\xc3\x28"), Err(ProbeError::NotUtf8));
    assert_eq!(probe_result(true, "12.\u{e9}".as_bytes()), Ok(12_000));
}

#[test]
fn prober_command_line() {
    assert_eq!(PROBER_PROGRAM, "ffprobe");
    assert_eq!(
        probe_args("/tmp/in.mov"),
        vec![
            "-i",
            "/tmp/in.mov",
            "-show_entries",
            "format=duration",
            "-v",
            "quiet",
            "-of",
            "default=noprint_wrappers=1:nokey=1"
        ]
    );
}
