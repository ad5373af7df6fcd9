use media_segmenter::transcode::{offset_text, transcode_args, TRANSCODER_PROGRAM};

#[test]
fn whole_seconds_have_no_fraction() {
    assert_eq!(offset_text(0), "0");
    assert_eq!(offset_text(5000), "5");
    assert_eq!(offset_text(12_000), "12");
    assert_eq!(offset_text(3_600_000), "3600");
}

#[test]
fn fractions_lose_their_trailing_zeros() {
    assert_eq!(offset_text(3200), "3.2");
    assert_eq!(offset_text(1500), "1.5");
    assert_eq!(offset_text(1050), "1.05");
    assert_eq!(offset_text(1250), "1.25");
    assert_eq!(offset_text(12_345), "12.345");
    assert_eq!(offset_text(100), "0.1");
    assert_eq!(offset_text(10), "0.01");
    assert_eq!(offset_text(7), "0.007");
    assert_eq!(offset_text(1001), "1.001");
    assert_eq!(offset_text(999), "0.999");
}

#[test]
fn offset_text_matches_the_float_rendering() {
    for ms in [0u64, 1, 10, 100, 250, 1000, 3200, 8200, 59_999, 60_000, 123_456] {
        assert_eq!(offset_text(ms), (ms as f64 / 1000.0).to_string());
    }
}

#[test]
fn largest_offset() {
    assert_eq!(offset_text(u64::MAX), "18446744073709551.615");
}

#[test]
fn command_line_without_cap() {
    assert_eq!(TRANSCODER_PROGRAM, "ffmpeg");
    assert_eq!(
        transcode_args("/tmp/in.mov", 8200, None, "mp4", "/tmp/00000001_x.mp4"),
        vec!["-y", "-i", "/tmp/in.mov", "-ss", "8.2", "-f", "mp4", "/tmp/00000001_x.mp4"]
    );
}

#[test]
fn command_line_with_cap() {
    assert_eq!(
        transcode_args("in.webm", 0, Some(1_048_576), "mp3", "out.mp3"),
        vec!["-y", "-i", "in.webm", "-ss", "0", "-fs", "1048576", "-f", "mp3", "out.mp3"]
    );
}
