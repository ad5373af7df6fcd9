use std::io::Read;

use media_segmenter::archive::{
    entry_name, gzip, pack, tar, written, PackError, ENTRY_MODE, INDEX_WIDTH,
};
use media_segmenter::media::{MediaFile, Segment};

fn segment(index: u64, format: &str, content: &[u8], duration_ms: u64) -> Segment {
    Segment {
        index,
        file: MediaFile { format: format.to_string(), content: content.to_vec() },
        duration_ms,
    }
}

fn unpack_tar(container: &[u8]) -> Vec<(String, u32, Vec<u8>)> {
    let mut archive = tar::Archive::new(container);
    let mut entries = Vec::new();
    for entry in archive.entries().unwrap() {
        let mut entry = entry.unwrap();
        let name = entry.path().unwrap().to_str().unwrap().to_string();
        let mode = entry.header().mode().unwrap();
        let mut content = Vec::new();
        entry.read_to_end(&mut content).unwrap();
        entries.push((name, mode, content));
    }
    entries
}

fn gunzip(stream: &[u8]) -> Vec<u8> {
    let mut decoder = flate2::read::GzDecoder::new(stream);
    let mut data = Vec::new();
    decoder.read_to_end(&mut data).unwrap();
    data
}

#[test]
fn entry_names_are_zero_padded() {
    assert_eq!(INDEX_WIDTH, 8);
    assert_eq!(entry_name(0, "mp4"), "00000000_.mp4");
    assert_eq!(entry_name(1, "mp4"), "00000001_.mp4");
    assert_eq!(entry_name(42, "webm"), "00000042_.webm");
    assert_eq!(entry_name(99_999_999, "ts"), "99999999_.ts");
    assert_eq!(entry_name(100_000_000, "ts"), "100000000_.ts");
    assert_eq!(entry_name(u64::MAX, "a"), "18446744073709551615_.a");
    assert_eq!(entry_name(7, ""), "00000007_.");
}

#[test]
fn two_segments_round_trip() {
    let first: Vec<u8> = (0..=255u8).cycle().take(1500).collect();
    let second: Vec<u8> = b"second segment".to_vec();
    let segments = vec![
        segment(0, "mp4", &first, (5.0f64 * 1000.0) as u64),
        segment(1, "mp4", &second, (3.2f64 * 1000.0) as u64),
    ];
    let archive = pack(&segments).unwrap();
    let entries = unpack_tar(&gunzip(&archive));
    assert_eq!(entries.len(), 2);
    assert_eq!(entries[0].0, "00000000_.mp4");
    assert_eq!(entries[1].0, "00000001_.mp4");
    assert_eq!(entries[0].2, first);
    assert_eq!(entries[1].2, second);
    assert_eq!(entries[0].1, ENTRY_MODE);
    assert_eq!(entries[1].1, 0o644);
}

#[test]
fn entries_keep_the_order_of_the_segments() {
    let segments: Vec<Segment> =
        (0..12u64).map(|k| segment(k, "ogg", &[k as u8; 3], 1000)).collect();
    let entries = unpack_tar(&tar(&segments).unwrap());
    assert_eq!(entries.len(), 12);
    for (k, entry) in entries.iter().enumerate() {
        assert_eq!(entry.0, format!("{:08}_.ogg", k));
        assert_eq!(entry.2, vec![k as u8; 3]);
    }
}

#[test]
fn no_segments_give_an_empty_archive() {
    let container = tar(&Vec::new()).unwrap();
    assert_eq!(container, vec![0u8; 1024]);
    assert!(unpack_tar(&gunzip(&pack(&Vec::new()).unwrap())).is_empty());
}

#[test]
fn packing_is_deterministic() {
    let segments = vec![segment(0, "mp4", b"abc", 1), segment(1, "mp4", b"", 2)];
    assert_eq!(pack(&segments).unwrap(), pack(&segments).unwrap());
    assert_eq!(tar(&segments).unwrap(), tar(&segments).unwrap());
}

#[test]
fn pack_is_tar_then_gzip() {
    let segments = vec![segment(0, "flac", b"0123456789", 10)];
    let container = tar(&segments).unwrap();
    assert_eq!(container.len(), 512 + 512 + 1024);
    assert_eq!(&container[0..14], b"00000000_.flac");
    assert_eq!(&container[512..522], b"0123456789");
    assert_eq!(pack(&segments).unwrap(), gzip(&container).unwrap());
}

#[test]
fn gzip_compresses_and_decompresses_back() {
    let data = vec![b'a'; 10_000];
    let stream = gzip(&data).unwrap();
    assert_ne!(stream, data);
    assert!(stream.len() < data.len());
    assert_eq!(&stream[0..3], &[0x1f, 0x8b, 8]);
    assert_eq!(gunzip(&stream), data);
    assert_eq!(gunzip(&gzip(b"").unwrap()), b"");
}

#[test]
fn name_that_is_no_archive_path_fails_the_container() {
    let segments = vec![segment(0, "mp4", b"ok", 1), segment(1, "/../x", b"bad", 1)];
    assert_eq!(tar(&segments), Err(PackError::Container));
    assert_eq!(pack(&segments), Err(PackError::Container));
}

#[test]
fn name_with_a_nul_fails_the_container() {
    let segments = vec![segment(0, "mp\0four", b"bad", 1)];
    assert_eq!(tar(&segments), Err(PackError::Container));
    assert_eq!(pack(&segments), Err(PackError::Container));
}

#[test]
fn first_bad_name_fails_whatever_follows() {
    let segments = vec![segment(0, "/../x", b"bad", 1), segment(1, "mp4", b"ok", 1)];
    assert_eq!(pack(&segments), Err(PackError::Container));
}

#[test]
fn every_accepted_sequence_packs() {
    for count in 0..5u64 {
        let segments: Vec<Segment> =
            (0..count).map(|k| segment(k, "mp4", &[1, 2, 3], 1000)).collect();
        let archive = pack(&segments).unwrap();
        assert_eq!(unpack_tar(&gunzip(&archive)).len() as u64, count);
    }
}

#[test]
fn long_names_are_kept() {
    let format = "x".repeat(300);
    let segments = vec![segment(3, &format, b"long", 1)];
    let entries = unpack_tar(&tar(&segments).unwrap());
    assert_eq!(entries.len(), 1);
    assert_eq!(entries[0].0, format!("00000003_.{}", format));
    assert_eq!(entries[0].2, b"long");
}

#[test]
fn written_maps_each_outcome() {
    assert_eq!(written(Ok(vec![1, 2]), PackError::Container), Ok(vec![1, 2]));
    let failure = || std::io::Error::new(std::io::ErrorKind::Other, "disk");
    assert_eq!(written(Err(failure()), PackError::Container), Err(PackError::Container));
    assert_eq!(written(Err(failure()), PackError::Compression), Err(PackError::Compression));
}
