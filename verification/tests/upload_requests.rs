use media_segmenter::request::{source_extension, MediaBlob, SegmentationRequest, UploadError};

#[test]
fn extension_is_what_follows_the_last_dot() {
    assert_eq!(source_extension("movie.mov"), Some("mov".to_string()));
    assert_eq!(source_extension("archive.tar.gz"), Some("gz".to_string()));
    assert_eq!(source_extension(".hidden"), Some("hidden".to_string()));
    assert_eq!(source_extension("a.b.c.d"), Some("d".to_string()));
    assert_eq!(source_extension("caf\u{e9}.\u{e9}t\u{e9}"), Some("\u{e9}t\u{e9}".to_string()));
}

#[test]
fn names_without_extension_have_none() {
    assert_eq!(source_extension("movie"), None);
    assert_eq!(source_extension(""), None);
    assert_eq!(source_extension("movie."), None);
    assert_eq!(source_extension("."), None);
    assert_eq!(source_extension("a.b."), None);
}

#[test]
fn upload_becomes_a_request() {
    let request = SegmentationRequest::from_upload(
        Some(vec![9, 8, 7]),
        Some("clip.final.mkv".to_string()),
        "mp4".to_string(),
        Some(1024),
    )
    .unwrap();
    assert_eq!(request.source_bytes(), &vec![9, 8, 7]);
    assert_eq!(request.source_format(), "mkv");
    assert_eq!(request.target_format(), "mp4");
    assert_eq!(request.max_segment_bytes(), Some(1024));
}

#[test]
fn upload_faults_come_in_order() {
    let name = || Some("clip.mkv".to_string());
    let bytes = || Some(vec![1u8]);
    assert_eq!(
        SegmentationRequest::from_upload(None, None, String::new(), Some(0)),
        Err(UploadError::Unreadable)
    );
    assert_eq!(
        SegmentationRequest::from_upload(bytes(), None, String::new(), Some(0)),
        Err(UploadError::MissingFileName)
    );
    assert_eq!(
        SegmentationRequest::from_upload(bytes(), Some("clip".to_string()), String::new(), Some(0)),
        Err(UploadError::MissingExtension)
    );
    assert_eq!(
        SegmentationRequest::from_upload(bytes(), Some("clip.".to_string()), "mp4".to_string(), None),
        Err(UploadError::MissingExtension)
    );
    assert_eq!(
        SegmentationRequest::from_upload(bytes(), name(), String::new(), Some(0)),
        Err(UploadError::EmptyTargetFormat)
    );
    assert_eq!(
        SegmentationRequest::from_upload(bytes(), name(), "mp4".to_string(), Some(0)),
        Err(UploadError::ZeroSizeCap)
    );
    assert!(SegmentationRequest::from_upload(bytes(), name(), "mp4".to_string(), None).is_ok());
}

#[test]
fn request_parts_are_checked() {
    let blob = |format: &str| MediaBlob { bytes: vec![], format: format.to_string() };
    assert_eq!(
        SegmentationRequest::new(blob(""), "mp4".to_string(), None),
        Err(UploadError::MissingExtension)
    );
    assert_eq!(
        SegmentationRequest::new(blob("mov"), String::new(), None),
        Err(UploadError::EmptyTargetFormat)
    );
    assert_eq!(
        SegmentationRequest::new(blob("mov"), "mp4".to_string(), Some(0)),
        Err(UploadError::ZeroSizeCap)
    );
    let request = SegmentationRequest::new(blob("mov"), "mp4".to_string(), Some(1)).unwrap();
    assert_eq!(request.max_segment_bytes(), Some(1));
    assert_eq!(request.source_format(), "mov");
    assert!(request.source_bytes().is_empty());
}
