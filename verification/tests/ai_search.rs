use accord_mobile::multipart::{detect_image_mime_type, multipart_boundary};

#[test]
fn detects_mime_like_go() {
    assert_eq!(detect_image_mime_type("a.jpg", "", b""), "image/jpeg");
    assert_eq!(detect_image_mime_type("a.png", "", b""), "image/png");
    assert_eq!(detect_image_mime_type("", "image/jpg", b""), "image/jpeg");
}

#[test]
fn extracts_multipart_boundary() {
    assert_eq!(
        multipart_boundary("multipart/form-data; boundary=\"abc\""),
        Some("abc".to_string())
    );
}

#[test]
fn ai_search_errors_are_answered() {
    use_ai_helpers();
}

fn use_ai_helpers() {
    assert_eq!(accord_mobile::multipart::ai_error_status("not_configured"), 503);
    assert_eq!(accord_mobile::multipart::ai_error_status("invalid_image"), 400);
    assert_eq!(accord_mobile::multipart::ai_error_status("upstream"), 502);
    assert!(accord_mobile::multipart::is_no_result("no_result"));
    assert!(!accord_mobile::multipart::is_no_result("no"));
    let (s, m, c) = accord_mobile::multipart::ImageUploadError::MissingImage.response();
    assert_eq!((s, m, c), (400, "image is required", "invalid_image"));
    let (_, m, _) = accord_mobile::multipart::ImageUploadError::InvalidUpload.response();
    assert_eq!(m, "invalid image upload");
}
