use accord_mobile::calculate::{
    calculate_order_error, image_body_refusal, image_view_candidates, image_view_url,
    query_value, stored_image_name, upload_file_name, upload_mime, CalculateOrderError,
};
use accord_mobile::multipart::{trim_prefix, trim_suffix};
use accord_mobile::profile::{avatar_upload_request, avatar_view_token, AVATAR_BODY_LIMIT};
use accord_mobile::server::{default_listener_count, listener_count};

#[test]
fn byte_prefix_and_suffix_are_trimmed_once() {
    assert_eq!(trim_prefix(b"\r\n\r\nabc", b"\r\n"), b"\r\nabc");
    assert_eq!(trim_prefix(b"abc", b"\r\n"), b"abc");
    assert_eq!(trim_suffix(b"abc--", b"--"), b"abc");
    assert_eq!(trim_suffix(b"abc", b"--"), b"abc");
}

#[test]
fn avatar_upload_request_checks_size_boundary_and_field() {
    let body = b"--XYZ\r\nContent-Disposition: form-data; name=\"avatar\"; filename=\"me.jpg\"\r\nContent-Type: image/jpeg\r\n\r\nJPEGDATA\r\n--XYZ--\r\n";
    let upload = avatar_upload_request(body, "multipart/form-data; boundary=XYZ").expect("upload");
    assert_eq!(upload.filename, "me.jpg");
    assert_eq!(upload.content_type, "image/jpeg");
    assert_eq!(upload.content, b"JPEGDATA");

    let (s, b) = avatar_upload_request(body, "multipart/form-data").unwrap_err();
    assert_eq!((s, b.error.as_str()), (400, "invalid multipart"));

    let other = b"--XYZ\r\nContent-Disposition: form-data; name=\"photo\"\r\n\r\nX\r\n--XYZ--\r\n";
    let (s, b) = avatar_upload_request(other, "multipart/form-data; boundary=XYZ").unwrap_err();
    assert_eq!((s, b.error.as_str()), (400, "avatar is required"));

    let big = vec![0u8; AVATAR_BODY_LIMIT + 1];
    let (s, b) = avatar_upload_request(&big, "multipart/form-data; boundary=XYZ").unwrap_err();
    assert_eq!((s, b.error.as_str()), (400, "invalid multipart"));
}

#[test]
fn avatar_view_token_prefers_query_then_bearer() {
    assert_eq!(avatar_view_token(Some(" tok "), Some("Bearer other")), Some("tok".to_string()));
    assert_eq!(avatar_view_token(Some("  "), Some("Bearer other")), Some("other".to_string()));
    assert_eq!(avatar_view_token(None, None), None);
}

#[test]
fn image_body_size_is_checked() {
    assert_eq!(image_body_refusal(0), Some("rasm kerak"));
    assert_eq!(image_body_refusal(6 * 1024 * 1024 + 1), Some("rasm hajmi katta"));
    assert_eq!(image_body_refusal(6 * 1024 * 1024), None);
}

#[test]
fn upload_mime_is_first_piece_lowercased() {
    assert_eq!(upload_mime(Some(" Image/PNG ; charset=x")), "image/png");
    assert_eq!(upload_mime(None), "image/jpeg");
}

#[test]
fn upload_file_name_is_cleaned_or_defaulted() {
    assert_eq!(upload_file_name(Some(" ../a/b.png "), "png"), "..ab.png");
    assert_eq!(upload_file_name(Some(" / "), "webp"), "rang.webp");
    assert_eq!(upload_file_name(None, "jpg"), "rang.jpg");
}

#[test]
fn image_paths_and_urls() {
    assert_eq!(stored_image_name("img1", "png"), "img1.png");
    assert_eq!(image_view_url("img1"), "/v1/mobile/calculate/orders/image/view?id=img1");
    let c = image_view_candidates("img1");
    assert_eq!(c.len(), 4);
    assert_eq!(c[0], ("img1.jpg".to_string(), "image/jpeg"));
    assert_eq!(c[1], ("img1.jpeg".to_string(), "image/jpeg"));
    assert_eq!(c[3], ("img1.webp".to_string(), "image/webp"));
}

#[test]
fn query_value_finds_the_first_matching_pair() {
    assert_eq!(query_value(Some("a=1&id= img7 &id=x"), "id"), Some("img7".to_string()));
    assert_eq!(query_value(Some("id&x=1"), "id"), None);
    assert_eq!(query_value(None, "id"), None);
}

#[test]
fn calculate_order_errors_are_answered() {
    let (s, b) = calculate_order_error(CalculateOrderError::InvalidInput("kod kerak".to_string()));
    assert_eq!((s, b.error.as_str(), b.detail.as_str()), (400, "invalid_input", "kod kerak"));
    let (s, b) = calculate_order_error(CalculateOrderError::StoreFailed);
    assert_eq!((s, b.error.as_str(), b.detail.as_str()), (500, "store_failed", "store failed"));
    assert!(!b.ok);
}

#[test]
fn listener_count_uses_positive_configuration_or_clamped_default() {
    assert_eq!(listener_count(Some(" 3 "), Some(16)), 3);
    assert_eq!(listener_count(Some("0"), Some(16)), 8);
    assert_eq!(listener_count(None, None), 1);
    assert_eq!(default_listener_count(Some(4)), 4);
    assert_eq!(default_listener_count(Some(0)), 1);
}
