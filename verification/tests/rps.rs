use accord_mobile::rps::{
    driver_print_url, normalize_driver_url, print_error_detail, GscalePortError,
    RpsBatchErrorResponse, RpsBatchServiceError,
};

#[test]
fn builds_driver_print_url_from_request_or_default() {
    let default = normalize_driver_url("http://127.0.0.1:39117/");

    assert_eq!(
        driver_print_url(&default, "").unwrap().text.as_str(),
        "http://127.0.0.1:39117/v1/driver/print"
    );
    assert_eq!(
        driver_print_url(&default, "http://10.0.0.5:41257/base")
            .unwrap()
            .text
            .as_str(),
        "http://10.0.0.5:41257/base/v1/driver/print"
    );
}

#[test]
fn rejects_missing_or_non_http_driver_url() {
    let default = normalize_driver_url("");

    assert!(matches!(
        driver_print_url(&default, "").unwrap_err(),
        GscalePortError::NotConfigured(_)
    ));
    assert!(matches!(
        driver_print_url(&default, "file:///tmp/rps").unwrap_err(),
        GscalePortError::InvalidInput(_)
    ));
}

#[test]
fn print_error_detail_maps_driver_busy_to_operator_message() {
    assert_eq!(
        print_error_detail(
            "driver_busy",
            "Printer server band. Boshqa mobile print yakunlagandan keyin qayta urining.",
            "",
            409
        ),
        "Printer band. Boshqa mobile print qilmoqda, keyin qayta urining."
    );
}

#[test]
fn driver_url_is_trimmed_of_spaces_and_trailing_slashes() {
    assert_eq!(normalize_driver_url("  http://scale.local:9000///  "), "http://scale.local:9000");
    assert_eq!(normalize_driver_url("   "), "");
}

#[test]
fn request_driver_url_wins_and_is_trimmed() {
    let url = driver_print_url("http://default:1", "  https://scale.example/api/  ").unwrap();
    assert_eq!(url.text, "https://scale.example/api/v1/driver/print");
    assert_eq!(url.url.as_str(), url.text);
}

#[test]
fn unparsable_driver_url_is_invalid_input() {
    match driver_print_url("", "not a url") {
        Err(GscalePortError::InvalidInput(detail)) => assert!(!detail.is_empty()),
        _ => panic!("expected invalid input"),
    }
}

#[test]
fn non_web_scheme_message_is_stated() {
    match driver_print_url("", "ftp://scale.local") {
        Err(GscalePortError::InvalidInput(detail)) => {
            assert_eq!(detail, "scale driver url must be http or https")
        }
        _ => panic!("expected invalid input"),
    }
}

#[test]
fn print_error_detail_prefers_detail_then_error_then_status() {
    assert_eq!(print_error_detail("boom", "  paper out  ", "500", 500), "paper out");
    assert_eq!(print_error_detail(" boom ", "  ", "500", 500), "boom");
    assert_eq!(print_error_detail("", "", " failed ", 500), "failed");
    assert_eq!(print_error_detail("", "", "", 502), "scale driver http 502");
    assert_eq!(print_error_detail(" driver_busy ", "x", "y", 409), "Printer band. Boshqa mobile print qilmoqda, keyin qayta urining.");
}

#[test]
fn batch_errors_have_codes_and_statuses() {
    let invalid = RpsBatchServiceError::InvalidInput("bad".to_string());
    assert_eq!(invalid.code(), "invalid_input");
    assert_eq!(invalid.status(), 400);
    assert_eq!(RpsBatchServiceError::BatchNotActive.code(), "batch_not_active");
    assert_eq!(RpsBatchServiceError::BatchNotActive.status(), 409);
    assert_eq!(RpsBatchServiceError::StoreFailed.code(), "batch_store_failed");
    assert_eq!(RpsBatchServiceError::StoreFailed.status(), 500);
}

#[test]
fn batch_error_response_is_not_ok() {
    let r = RpsBatchErrorResponse::new("forbidden", "forbidden");
    assert!(!r.ok);
    assert_eq!(r.error, "forbidden");
    assert_eq!(r.detail, "forbidden");
}
