use accord_mobile::api::StockEntryLookupQuery;
use accord_mobile::rezka::{
    first_non_empty, first_submitted_entry, lookup_failure, source_barcode,
    source_entry_from_stock_entry, RezkaErrorResponse, RezkaSourceFailure, StockEntryBarcodeEntry,
};
use accord_mobile::werka::{
    customer_issue_batch_failure, customer_issue_batch_input_from_request, customer_issue_failure,
    customer_issue_input_from_request, stock_entry_lookup_failure, stock_entry_lookup_params,
    WerkaCustomerIssueCreateRequest, WerkaPortError,
};

fn entry(doc_status: i64, target: &str, source: &str, uom: &str, stock_uom: &str) -> StockEntryBarcodeEntry<f64> {
    StockEntryBarcodeEntry {
        stock_entry_name: "MAT-STE-001".to_string(),
        stock_entry_type: "Material Receipt".to_string(),
        doc_status,
        status: "Submitted".to_string(),
        company: "Accord".to_string(),
        posting_date: "2026-06-04".to_string(),
        posting_time: "09:00:00".to_string(),
        creation: "2026-06-04 09:00:00".to_string(),
        modified: "2026-06-04 09:00:00".to_string(),
        remarks: String::new(),
        line_index: 1,
        item_code: "FLEXO-RAW".to_string(),
        item_name: "Flexo raw".to_string(),
        qty: 600.0,
        uom: uom.to_string(),
        stock_uom: stock_uom.to_string(),
        barcode: "SRC-600".to_string(),
        source_warehouse: source.to_string(),
        target_warehouse: target.to_string(),
    }
}

#[test]
fn rezka_source_comes_from_submitted_stock_entry() {
    let entries = vec![entry(0, "X", "", "m", "m"), entry(1, "Stores - A", "", "m", "m")];
    let i = first_submitted_entry(&entries).expect("submitted entry");
    assert_eq!(i, 1);
    let e = entries.into_iter().nth(i).unwrap();
    let qty_above_zero = !(e.qty <= 0.0);
    let source = source_entry_from_stock_entry(e, qty_above_zero).expect("source");
    assert_eq!(source.barcode, "SRC-600");
    assert_eq!(source.warehouse, "Stores - A");
    assert_eq!(source.uom, "m");
    assert_eq!(source.qty, 600.0);
    assert_eq!(source.line_index, 1);
}

#[test]
fn rezka_source_falls_back_to_source_warehouse_and_kg() {
    let source = source_entry_from_stock_entry(entry(1, "  ", " Raw - A ", " ", ""), true).expect("source");
    assert_eq!(source.warehouse, "Raw - A");
    assert_eq!(source.uom, "Kg");
    let source = source_entry_from_stock_entry(entry(1, "W", "", "", " Roll "), true).expect("source");
    assert_eq!(source.uom, "Roll");
}

#[test]
fn rezka_source_rejects_missing_warehouse_or_quantity() {
    assert!(source_entry_from_stock_entry(entry(1, "", "", "m", "m"), true).is_none());
    assert!(source_entry_from_stock_entry(entry(1, "W", "", "m", "m"), false).is_none());
}

#[test]
fn no_submitted_entry_is_not_found() {
    let entries = vec![entry(0, "W", "", "m", "m"), entry(2, "W", "", "m", "m")];
    assert_eq!(first_submitted_entry(&entries), None);
    let (status, body) = RezkaSourceFailure::NotFound.response();
    assert_eq!(status, 404);
    assert_eq!(body.error, "stock_entry_not_found");
    assert!(!body.ok);
}

#[test]
fn first_non_empty_picks_trimmed_value_fallback_or_default() {
    assert_eq!(first_non_empty(" a ", "b", "c"), "a");
    assert_eq!(first_non_empty("  ", " b ", "c"), "b");
    assert_eq!(first_non_empty("", " ", "c"), "c");
}

#[test]
fn rezka_barcode_is_required() {
    assert_eq!(source_barcode("  SRC-1 ").unwrap(), "SRC-1");
    assert_eq!(source_barcode("   ").unwrap_err(), RezkaSourceFailure::BarcodeRequired);
    assert_eq!(lookup_failure(&WerkaPortError::InvalidInput), RezkaSourceFailure::BarcodeRequired);
    assert_eq!(lookup_failure(&WerkaPortError::LookupFailed), RezkaSourceFailure::LookupUnavailable);
    let (status, body) = RezkaSourceFailure::LookupUnavailable.response();
    assert_eq!(status, 503);
    assert_eq!(body.detail, "direct db lookup unavailable");
    let (status, body) = RezkaSourceFailure::SourceInvalid.response();
    assert_eq!(status, 400);
    assert_eq!(body.error, "source_entry_invalid");
}

#[test]
fn rezka_error_response_is_not_ok() {
    let r = RezkaErrorResponse::new("unauthorized", "unauthorized");
    assert!(!r.ok);
    assert_eq!(r.error, "unauthorized");
}

fn request() -> WerkaCustomerIssueCreateRequest<f64> {
    WerkaCustomerIssueCreateRequest {
        customer_ref: "CUST-1".to_string(),
        item_code: "ITEM-1".to_string(),
        qty: 3.5,
        source_barcode: "BC-1".to_string(),
        source_stock_entry: "STE-1".to_string(),
        source_line_index: 4,
    }
}

#[test]
fn customer_issue_keeps_its_source_line() {
    let input = customer_issue_input_from_request(request());
    assert_eq!(input.customer_ref, "CUST-1");
    assert_eq!(input.qty, 3.5);
    assert_eq!(input.source.barcode, "BC-1");
    assert_eq!(input.source.stock_entry_name, "STE-1");
    assert_eq!(input.source.line_index, 4);
}

#[test]
fn customer_issue_batch_lines_drop_their_source() {
    let input = customer_issue_batch_input_from_request(request());
    assert_eq!(input.item_code, "ITEM-1");
    assert_eq!(input.source.barcode, "");
    assert_eq!(input.source.stock_entry_name, "");
    assert_eq!(input.source.line_index, 0);
}

#[test]
fn customer_issue_failures_are_answered() {
    let (status, body) = customer_issue_failure(Some(&WerkaPortError::InsufficientStock));
    assert_eq!(status, 409);
    assert_eq!(body.error, "insufficient stock");
    assert_eq!(body.error_code.as_deref(), Some("insufficient_stock"));
    let (status, body) = customer_issue_failure(Some(&WerkaPortError::DuplicateCustomerIssueSource));
    assert_eq!(status, 409);
    assert_eq!(body.error_code.as_deref(), Some("duplicate_customer_issue_source"));
    let (status, body) = customer_issue_failure(Some(&WerkaPortError::WriteFailed("x".to_string())));
    assert_eq!(status, 500);
    assert_eq!(body.error, "werka customer issue create failed");
    assert_eq!(body.error_code, None);
    let (status, _) = customer_issue_failure(None);
    assert_eq!(status, 500);
    let (status, body) = customer_issue_batch_failure();
    assert_eq!(status, 500);
    assert_eq!(body.error_code, None);
}

fn query(barcode: Option<&str>, epc: Option<&str>, limit: Option<&str>) -> StockEntryLookupQuery {
    StockEntryLookupQuery {
        barcode: barcode.map(str::to_string),
        epc: epc.map(str::to_string),
        limit: limit.map(str::to_string),
    }
}

#[test]
fn stock_entry_lookup_uses_barcode_then_epc() {
    assert_eq!(
        stock_entry_lookup_params(&query(Some(" BC "), Some("EPC"), None)),
        Some(("BC".to_string(), 20))
    );
    assert_eq!(
        stock_entry_lookup_params(&query(Some("  "), Some(" EPC-1 "), Some("5"))),
        Some(("EPC-1".to_string(), 5))
    );
    assert_eq!(
        stock_entry_lookup_params(&query(None, None, Some("0"))),
        None
    );
    assert_eq!(
        stock_entry_lookup_params(&query(Some("B"), None, Some("-3"))),
        Some(("B".to_string(), 20))
    );
}

#[test]
fn stock_entry_lookup_failures_are_answered() {
    let (s, b) = stock_entry_lookup_failure(None);
    assert_eq!((s, b.error.as_str()), (503, "direct db lookup unavailable"));
    let (s, b) = stock_entry_lookup_failure(Some(&WerkaPortError::InvalidInput));
    assert_eq!((s, b.error.as_str()), (400, "barcode is required"));
    let (s, b) = stock_entry_lookup_failure(Some(&WerkaPortError::NotFound));
    assert_eq!((s, b.error.as_str()), (404, "stock entry not found"));
    let (s, b) = stock_entry_lookup_failure(Some(&WerkaPortError::LookupFailed));
    assert_eq!((s, b.error.as_str()), (500, "stock entry lookup failed"));
}
