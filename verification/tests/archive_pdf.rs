use accord_mobile::archive_pdf::{build_archive_pdf, escape_pdf_text, trim_float};
use accord_mobile::models::{
    ArchiveTotalByUom, DispatchRecord, WerkaArchiveResponse, WerkaArchiveSummary,
};

fn record(id: &str) -> DispatchRecord {
    DispatchRecord {
        id: id.to_string(),
        record_type: String::new(),
        supplier_ref: String::new(),
        supplier_name: String::new(),
        item_code: String::new(),
        item_name: String::new(),
        uom: String::new(),
        sent_qty: String::new(),
        accepted_qty: String::new(),
        amount: String::new(),
        currency: String::new(),
        note: String::new(),
        event_type: String::new(),
        highlight: String::new(),
        status: String::new(),
        created_label: String::new(),
    }
}

#[test]
fn pdf_starts_with_header_and_contains_archive_lines() {
    let data = WerkaArchiveResponse {
        kind: "sent".to_string(),
        period: "monthly".to_string(),
        from: "2026-01-16".to_string(),
        to: "2026-01-20".to_string(),
        summary: WerkaArchiveSummary {
            record_count: 1,
            totals_by_uom: vec![ArchiveTotalByUom {
                uom: "Kg".to_string(),
                qty: "12.5".to_string(),
            }],
        },
        items: vec![DispatchRecord {
            record_type: "delivery_note".to_string(),
            supplier_name: "Customer".to_string(),
            item_code: "ITEM-001".to_string(),
            item_name: "Item".to_string(),
            uom: "Kg".to_string(),
            sent_qty: "12.5".to_string(),
            accepted_qty: "10".to_string(),
            status: "partial".to_string(),
            created_label: "2026-01-16".to_string(),
            ..record("DN-001")
        }],
    };

    let pdf = String::from_utf8(build_archive_pdf(&data)).expect("pdf text");

    assert!(pdf.starts_with("%PDF-1.4\n"));
    assert!(pdf.contains("Werka Archive Report"));
    assert!(pdf.contains("Kind: sent"));
    assert!(pdf.contains("Records: 1"));
    assert!(pdf.ends_with("%%EOF\n"));
}

#[test]
fn escape_pdf_text_matches_go_rules() {
    assert_eq!(escape_pdf_text("  a(b)\\c\tЯ  "), "a\\(b\\)\\\\c ?");
}

#[test]
fn trim_float_drops_fraction_zeros_and_negative_zero() {
    assert_eq!(trim_float("10.000".to_string()), "10");
    assert_eq!(trim_float("7.500".to_string()), "7.5");
    assert_eq!(trim_float("0.0010".to_string()), "0.001");
    assert_eq!(trim_float("-0.000".to_string()), "0");
    assert_eq!(trim_float("1200".to_string()), "1200");
    assert_eq!(trim_float("-0".to_string()), "0");
}

#[test]
fn long_reports_spread_lines_over_pages_once_each() {
    let items: Vec<DispatchRecord> = (0..100)
        .map(|i| DispatchRecord {
            item_code: format!("ITEM-{i:03}"),
            ..record(&format!("R-{i:03}"))
        })
        .collect();
    let data = WerkaArchiveResponse {
        kind: "sent".to_string(),
        period: "monthly".to_string(),
        from: String::new(),
        to: "  ".to_string(),
        summary: WerkaArchiveSummary { record_count: 100, totals_by_uom: Vec::new() },
        items,
    };
    let pdf = String::from_utf8(build_archive_pdf(&data)).expect("pdf text");
    assert!(pdf.starts_with("%PDF-1.4\n"));
    assert!(pdf.contains("From: -"));
    assert!(pdf.contains("To: -"));
    for i in 0..100 {
        assert_eq!(pdf.matches(&format!("ITEM-{i:03}")).count(), 1);
    }
    assert_eq!(pdf.matches("/Type /Page /Parent").count(), 3);
}
