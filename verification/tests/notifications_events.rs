use accord_mobile::customer::{
    customer_detail_failure, customer_respond_failure, delivery_note_id_param, status_kind_param,
    CustomerFailure,
};
use accord_mobile::events::{
    customer_issue_message, customer_response_messages, dispatch_created_message,
    receipt_confirmed_message, supplier_ack_message, unannounced_response_message,
};
use accord_mobile::models::{DispatchRecord, PrincipalRole};
use accord_mobile::notifications::{
    is_supplier_ack, notification_failure, receipt_id_param, supplier_ack_event,
    supplier_ack_record,
};

fn record() -> DispatchRecord {
    DispatchRecord {
        id: " PR-001 ".to_string(),
        record_type: "receipt".to_string(),
        supplier_ref: " SUP-001 ".to_string(),
        supplier_name: "Supplier".to_string(),
        item_code: "ITEM-001".to_string(),
        item_name: "Rice".to_string(),
        uom: "Kg".to_string(),
        sent_qty: "10.0000".to_string(),
        accepted_qty: "7.5000".to_string(),
        amount: "12.3000".to_string(),
        currency: "UZS".to_string(),
        note: "Qaytarildi".to_string(),
        event_type: "receipt".to_string(),
        highlight: String::new(),
        status: " partial ".to_string(),
        created_label: "Bugun".to_string(),
    }
}

#[test]
fn receipt_id_is_required() {
    assert_eq!(receipt_id_param(Some(" R-1 ")).unwrap(), " R-1 ");
    let (status, body) = receipt_id_param(Some("  ")).unwrap_err();
    assert_eq!(status, 400);
    assert_eq!(body.error, "receipt_id is required");
    assert!(receipt_id_param(None).is_err());
}

#[test]
fn unauthorized_backend_errors_are_forbidden() {
    let (s, b) = notification_failure(Some("werka: unauthorized receipt"), "notification comment failed");
    assert_eq!((s, b.error.as_str()), (403, "forbidden"));
    let (s, b) = notification_failure(Some("timeout"), "notification comment failed");
    assert_eq!((s, b.error.as_str()), (500, "notification comment failed"));
    let (s, b) = notification_failure(None, "notification detail failed");
    assert_eq!((s, b.error.as_str()), (500, "notification detail failed"));
}

#[test]
fn supplier_acknowledgment_is_recognized_case_insensitively() {
    assert!(is_supplier_ack(PrincipalRole::Supplier, "  Tasdiqlayman, oldim"));
    assert!(is_supplier_ack(PrincipalRole::Supplier, "TASDIQLAYMAN"));
    assert!(!is_supplier_ack(PrincipalRole::Werka, "tasdiqlayman"));
    assert!(!is_supplier_ack(PrincipalRole::Supplier, "rad etaman"));
}

#[test]
fn supplier_ack_record_marks_the_event() {
    let ack = supplier_ack_record(&record(), 1_700_000_000);
    assert_eq!(ack.id, "supplier_ack:PR-001:1700000000");
    assert_eq!(ack.event_type, "supplier_ack");
    assert_eq!(ack.highlight, "Supplier mahsulotni qaytarganingizni tasdiqladi");
    assert_eq!(ack.note, "");
    assert_eq!(ack.sent_qty, "10.0000");
    let early = supplier_ack_record(&record(), -5);
    assert_eq!(early.id, "supplier_ack:PR-001:-5");
    let now = supplier_ack_event(&record());
    assert!(now.id.starts_with("supplier_ack:PR-001:"));
}

#[test]
fn dispatch_created_message_goes_to_werka() {
    let m = dispatch_created_message(&record(), "10");
    assert_eq!(m.key, "werka:werka");
    assert_eq!(m.title, "Supplier");
    assert_eq!(m.body, "ITEM-001 \u{2022} 10 Kg qabul kutmoqda.");
    assert_eq!(m.target_role, PrincipalRole::Werka);
    assert_eq!(m.target_ref, "werka");
}

#[test]
fn receipt_confirmation_goes_to_the_supplier() {
    let m = receipt_confirmed_message(&record());
    assert_eq!(m.key, "supplier:SUP-001");
    assert_eq!(m.title, "ITEM-001");
    assert_eq!(m.body, "Status: partial");
    assert_eq!(m.target_role, PrincipalRole::Supplier);
    assert_eq!(m.target_ref, " SUP-001 ");
}

#[test]
fn answers_and_acknowledgments_go_to_werka() {
    let m = unannounced_response_message(&record());
    assert_eq!((m.key.as_str(), m.title.as_str(), m.body.as_str()), ("werka:werka", "Supplier javob berdi", "Qaytarildi"));
    let ack = supplier_ack_record(&record(), 1);
    let m = supplier_ack_message(&ack);
    assert_eq!(m.title, "Supplier tasdiqladi");
    assert_eq!(m.body, "Supplier mahsulotni qaytarganingizni tasdiqladi");
    let ms = customer_response_messages(&record());
    assert_eq!(ms.len(), 2);
    assert_eq!(ms[0].key, "werka:werka");
    assert_eq!(ms[1].key, "admin:admin");
    assert_eq!(ms[1].target_role, PrincipalRole::Admin);
    assert_eq!(ms[1].title, "Customer javob berdi");
}

#[test]
fn customer_issue_message_goes_to_the_customer() {
    let m = customer_issue_message(" CUST-1 ", " ITEM-1 ", "4", " Kg ");
    assert_eq!(m.key, "customer:CUST-1");
    assert_eq!(m.title, "Werka mahsulot jo'natdi");
    assert_eq!(m.body, "ITEM-1 4 Kg jo'natildi");
    assert_eq!(m.target_role, PrincipalRole::Customer);
    assert_eq!(m.target_ref, " CUST-1 ");
}

#[test]
fn customer_parameters_are_trimmed() {
    assert_eq!(delivery_note_id_param(Some(" DN-1 ")).unwrap(), "DN-1");
    let (s, b) = delivery_note_id_param(None).unwrap_err();
    assert_eq!((s, b.error.as_str()), (400, "delivery_note_id is required"));
    assert_eq!(status_kind_param(Some(" pending ")), "pending");
    assert_eq!(status_kind_param(None), "");
}

#[test]
fn customer_failures_are_answered() {
    let (s, b) = customer_detail_failure(CustomerFailure::Unauthorized);
    assert_eq!((s, b.error.as_str()), (403, "forbidden"));
    let (s, b) = customer_detail_failure(CustomerFailure::InvalidInput);
    assert_eq!((s, b.error.as_str()), (500, "customer detail failed"));
    let (s, b) = customer_respond_failure(CustomerFailure::InvalidInput);
    assert_eq!((s, b.error.as_str()), (400, "invalid input"));
    let (s, b) = customer_respond_failure(CustomerFailure::Nothing);
    assert_eq!((s, b.error.as_str()), (500, "customer respond failed"));
}
