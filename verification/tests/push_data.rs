use accord_mobile::push::{delete_error, delete_token_param, register_error, register_token_param, PushServiceError};
use std::collections::HashMap;

use accord_mobile::models::{DispatchRecord, PrincipalRole};
use accord_mobile::push::dispatch_record_data_for_target;

#[test]
fn dispatch_record_data_matches_go_format() {
    let record = DispatchRecord {
        id: "PR-001".to_string(),
        record_type: String::new(),
        supplier_ref: "SUP-001".to_string(),
        supplier_name: "Supplier".to_string(),
        item_code: "ITEM-001".to_string(),
        item_name: "Rice".to_string(),
        uom: "Kg".to_string(),
        sent_qty: format!("{:.4}", 10.0_f64),
        accepted_qty: format!("{:.4}", 7.5_f64),
        amount: format!("{:.4}", 12.3_f64),
        currency: String::new(),
        note: String::new(),
        event_type: String::new(),
        highlight: String::new(),
        status: "partial".to_string(),
        created_label: "Bugun".to_string(),
    };

    let data: HashMap<String, String> =
        dispatch_record_data_for_target(&record, PrincipalRole::Supplier, "SUP-001")
            .into_iter()
            .collect();

    assert_eq!(data["id"], "PR-001");
    assert_eq!(data["sent_qty"], "10.0000");
    assert_eq!(data["accepted_qty"], "7.5000");
    assert_eq!(data["amount"], "12.3000");
    assert_eq!(data["target_role"], "supplier");
    assert_eq!(data["target_ref"], "SUP-001");
}

#[test]
fn push_token_requests_are_checked() {
    assert!(register_token_param(" t ").is_ok());
    let (s, b) = register_token_param("  ").unwrap_err();
    assert_eq!((s, b.error.as_str()), (400, "token is required"));
    assert_eq!(delete_token_param(Some(" dev ")).unwrap(), "dev");
    assert!(delete_token_param(None).is_err());
    let (s, b) = register_error(PushServiceError::StoreFailed);
    assert_eq!((s, b.error.as_str()), (500, "push token save failed"));
    let (s, b) = delete_error(PushServiceError::StoreFailed);
    assert_eq!((s, b.error.as_str()), (500, "push token delete failed"));
    let (s, _) = delete_error(PushServiceError::TokenRequired);
    assert_eq!(s, 400);
}
