use accord_mobile::api::{optional_offset, parse_positive_int, positive_int, required_ref, required_ref_item};
use accord_mobile::archive_pdf::build_pdf_text_stream;
use accord_mobile::auth::{
    bearer_token, login_error, request_scheme, require_notification_role, require_supplier,
    role_key, AuthError,
};
use accord_mobile::calculate::{image_extension, new_image_id, safe_image_id, safe_path_part};
use accord_mobile::models::{Principal, PrincipalRole};
use accord_mobile::multipart::{disposition_param, header_value_param};
use accord_mobile::order_templates::{
    dedupe_templates, legacy_template_key, new_id, normalize_key, quick_template_key,
    stamp_template, stamp_template_at, with_code_at, with_default_code, CalculateOrderTemplate,
};

fn template(id: &str, code: &str, name: &str, item_code: &str) -> CalculateOrderTemplate<f64> {
    CalculateOrderTemplate {
        id: id.to_string(),
        code: code.to_string(),
        name: name.to_string(),
        saved_at: String::new(),
        order_number: " 12 ".to_string(),
        customer_ref: " CUST ".to_string(),
        customer: "Acme".to_string(),
        item_code: item_code.to_string(),
        product: String::new(),
        status: "New".to_string(),
        material_display: String::new(),
        color: "Red".to_string(),
        image_id: String::new(),
        image_name: String::new(),
        image_mime: String::new(),
        image_size_bytes: 3,
        image_url: String::new(),
        width_mm: 650.0,
        waste_percent: 2.5,
        roll_count: Some(4.0),
        width_mm_key: "650.000".to_string(),
        waste_percent_key: "2.500".to_string(),
        roll_count_key: "4.000".to_string(),
        first_layer_material: String::new(),
        first_layer_micron: String::new(),
        second_layer_material: String::new(),
        second_layer_micron: String::new(),
        third_layer_material: String::new(),
        third_layer_micron: String::new(),
        note: String::new(),
        kg: 0.0,
        source_map_id: String::new(),
    }
}

#[test]
fn normalized_keys_are_trimmed_lowercase() {
    assert_eq!(normalize_key("  HeLLo "), "hello");
    assert_eq!(normalize_key("ÄB"), "äb");
}

#[test]
fn legacy_key_uses_code_or_id() {
    assert_eq!(legacy_template_key(&template(" 7 ", " Z-1 ", "", "")), "code:z-1");
    assert_eq!(legacy_template_key(&template(" 7 ", " ", "", "")), "id:7");
}

#[test]
fn quick_key_joins_normalized_parts() {
    let key = quick_template_key(&template("1", "C", "Name", " ITEM "));
    assert_eq!(key, "quick|cust|acme|item|new||red|650.000|2.500|4.000|||||||");
    let legacy = quick_template_key(&template("9", "", "", ""));
    assert_eq!(legacy, "id:9");
}

#[test]
fn dedupe_keeps_first_of_each_key_and_every_bare_id() {
    let listed = vec![
        template("1", "A", "", "ITEM"),
        template("2", "B", "", "item"),
        template("", "", "", ""),
        template("", "", "", ""),
        template("3", "C", "", "OTHER"),
    ];
    let kept = dedupe_templates(listed);
    let ids: Vec<&str> = kept.iter().map(|t| t.id.as_str()).collect();
    assert_eq!(ids, vec!["1", "", "", "3"]);
}

#[test]
fn stamping_trims_fields_and_picks_the_id() {
    let t = stamp_template_at(template(" own ", " C ", " N ", " I "), Some(" ".to_string()), 5, 9);
    assert_eq!(t.id, "own");
    assert_eq!(t.code, "C");
    assert_eq!(t.order_number, "12");
    assert_eq!(t.saved_at, "9");
    let t = stamp_template_at(template(" ", "C", "N", "I"), None, 5, 9);
    assert_eq!(t.id, "5");
    let t = stamp_template_at(template("own", "C", "N", "I"), Some("existing".to_string()), 5, 9);
    assert_eq!(t.id, "existing");
    let now = stamp_template(template("own", "C", "N", "I"), None);
    assert_eq!(now.id, "own");
    assert!(!now.saved_at.is_empty() && now.saved_at.chars().all(|c| c.is_ascii_digit()));
}

#[test]
fn templates_without_code_get_one() {
    assert_eq!(with_code_at(template("1", "  ", "N", "I"), 42).code, "Z-42");
    assert_eq!(with_code_at(template("1", "K", "N", "I"), 42).code, "K");
    let t = with_default_code(template("1", "", "N", "I"));
    assert!(t.code.starts_with("Z-") && t.code.len() > 2);
    let id = new_id();
    assert!(!id.is_empty() && id.chars().all(|c| c.is_ascii_digit()));
}

#[test]
fn calculate_image_helpers() {
    assert_eq!(image_extension("image/jpg"), Some("jpg"));
    assert_eq!(image_extension("image/webp"), Some("webp"));
    assert_eq!(image_extension("image/gif"), None);
    assert_eq!(safe_path_part("admin:admin/x"), "admin_admin_x");
    assert!(safe_image_id(" img123 "));
    assert!(!safe_image_id("../etc"));
    assert!(!safe_image_id(""));
    let id = new_image_id();
    assert!(id.starts_with("img") && safe_image_id(&id));
}

fn principal(role: PrincipalRole) -> Principal {
    Principal {
        role,
        display_name: String::new(),
        legal_name: String::new(),
        ref_: String::new(),
        phone: String::new(),
        avatar_url: String::new(),
    }
}

#[test]
fn auth_helpers() {
    assert_eq!(bearer_token(Some("Bearer  tok ")), Some("tok".to_string()));
    assert_eq!(bearer_token(Some("Basic tok")), None);
    assert_eq!(bearer_token(Some("Bearer   ")), None);
    assert_eq!(request_scheme(Some(" HTTPS ")), "https");
    assert_eq!(request_scheme(Some("http")), "http");
    assert_eq!(request_scheme(None), "http");
    assert_eq!(role_key(&PrincipalRole::Aparatchi), "aparatchi");
    assert!(require_notification_role(&principal(PrincipalRole::Customer)));
    assert!(!require_notification_role(&principal(PrincipalRole::Admin)));
    assert!(require_supplier(&principal(PrincipalRole::Supplier)));
    assert!(!require_supplier(&principal(PrincipalRole::Werka)));
    let (s, b) = login_error(AuthError::InvalidRole);
    assert_eq!((s, b.error.as_str()), (401, "invalid credentials"));
    let (s, b) = login_error(AuthError::Internal);
    assert_eq!((s, b.error.as_str()), (500, "internal error"));
}

#[test]
fn api_parameter_helpers() {
    assert_eq!(required_ref(Some(" SUP-1 ")).unwrap(), "SUP-1");
    let e = required_ref(Some(" ")).unwrap_err();
    assert_eq!((e.status, e.body.error.as_str()), (400, "ref is required"));
    let (r, i) = required_ref_item(Some("R"), Some(" I ")).unwrap();
    assert_eq!((r.as_str(), i.as_str()), ("R", "I"));
    let e = required_ref_item(Some("R"), None).unwrap_err();
    assert_eq!(e.body.error, "ref and item_code are required");
    assert_eq!(positive_int(Some(" 7 "), 50), 7);
    assert_eq!(positive_int(Some("0"), 50), 50);
    assert_eq!(parse_positive_int(Some("+3"), 20), 3);
    assert_eq!(parse_positive_int(Some("x"), 20), 20);
    assert_eq!(optional_offset(Some(" 15 ")), 15);
    assert_eq!(optional_offset(Some("-1")), 0);
}

#[test]
fn multipart_header_parameters() {
    assert_eq!(
        disposition_param("form-data; name=\"avatar\"; filename=\"me.png\"", "filename"),
        Some("me.png".to_string())
    );
    assert_eq!(disposition_param("form-data; name=\"avatar\"", "filename"), None);
    assert_eq!(disposition_param("form-data; filename=\"\"", "filename"), None);
    assert_eq!(
        header_value_param("Content-Disposition: form-data; name=\"image\"; filename=\"a.jpg\"", "name"),
        Some("image".to_string())
    );
}

#[test]
fn pdf_text_stream_lists_lines() {
    let stream = build_pdf_text_stream(&["A (1)".to_string(), "B".to_string()]);
    assert!(stream.contains("(A \\(1\\)) Tj"));
    assert!(stream.contains("(B) Tj"));
}

#[test]
fn quick_key_ignores_case_whitespace_and_order_fields() {
    let a = template("1", "Z-1", "Name", " ITEM ");
    let mut b = template("2", "Z-2", "name", "item");
    b.customer = "  ACME ".to_string();
    b.status = "new".to_string();
    b.order_number = "99".to_string();
    b.saved_at = "yesterday".to_string();
    b.kg = 12.0;
    b.source_map_id = "map-7".to_string();
    b.image_id = "img".to_string();
    let key = quick_template_key(&a);
    assert_eq!(key, quick_template_key(&b));
    assert!(key.starts_with("quick|"));
    let mut wider = template("1", "Z-1", "Name", " ITEM ");
    wider.width_mm = 640.0;
    wider.width_mm_key = "640.000".to_string();
    assert_ne!(quick_template_key(&wider), key);
}
