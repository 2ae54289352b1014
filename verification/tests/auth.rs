use accord_mobile::auth::with_avatar_proxy;
use accord_mobile::models::{Principal, PrincipalRole};

#[test]
fn supplier_avatar_uses_token_proxy_url() {
    let principal = with_avatar_proxy(
        Some("mobile.test"),
        None,
        Principal {
            role: PrincipalRole::Supplier,
            display_name: "Supplier".to_string(),
            legal_name: "Supplier".to_string(),
            ref_: "SUP-001".to_string(),
            phone: "+998901234567".to_string(),
            avatar_url: "http://erp.test/files/avatar.png".to_string(),
        },
        "abc token",
    );

    assert_eq!(
        principal.avatar_url,
        "http://mobile.test/v1/mobile/profile/avatar/view?token=abc%20token"
    );
}

#[test]
fn customer_avatar_is_not_proxied() {
    let principal = with_avatar_proxy(
        Some("mobile.test"),
        None,
        Principal {
            role: PrincipalRole::Customer,
            display_name: "Customer".to_string(),
            legal_name: "Customer".to_string(),
            ref_: "CUST-001".to_string(),
            phone: "+998901234567".to_string(),
            avatar_url: "http://erp.test/files/avatar.png".to_string(),
        },
        "token",
    );

    assert_eq!(principal.avatar_url, "http://erp.test/files/avatar.png");
}
