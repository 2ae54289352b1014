use accord_mobile::api::optional_search_limit;

#[test]
fn admin_optional_search_limit_matches_go_defaults_and_clamp() {
    assert_eq!(optional_search_limit(None, 20, 50), 20);
    assert_eq!(optional_search_limit(Some(""), 20, 50), 20);
    assert_eq!(optional_search_limit(Some("abc"), 20, 50), 20);
    assert_eq!(optional_search_limit(Some("0"), 20, 50), 20);
    assert_eq!(optional_search_limit(Some("5"), 20, 50), 5);
    assert_eq!(optional_search_limit(Some("500"), 20, 50), 50);
}

#[test]
fn mod_optional_search_limit_matches_go_defaults_and_clamp() {
    assert_eq!(optional_search_limit(None, 20, 50), 20);
    assert_eq!(optional_search_limit(Some(""), 20, 50), 20);
    assert_eq!(optional_search_limit(Some("abc"), 20, 50), 20);
    assert_eq!(optional_search_limit(Some("0"), 20, 50), 20);
    assert_eq!(optional_search_limit(Some("5"), 20, 50), 5);
    assert_eq!(optional_search_limit(Some("500"), 20, 50), 50);
}
