use accord_mobile::push_tokens::{
    delete_plan, legacy_moves, move_plan, normalize_record, previous_owner_to_clear, push_token_hash, records_with,
    remove_token_update, token_already_registered, PushTokenRecord, RecordsUpdate,
    StoredPushTokenRecord,
};

fn rec(token: &str, platform: &str, at: i128) -> PushTokenRecord {
    PushTokenRecord { token: token.to_string(), platform: platform.to_string(), updated_at_nanos: at }
}

#[test]
fn normalized_record_is_trimmed() {
    let r = normalize_record(rec(" device-a ", " ios ", 7));
    assert_eq!(r.token, "device-a");
    assert_eq!(r.platform, "ios");
    assert_eq!(r.updated_at_nanos, 7);
}

#[test]
fn stored_record_round_trips() {
    let stored = StoredPushTokenRecord::from_record(&rec("t", "android", -42));
    assert_eq!(stored.updated_at_nanos, -42);
    let back = stored.into_record();
    assert_eq!(back.token, "t");
    assert_eq!(back.platform, "android");
    assert_eq!(back.updated_at_nanos, -42);
}

#[test]
fn moving_a_record_replaces_the_token_and_appends() {
    let records = vec![rec(" shared ", "ios", 1), rec("other", "ios", 2)];
    let out = records_with(&records, rec("shared", "android", 3));
    assert_eq!(out.len(), 2);
    assert_eq!(out[0].token, "other");
    assert_eq!(out[1].token, "shared");
    assert_eq!(out[1].platform, "android");
}

#[test]
fn removing_a_token_reports_what_to_write() {
    let records = vec![rec("a", "ios", 1), rec(" b ", "ios", 2)];
    match remove_token_update(&records, "b") {
        (RecordsUpdate::Put(rest), true) => {
            assert_eq!(rest.len(), 1);
            assert_eq!(rest[0].token, "a");
        }
        _ => panic!("expected put"),
    }
    assert!(matches!(remove_token_update(&records, "c"), (RecordsUpdate::Unchanged, false)));
    let single = vec![rec("a", "ios", 1)];
    assert!(matches!(remove_token_update(&single, "a"), (RecordsUpdate::Delete, true)));
    let empty: Vec<PushTokenRecord> = Vec::new();
    assert!(matches!(remove_token_update(&empty, "a"), (RecordsUpdate::Delete, false)));
}

#[test]
fn duplicate_registration_is_detected() {
    let records = vec![rec("device-a", " android ", 1)];
    assert!(token_already_registered(Some("werka:werka"), "werka:werka", &records, "device-a", "android"));
    assert!(!token_already_registered(Some("werka:werka"), "werka:werka", &records, "device-a", "ios"));
    assert!(!token_already_registered(Some("supplier:SUP-1"), "werka:werka", &records, "device-a", "android"));
    assert!(!token_already_registered(None, "werka:werka", &records, "device-a", "android"));
}

#[test]
fn previous_owner_is_cleared_only_when_it_differs() {
    assert_eq!(previous_owner_to_clear(Some("supplier:SUP-1"), "werka:werka"), Some("supplier:SUP-1".to_string()));
    assert_eq!(previous_owner_to_clear(Some("werka:werka"), "werka:werka"), None);
    assert_eq!(previous_owner_to_clear(None, "werka:werka"), None);
}

#[test]
fn legacy_registry_moves_skip_blank_keys_and_tokens() {
    let data = vec![
        (" supplier:SUP-1 ".to_string(), vec![rec(" device-a ", " ios ", 5), rec("  ", "ios", 6)]),
        ("   ".to_string(), vec![rec("device-b", "ios", 7)]),
        ("werka:werka".to_string(), vec![rec("device-c", "android", 8)]),
    ];
    let moves = legacy_moves(&data);
    assert_eq!(moves.len(), 2);
    assert_eq!(moves[0].0, "supplier:SUP-1");
    assert_eq!(moves[0].1.token, "device-a");
    assert_eq!(moves[0].1.platform, "ios");
    assert_eq!(moves[1].0, "werka:werka");
    assert_eq!(moves[1].1.token, "device-c");
}

#[test]
fn token_hash_is_sha256_of_the_token() {
    let h = push_token_hash("abc");
    let hex: String = h.iter().map(|b| format!("{b:02x}")).collect();
    assert_eq!(hex, "ba7816bf8f01cfea414140de5dae2223b00361a396177a9cb410ff61f20015ad");
    assert_ne!(push_token_hash("abc"), push_token_hash("abd"));
}

#[test]
fn move_plan_clears_the_previous_owner_and_fills_the_target() {
    let previous = vec![rec("t1", "ios", 1), rec("t2", "ios", 2)];
    let target = vec![rec("t3", "android", 3)];
    let plan = move_plan(Some("user:a"), "user:b", Some(&target), Some(&previous), rec(" t1 ", "web", 9));
    let (key, update) = plan.clear.expect("previous owner is cleared");
    assert_eq!(key, "user:a");
    match update {
        RecordsUpdate::Put(rest) => {
            assert_eq!(rest.len(), 1);
            assert_eq!(rest[0].token, "t2");
        }
        _ => panic!("the previous owner keeps one record"),
    }
    assert_eq!(plan.target_records.len(), 2);
    assert_eq!(plan.target_records[0].token, "t3");
    assert_eq!(plan.target_records[1].platform, "web");
}

#[test]
fn move_plan_to_the_same_owner_clears_nothing() {
    let target = vec![rec("t1", "ios", 1)];
    let plan = move_plan(Some("user:b"), "user:b", Some(&target), Some(&target), rec("t1", "android", 5));
    assert!(plan.clear.is_none());
    assert_eq!(plan.target_records.len(), 1);
    assert_eq!(plan.target_records[0].platform, "android");
    let fresh = move_plan(None, "user:c", None, None, rec("t9", "ios", 1));
    assert!(fresh.clear.is_none());
    assert_eq!(fresh.target_records.len(), 1);
}

#[test]
fn move_plan_deletes_an_emptied_owner_list() {
    let previous = vec![rec("t1", "ios", 1)];
    let plan = move_plan(Some("user:a"), "user:b", None, Some(&previous), rec("t1", "ios", 2));
    let (key, update) = plan.clear.expect("previous owner is cleared");
    assert_eq!(key, "user:a");
    assert!(matches!(update, RecordsUpdate::Delete));
}

#[test]
fn delete_plan_removes_the_token_and_forgets_its_owner() {
    let records = vec![rec("t1", "ios", 1), rec("t2", "ios", 2)];
    let plan = delete_plan(Some("user:a"), "user:a", Some(&records), "t1");
    match plan.update {
        Some(RecordsUpdate::Put(rest)) => {
            assert_eq!(rest.len(), 1);
            assert_eq!(rest[0].token, "t2");
        }
        _ => panic!("one record is left"),
    }
    assert!(plan.forget_owner);
    let other = delete_plan(Some("user:z"), "user:a", None, "t1");
    assert!(other.update.is_none());
    assert!(!other.forget_owner);
}
