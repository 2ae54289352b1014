use std::collections::HashMap;

use accord_mobile::push_tokens::{
    previous_owner_to_clear, push_token_hash, records_with, remove_token_update,
    token_already_registered, PushTokenCache, PushTokenRecord, RecordsUpdate,
};

#[test]
fn registry_moves_token_between_keys() {
    let mut cache = PushTokenCache::new();
    cache.move_token_to_key("supplier:SUP-001", "device-a", "ios", 1);
    cache.move_token_to_key("supplier:SUP-001", "shared", "ios", 2);
    cache.move_token_to_key(" werka:werka ", " shared ", " android ", 3);
    let supplier = cache.list("supplier:SUP-001");
    let werka = cache.list("werka:werka");
    assert_eq!(supplier.len(), 1);
    assert_eq!(supplier[0].token, "device-a");
    assert_eq!(werka.len(), 1);
    assert_eq!(werka[0].token, "shared");
    assert_eq!(werka[0].platform, "android");
    assert_eq!(werka[0].updated_at_nanos, 3);
}

#[test]
fn registering_again_keeps_one_record_at_the_later_time() {
    let mut cache = PushTokenCache::new();
    cache.move_token_to_key("werka:werka", "device-a", "android", 10);
    cache.move_token_to_key("werka:werka", "device-a", "android", 20);
    let records = cache.list("werka:werka");
    assert_eq!(records.len(), 1);
    assert_eq!(records[0].updated_at_nanos, 20);
}

#[test]
fn deleting_touches_only_the_given_key() {
    let mut cache = PushTokenCache::new();
    cache.move_token_to_key("supplier:SUP-001", "a", "ios", 1);
    cache.move_token_to_key("werka:werka", "b", "ios", 2);
    cache.delete("supplier:SUP-001", "b");
    assert_eq!(cache.list("werka:werka").len(), 1);
    cache.delete(" supplier:SUP-001 ", " a ");
    assert!(cache.list("supplier:SUP-001").is_empty());
    assert_eq!(cache.lists().len(), 1);
}

#[test]
fn registry_loads_and_lists_back() {
    let lists = vec![(
        "customer:C-1".to_string(),
        vec![PushTokenRecord { token: "t".to_string(), platform: "ios".to_string(), updated_at_nanos: 5 }],
    )];
    let cache = PushTokenCache::from_lists(lists);
    let back = cache.lists();
    assert_eq!(back.len(), 1);
    assert_eq!(back[0].0, "customer:C-1");
    assert_eq!(back[0].1[0].token, "t");
}

/// The keyed store driven by the library's steps over plain maps.
struct KeyedStore {
    records: HashMap<String, Vec<PushTokenRecord>>,
    owner: HashMap<[u8; 32], String>,
}

impl KeyedStore {
    fn new() -> Self {
        KeyedStore { records: HashMap::new(), owner: HashMap::new() }
    }

    fn remove(&mut self, key: &str, token: &str) -> bool {
        let Some(records) = self.records.get(key) else { return false };
        let (update, changed) = remove_token_update(records, token);
        match update {
            RecordsUpdate::Delete => {
                self.records.remove(key);
            }
            RecordsUpdate::Put(rest) => {
                self.records.insert(key.to_string(), rest);
            }
            RecordsUpdate::Unchanged => {}
        }
        changed
    }

    fn register(&mut self, key: &str, token: &str, platform: &str, now: i128) {
        let (key, token, platform) = (key.trim(), token.trim(), platform.trim());
        let hash = push_token_hash(token);
        let empty = Vec::new();
        let current = self.records.get(key).unwrap_or(&empty);
        if token_already_registered(self.owner.get(&hash).map(String::as_str), key, current, token, platform) {
            return;
        }
        if let Some(previous) = previous_owner_to_clear(self.owner.get(&hash).map(String::as_str), key) {
            self.remove(&previous, token);
        }
        let current = self.records.get(key).cloned().unwrap_or_default();
        let record = PushTokenRecord { token: token.to_string(), platform: platform.to_string(), updated_at_nanos: now };
        self.records.insert(key.to_string(), records_with(&current, record));
        self.owner.insert(hash, key.to_string());
    }

    fn delete(&mut self, key: &str, token: &str) {
        let (key, token) = (key.trim(), token.trim());
        self.remove(key, token);
        let hash = push_token_hash(token);
        if self.owner.get(&hash).is_some_and(|owner| owner == key) {
            self.owner.remove(&hash);
        }
    }

    fn list(&self, key: &str) -> Vec<PushTokenRecord> {
        self.records.get(key.trim()).cloned().unwrap_or_default()
    }
}

#[test]
fn keyed_store_moves_token_between_owners() {
    let mut store = KeyedStore::new();
    store.register("supplier:SUP-001", "device-a", "ios", 1);
    store.register("supplier:SUP-001", "shared", "ios", 2);
    store.register("werka:werka", "shared", "android", 3);
    let supplier = store.list("supplier:SUP-001");
    let werka = store.list("werka:werka");
    assert_eq!(supplier.len(), 1);
    assert_eq!(supplier[0].token, "device-a");
    assert_eq!(werka.len(), 1);
    assert_eq!(werka[0].token, "shared");
    assert_eq!(werka[0].platform, "android");
}

#[test]
fn keyed_store_duplicate_register_is_idempotent() {
    let mut store = KeyedStore::new();
    store.register("werka:werka", "device-a", "android", 1);
    store.register("werka:werka", "device-a", "android", 2);
    let records = store.list("werka:werka");
    assert_eq!(records.len(), 1);
    assert_eq!(records[0].updated_at_nanos, 1);
}

#[test]
fn keyed_store_duplicate_register_updates_changed_platform() {
    let mut store = KeyedStore::new();
    store.register("werka:werka", "device-a", "ios", 1);
    store.register("werka:werka", "device-a", "android", 2);
    let records = store.list("werka:werka");
    assert_eq!(records.len(), 1);
    assert_eq!(records[0].platform, "android");
}

#[test]
fn keyed_store_deletes_only_matching_owner() {
    let mut store = KeyedStore::new();
    store.register("supplier:SUP-001", "shared", "ios", 1);
    store.register("werka:werka", "shared", "android", 2);
    store.delete("supplier:SUP-001", "shared");
    let werka = store.list("werka:werka");
    assert_eq!(werka.len(), 1);
    assert_eq!(werka[0].token, "shared");
    assert_eq!(store.owner.get(&push_token_hash("shared")).map(String::as_str), Some("werka:werka"));
}

#[test]
fn saved_registry_loads_back_the_same() {
    let mut cache = PushTokenCache::new();
    cache.move_token_to_key("supplier:SUP-1", "a", "ios", 1);
    cache.move_token_to_key("werka:werka", "b", "android", 2);
    cache.move_token_to_key("werka:werka", "c", "ios", 3);
    let reloaded = PushTokenCache::from_lists(cache.lists());
    for key in ["supplier:SUP-1", "werka:werka", "customer:none"] {
        let a: Vec<(String, String, i128)> = cache
            .list(key)
            .into_iter()
            .map(|r| (r.token, r.platform, r.updated_at_nanos))
            .collect();
        let b: Vec<(String, String, i128)> = reloaded
            .list(key)
            .into_iter()
            .map(|r| (r.token, r.platform, r.updated_at_nanos))
            .collect();
        assert_eq!(a, b);
    }
    assert_eq!(reloaded.lists().len(), 2);
}
