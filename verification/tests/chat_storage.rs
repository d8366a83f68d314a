use ghostex_desktop::chat_storage::{
    catalog_rows, disk, full_key, protected_disk, read, scan, scanned_suffixes, storage_bytes,
    store, Backend, StorageKey, StorageRead, StorageWrite,
};
use ghostex_desktop::chat_store::{ChatStore, Retained, IDLE_RETENTION_MS, MAX_RETAINED_SESSIONS};
use ghostex_desktop::records::{write_record, HeldRow, RecordStore, RecordWrite, Usage};

fn key(store: &str, suffix: &str) -> StorageKey {
    StorageKey { store: store.to_string(), suffix: suffix.to_string() }
}

#[test]
fn the_catalog_has_every_chat_store_once() {
    let rows = catalog_rows();
    assert_eq!(rows.len(), 22);
    for (i, a) in rows.iter().enumerate() {
        for b in rows.iter().skip(i + 1) {
            assert_ne!(a.id, b.id);
        }
    }
    assert_eq!(store("drafts").unwrap().prefix, "ghostex.sessionChat.draft.");
    assert!(store("nope").is_none());
}

#[test]
fn disk_shorthands_carry_their_bounds() {
    match disk("x", Some(5)) {
        Backend::Records(s) => {
            assert_eq!((s.max_entry_bytes, s.max_bytes, s.max_entries), (2097152, 16777216, 2000));
            assert_eq!(s.max_age_ms, Some(5));
        }
        Backend::Local => panic!(),
    }
    match protected_disk("y") {
        Backend::Records(s) => {
            assert_eq!((s.max_bytes, s.max_entries, s.max_age_ms), (33554432, 50000, None));
        }
        Backend::Local => panic!(),
    }
}

#[test]
fn full_keys_join_prefix_and_suffix_and_refuse_a_singleton_suffix() {
    assert_eq!(
        full_key(&key("drafts", "p:s")),
        Some("ghostex.sessionChat.draft.p:s".to_string())
    );
    assert_eq!(full_key(&key("chatClient", "")), Some("ghostex.sessionChat.clientId".to_string()));
    assert_eq!(full_key(&key("chatClient", "x")), None);
    assert_eq!(full_key(&key("unknown", "x")), None);
}

#[test]
fn reads_go_to_the_right_table() {
    assert_eq!(
        read(&key("modelFavorites", "")),
        Ok(StorageRead::Local { key: "ghostex.model-favorites".to_string() })
    );
    match read(&key("verbose", "a")) {
        Ok(StorageRead::Records { store, key }) => {
            assert_eq!(store.id, "verbose");
            assert_eq!(key, "ghostex.sessionChat.verbose.a");
        }
        other => panic!("{other:?}"),
    }
    assert_eq!(read(&key("nope", "")), Err("unregistered"));
}

#[test]
fn writes_refuse_unregistered_keys_and_oversized_local_entries() {
    assert_eq!(ghostex_desktop::chat_storage::write(&key("nope", ""), Some("x")), Err("unregistered"));
    assert_eq!(
        ghostex_desktop::chat_storage::write(&key("modelFavorites", ""), Some("[]")),
        Ok(StorageWrite::LocalPut {
            key: "ghostex.model-favorites".to_string(),
            raw: "[]".to_string()
        })
    );
    assert_eq!(
        ghostex_desktop::chat_storage::write(&key("modelFavorites", ""), None),
        Ok(StorageWrite::LocalDelete { key: "ghostex.model-favorites".to_string() })
    );
    let big = "x".repeat(33000);
    assert_eq!(ghostex_desktop::chat_storage::write(&key("modelFavorites", ""), Some(&big)), Err("entry"));
    match ghostex_desktop::chat_storage::write(&key("drafts", "k"), Some("{}")) {
        Ok(StorageWrite::RecordPut { store, key, raw }) => {
            assert_eq!(store.id, "drafts");
            assert_eq!(key, "ghostex.sessionChat.draft.k");
            assert_eq!(raw, "{}");
        }
        other => panic!("{other:?}"),
    }
    assert_eq!(
        ghostex_desktop::chat_storage::write(&key("drafts", "k"), None),
        Ok(StorageWrite::RecordDelete { key: "ghostex.sessionChat.draft.k".to_string() })
    );
}

#[test]
fn storage_bytes_count_utf16_units_twice() {
    assert_eq!(storage_bytes("ab", "cd"), 8);
    assert_eq!(storage_bytes("", "\u{1F600}"), 4);
    assert_eq!(storage_bytes("é", ""), 2);
}

#[test]
fn scans_plan_only_record_collections() {
    assert_eq!(scan("nope", "").unwrap_err(), "unregistered");
    assert!(scan("chatClient", "").unwrap().is_none());
    let plan = scan("recovery", "s1:").unwrap().unwrap();
    assert_eq!(plan.full_prefix, "ghostex.sessionChat.recovery.s1:");
    assert_eq!(plan.store_prefix, "ghostex.sessionChat.recovery.");
    let rows = vec![
        ("ghostex.sessionChat.recovery.s1:a".to_string(), "1".to_string()),
        ("other".to_string(), "2".to_string()),
    ];
    assert_eq!(
        scanned_suffixes(plan.store_prefix, rows),
        vec![("s1:a".to_string(), "1".to_string())]
    );
}

fn record_store() -> RecordStore {
    RecordStore {
        id: "s",
        version: 1,
        max_entry_bytes: 100,
        max_bytes: 1000,
        max_entries: 3,
        max_age_ms: None,
    }
}

fn usage() -> Usage {
    Usage {
        store_bytes: 0,
        store_entries: 0,
        backend_bytes: 0,
        previous_bytes: 0,
        revision_floor: 4,
    }
}

#[test]
fn a_record_write_is_refused_by_each_bound_in_order() {
    assert_eq!(usage().refuses(record_store(), 101), Some("entry"));
    let mut u = usage();
    u.store_bytes = 950;
    assert_eq!(u.refuses(record_store(), 60), Some("store"));
    let mut u = usage();
    u.store_entries = 3;
    assert_eq!(u.refuses(record_store(), 10), Some("entries"));
    let mut u = usage();
    u.backend_bytes = 134217728;
    assert_eq!(u.refuses(record_store(), 10), Some("backend"));
    u.previous_bytes = 10;
    assert_eq!(u.refuses(record_store(), 10), None);
}

#[test]
fn a_record_write_stores_the_next_revision_or_nothing_when_unchanged() {
    assert_eq!(
        write_record(record_store(), "v", 10, None, usage(), 7),
        RecordWrite::Stored { revision: 8, bytes: 10 }
    );
    assert_eq!(
        write_record(record_store(), "v", 10, None, usage(), 2),
        RecordWrite::Stored { revision: 5, bytes: 10 }
    );
    let held = HeldRow { raw: Some("v".to_string()), schema_version: Some(1) };
    assert_eq!(
        write_record(record_store(), "v", 10, Some(held), usage(), 2),
        RecordWrite::Unchanged
    );
    let other_version = HeldRow { raw: Some("v".to_string()), schema_version: Some(2) };
    assert_eq!(
        write_record(record_store(), "v", 10, Some(other_version), usage(), 2),
        RecordWrite::Stored { revision: 5, bytes: 10 }
    );
    assert_eq!(
        write_record(record_store(), "v", 200, None, usage(), 2),
        RecordWrite::Refused("entry")
    );
}

fn retained(key: &str, listeners: usize, touched_at_ms: u64, oversized: bool) -> (String, Retained) {
    (
        key.to_string(),
        Retained {
            session_key: format!("session-{key}"),
            listeners,
            touched_at_ms,
            oversized,
        },
    )
}

fn store_with(entries: Vec<(String, Retained)>) -> ChatStore {
    let mut s = ChatStore::new();
    for (k, r) in entries {
        s.retained.insert_new(k, r);
    }
    s
}

#[test]
fn idle_and_oversized_chats_nobody_watches_expire() {
    let now = 1_000_000;
    let mut s = store_with(vec![
        retained("a", 0, now - IDLE_RETENTION_MS, false),
        retained("b", 0, now - 10, true),
        retained("c", 1, 0, true),
        retained("d", 0, now - 10, false),
    ]);
    let dropped = s.prune(now);
    assert_eq!(
        dropped,
        vec![
            ("a".to_string(), "session-a".to_string()),
            ("b".to_string(), "session-b".to_string())
        ]
    );
    assert_eq!(s.len(), 2);
    assert_eq!(s.evicted, 2);
}

#[test]
fn past_the_cap_the_least_recently_touched_unwatched_chats_go() {
    let now = 10_000;
    let mut entries = Vec::new();
    for i in 0..14u64 {
        let listeners = if i == 0 { 1 } else { 0 };
        entries.push(retained(&format!("k{i:02}"), listeners, now - 100 + i, false));
    }
    let mut s = store_with(entries);
    let dropped = s.prune(now);
    assert_eq!(s.len(), MAX_RETAINED_SESSIONS);
    assert_eq!(
        dropped.iter().map(|(k, _)| k.as_str()).collect::<Vec<_>>(),
        vec!["k01", "k02"]
    );
    assert!(s.retained.index_of("k00").is_some());
}

#[test]
fn watched_chats_are_never_dropped() {
    let mut entries = Vec::new();
    for i in 0..15u64 {
        entries.push(retained(&format!("w{i:02}"), 1, 0, true));
    }
    let mut s = store_with(entries);
    assert!(s.prune(1_000_000_000).is_empty());
    assert_eq!(s.len(), 15);
}
