use ghostex_desktop::chat_store::{measured_oversized, size_check, ChatStore, SizeCheck};

#[test]
fn size_is_measured_at_most_every_five_seconds() {
    assert_eq!(size_check(1201, None, 0), SizeCheck::Oversized);
    assert_eq!(size_check(1200, None, 0), SizeCheck::Measure);
    assert_eq!(size_check(10, Some(1000), 5999), SizeCheck::Fits);
    assert_eq!(size_check(10, Some(1000), 6000), SizeCheck::Measure);
    assert_eq!(size_check(10, Some(9000), 1000), SizeCheck::Fits);
}

#[test]
fn a_document_past_four_mebibytes_is_outgrown() {
    assert!(!measured_oversized(Some(2097152)));
    assert!(measured_oversized(Some(2097153)));
    assert!(!measured_oversized(None));
}

#[test]
fn attach_and_detach_keep_the_chat_and_its_key() {
    let mut store = ChatStore::new();
    store.attach("k1", "session-1", 100);
    store.attach("k1", "other", 200);
    assert_eq!(store.len(), 1);
    let held = &store.retained.entries[0].1;
    assert_eq!((held.session_key.as_str(), held.listeners, held.touched_at_ms), ("session-1", 1, 200));
    store.detach("k1", 300);
    let held = &store.retained.entries[0].1;
    assert_eq!((held.listeners, held.touched_at_ms), (0, 300));
    store.detach("k2", 400);
    assert_eq!(store.len(), 1);
    store.remove("k1");
    assert_eq!(store.len(), 0);
}
