use ghostex_desktop::app_model::SidebarRemoteFocusCounters;
use ghostex_desktop::boot::{entry_with_version, parse, single, StoredDraft};
use ghostex_desktop::effects::Json;
use ghostex_desktop::gx_diagnostics::{DistinctRecords, SummaryClock, MAX_DISTINCT_MISMATCH_RECORDS};
use ghostex_desktop::keyed::KeyedMap;
use ghostex_desktop::refusals::note_unrouted;
use ghostex_desktop::remote_focus::{RemoteSessionRef, SidebarRemoteFocusHost, MAX_EXPECTED_REMOTE_OPENS};

fn members(json: &Json) -> &Vec<(String, Json)> {
    match json {
        Json::Object(m) => m,
        _ => panic!("an object was expected"),
    }
}

fn keys(json: &Json) -> Vec<&str> {
    members(json).iter().map(|(k, _)| k.as_str()).collect()
}

fn draft(submitted: bool, parked: bool) -> StoredDraft {
    StoredDraft {
        text: "hello".to_string(),
        updated_at: Some(Json::UInt(5)),
        submitted,
        parked,
        version: Some(("d1".to_string(), Json::UInt(4))),
    }
}

#[test]
fn nothing_stored_opens_a_fresh_draft() {
    let entry = entry_with_version(None);
    assert_eq!(keys(&entry), vec!["version"]);
    let version = &members(&entry)[0].1;
    assert_eq!(keys(version), vec!["draftId", "revision"]);
    assert!(matches!(members(version)[1].1, Json::UInt(1)));
}

#[test]
fn a_live_draft_keeps_its_identity() {
    let entry = entry_with_version(Some(draft(false, false)));
    assert_eq!(keys(&entry), vec!["text", "updatedAt", "submitted", "parked", "version"]);
    let version = &members(&entry)[4].1;
    match &members(version)[0].1 {
        Json::Text(id) => assert_eq!(id, "d1"),
        _ => panic!(),
    }
    assert!(matches!(members(version)[1].1, Json::UInt(4)));
}

#[test]
fn a_submitted_or_parked_draft_starts_fresh() {
    for (submitted, parked) in [(true, false), (false, true)] {
        let entry = entry_with_version(Some(draft(submitted, parked)));
        let version = &members(&entry)[4].1;
        match &members(version)[0].1 {
            Json::Text(id) => assert_eq!(id.len(), 36),
            _ => panic!(),
        }
        assert!(matches!(members(version)[1].1, Json::UInt(1)));
    }
    let mut no_time = draft(false, false);
    no_time.updated_at = None;
    assert_eq!(keys(&entry_with_version(Some(no_time))), vec!["text", "submitted", "parked", "version"]);
}

#[test]
fn stored_records_are_handed_over_when_they_read_as_json() {
    assert_eq!(keys(&single("k", Some("{\"a\":1}".to_string()))), vec!["k"]);
    assert!(keys(&single("k", Some("{oops".to_string()))).is_empty());
    assert!(keys(&single("k", None)).is_empty());
    assert!(matches!(parse(Some("[1,2]".to_string())), Json::Other(_)));
    assert!(matches!(parse(Some("nope".to_string())), Json::Null));
    assert!(matches!(parse(None), Json::Null));
}

#[test]
fn a_summary_is_written_once_a_minute_when_the_totals_moved() {
    let mut clock = SummaryClock::default();
    assert!(!clock.summary_due(true, 0, true));
    assert!(clock.summary_due(false, 1000, true));
    assert!(!clock.summary_due(false, 30000, true));
    assert!(!clock.summary_due(false, 61000, false));
    assert_eq!(clock.considered_at_ms, Some(61000));
    assert!(clock.summary_due(false, 121000, true));
}

#[test]
fn each_difference_shape_is_recorded_once() {
    let mut records = DistinctRecords::default();
    assert!(records.take_record(1, true));
    assert!(!records.take_record(1, true));
    assert!(!records.take_record(2, false));
    for s in 10..(10 + MAX_DISTINCT_MISMATCH_RECORDS as u64) {
        records.take_record(s, true);
    }
    assert_eq!(records.logged.len(), MAX_DISTINCT_MISMATCH_RECORDS);
}

#[test]
fn unrouted_calls_are_counted_by_name() {
    let mut counts = KeyedMap::new();
    note_unrouted(&mut counts, "setDraft", None);
    note_unrouted(&mut counts, "setDraft", None);
    note_unrouted(&mut counts, "brokerMessage", Some("event"));
    let count = |name: &str| counts.index_of(name).map(|i| counts.entries[i].1);
    assert_eq!(count("setDraft"), Some(2));
    assert_eq!(count("brokerMessage.event"), Some(1));
}

fn remote(session: &str) -> RemoteSessionRef {
    RemoteSessionRef { machine_id: "m".to_string(), project_id: "p".to_string(), session_id: session.to_string() }
}

fn host() -> SidebarRemoteFocusHost {
    SidebarRemoteFocusHost {
        counters: SidebarRemoteFocusCounters::default(),
        expected_opens: Vec::new(),
        records: 0,
    }
}

#[test]
fn the_old_runtimes_copy_of_an_open_is_dropped_once() {
    let mut h = host();
    h.expect(remote("a"), 1000);
    assert!(h.gx_store_remote_open_is_duplicate(Some(&remote("a")), 1500));
    assert!(!h.gx_store_remote_open_is_duplicate(Some(&remote("a")), 1600));
    assert!(!h.gx_store_remote_open_is_duplicate(None, 1600));
    assert_eq!(h.counters.duplicates_dropped, 1);
}

#[test]
fn an_expected_copy_expires_after_two_seconds() {
    let mut h = host();
    h.expect(remote("a"), 1000);
    assert!(!h.take_expected(&remote("a"), 3000));
    assert!(h.expected_opens.is_empty());
}

#[test]
fn one_marker_per_row_and_eight_at_most() {
    let mut h = host();
    h.expect(remote("a"), 1);
    h.expect(remote("a"), 2);
    assert_eq!(h.expected_opens.len(), 1);
    assert_eq!(h.expected_opens[0].1, 2);
    for i in 0..10 {
        h.expect(remote(&format!("s{i}")), 10 + i);
    }
    assert_eq!(h.expected_opens.len(), MAX_EXPECTED_REMOTE_OPENS);
    assert_eq!(h.expected_opens[0].0, remote("s2"));
}

#[test]
fn answered_clicks_are_counted_by_kind_and_option() {
    let mut h = host();
    h.note_plan(false, true, true);
    h.note_plan(true, false, false);
    assert_eq!((h.counters.opens, h.counters.splits), (1, 1));
    assert_eq!((h.counters.keep_view, h.counters.chat_interface), (1, 1));
    assert!(!h.record_budget(false));
    assert!(h.record_budget(true));
    assert_eq!(h.records, 1);
}
