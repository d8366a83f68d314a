use ghostex_desktop::app_model::{LocalFocusRouteCounters, RemoteProjectDocCounters};
use ghostex_desktop::effects::Json;
use ghostex_desktop::keyed::KeyedMap;
use ghostex_desktop::remote_docs::{
    local_focus_route_counters_json, next_collection_number, note_remote_send,
    remote_doc_message, remote_project_doc_counters_json, selected_remote_machine_id, RemoteDoc,
};

#[test]
fn the_local_tab_names_no_remote_machine() {
    assert_eq!(selected_remote_machine_id("local", "local"), None);
    assert_eq!(selected_remote_machine_id("m1", "local").as_deref(), Some("m1"));
}

#[test]
fn two_new_groups_never_share_a_number() {
    let mut held: KeyedMap<i64> = KeyedMap::new();
    assert_eq!(next_collection_number(&mut held, "m1", 0), 1);
    assert_eq!(next_collection_number(&mut held, "m1", 7), 7);
    assert_eq!(next_collection_number(&mut held, "m1", 3), 7);
    assert_eq!(next_collection_number(&mut held, "m2", 3), 3);
}

#[test]
fn a_remote_edit_goes_through_the_runtime() {
    match remote_doc_message(RemoteDoc::Spaces, "m1", Json::Null) {
        Json::Object(m) => {
            assert!(matches!(&m[0], (k, Json::Text(t)) if k == "type" && t == "updateSidebarSpaces"));
            assert!(matches!(&m[1], (k, Json::Null) if k == "state"));
            assert!(matches!(&m[2], (k, Json::Text(t)) if k == "remoteMachineId" && t == "m1"));
        }
        _ => panic!("an object was expected"),
    }
    let mut counters = RemoteProjectDocCounters::default();
    note_remote_send(&mut counters, RemoteDoc::Collections, true);
    note_remote_send(&mut counters, RemoteDoc::Spaces, false);
    assert_eq!((counters.collection_writes, counters.space_writes, counters.unsent), (1, 1, 1));
    match remote_project_doc_counters_json(&counters) {
        Json::Object(m) => {
            let keys: Vec<&str> = m.iter().map(|(k, _)| k.as_str()).collect();
            assert_eq!(keys, vec!["collectionWrites", "spaceWrites", "ordersDropped", "unsent"]);
            assert!(matches!(m[3].1, Json::UInt(1)));
        }
        _ => panic!("an object was expected"),
    }
    let route = LocalFocusRouteCounters { focuses: 2, browser_rows: 1, modals_closed: 0, declined_source: 3 };
    match local_focus_route_counters_json(&route) {
        Json::Object(m) => assert!(matches!(m[3], (ref k, Json::UInt(3)) if k == "declinedSource")),
        _ => panic!("an object was expected"),
    }
}
