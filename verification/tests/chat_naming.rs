use ghostex_desktop::refusals::unrouted_name;
use ghostex_desktop::chat_identity::ChatIdentity;
use ghostex_desktop::keyed::KeyedMap;
use ghostex_desktop::refusals::{
    broker_kind_name, named, note_rpc_refusal, refusal_name, rpc_method_name, transport_class,
    RefusalReport,
};

fn report(endpoint: Option<&str>, code: Option<&str>, message: Option<&str>) -> RefusalReport {
    RefusalReport {
        endpoint: endpoint.map(str::to_string),
        code: code.map(str::to_string),
        message: message.map(str::to_string),
    }
}

fn count(counts: &KeyedMap<u64>, name: &str) -> Option<u64> {
    counts.index_of(name).map(|i| counts.entries[i].1)
}

#[test]
fn named_accepts_short_identifiers_only() {
    assert!(named("invalidParams"));
    assert!(named("a-b_c.d9"));
    assert!(!named(""));
    assert!(!named("has space"));
    assert!(!named("slash/inside"));
    assert!(named(&"x".repeat(40)));
    assert!(!named(&"x".repeat(41)));
    assert!(!named("ünïcode"));
}

#[test]
fn transport_class_reads_the_fixed_sentences() {
    assert_eq!(transport_class(None), "unknown");
    assert_eq!(transport_class(Some("Host is NOT REACHABLE now")), "unreachable");
    assert_eq!(transport_class(Some("missing Auth Token")), "authToken");
    assert_eq!(transport_class(Some("Invalid JSON in body")), "invalidResponse");
    assert_eq!(transport_class(Some("invalid http header")), "invalidResponse");
    assert_eq!(transport_class(Some("invalid chunked body")), "invalidResponse");
    assert_eq!(transport_class(Some("request failed with HTTP 500")), "httpStatus");
    assert_eq!(transport_class(Some("Could not connect")), "transport");
    assert_eq!(transport_class(Some("we could not connect")), "unknown");
    assert_eq!(transport_class(Some("something else")), "unknown");
}

#[test]
fn rpc_method_names_are_the_wire_spelling_or_other() {
    assert_eq!(rpc_method_name("readSessionChat"), "readSessionChat");
    assert_eq!(rpc_method_name("runProjectDocsAction"), "runProjectDocsAction");
    assert_eq!(rpc_method_name("notAMethod"), "other");
    assert_eq!(rpc_method_name(""), "other");
}

#[test]
fn broker_kinds_are_counted_by_name() {
    assert_eq!(broker_kind_name(Some("event")), "brokerMessage.event");
    assert_eq!(broker_kind_name(Some("catalog")), "brokerMessage.catalog");
    assert_eq!(broker_kind_name(Some("weird")), "brokerMessage.other");
    assert_eq!(broker_kind_name(None), "brokerMessage.other");
}

#[test]
fn refusal_names_join_method_and_class() {
    assert_eq!(
        refusal_name(&report(Some("/api/readSessionChat"), Some("invalidParams"), None)),
        "readSessionChat/invalidParams"
    );
    assert_eq!(
        refusal_name(&report(Some("/api/readSessionChat"), Some("bad code!"), None)),
        "readSessionChat/other"
    );
    assert_eq!(
        refusal_name(&report(Some("/api/nope"), None, Some("Could not reach"))),
        "other/transport"
    );
    assert_eq!(refusal_name(&report(None, None, None)), "unknownMethod/unknown");
    assert_eq!(
        refusal_name(&report(Some("readSessionChat"), None, None)),
        "unknownMethod/unknown"
    );
}

#[test]
fn each_refusal_is_counted_once() {
    let mut counts: KeyedMap<u64> = KeyedMap::new();
    let r = report(Some("/api/readSessionChat"), Some("denied"), None);
    note_rpc_refusal(&mut counts, Some(&r));
    note_rpc_refusal(&mut counts, Some(&r));
    note_rpc_refusal(&mut counts, None);
    assert_eq!(count(&counts, "readSessionChat/denied"), Some(2));
    assert_eq!(counts.len(), 1);
}

#[test]
fn refusal_names_stop_at_the_cap() {
    let mut counts: KeyedMap<u64> = KeyedMap::new();
    for i in 0..30 {
        let code = format!("code{i}");
        note_rpc_refusal(&mut counts, Some(&report(Some("/api/readSessionChat"), Some(&code), None)));
    }
    assert_eq!(counts.len(), 25);
    assert_eq!(count(&counts, "other"), Some(6));
    assert_eq!(count(&counts, "readSessionChat/code0"), Some(1));
    assert_eq!(count(&counts, "readSessionChat/code29"), None);
    // A name already held is still counted under its own name past the cap.
    note_rpc_refusal(&mut counts, Some(&report(Some("/api/readSessionChat"), Some("code3"), None)));
    assert_eq!(count(&counts, "readSessionChat/code3"), Some(2));
    assert_eq!(counts.len(), 25);
}

#[test]
fn storage_session_keys_name_the_machine_off_this_computer() {
    let local = ChatIdentity::from_config(None, Some("p1"), Some("s1"));
    assert_eq!(local.storage_session_key(), "p1:s1");
    let empty_machine = ChatIdentity::from_config(Some(""), Some("p1"), Some("s1"));
    assert_eq!(empty_machine.machine_id, None);
    let remote = ChatIdentity::from_config(Some("m9"), Some("p1"), Some("s1"));
    assert_eq!(remote.storage_session_key(), "remote-m9:p1:s1");
    let missing = ChatIdentity::from_config(None, None, None);
    assert_eq!(missing.storage_session_key(), ":");
}

#[test]
fn retention_keys_are_json_arrays() {
    let local = ChatIdentity::from_config(None, Some("p1"), Some("s1"));
    assert_eq!(local.retention_key(), "[null,\"p1\",\"s1\"]");
    let remote = ChatIdentity::from_config(Some("m9"), Some("p\"1"), Some("s1"));
    assert_eq!(remote.retention_key(), "[\"m9\",\"p\\\"1\",\"s1\"]");
}

#[test]
fn unrouted_calls_are_named_by_method_or_broker_kind() {
    assert_eq!(unrouted_name("setDraft", None), "setDraft");
    assert_eq!(unrouted_name("brokerMessage", Some("event")), "brokerMessage.event");
    assert_eq!(unrouted_name("brokerMessage", None), "brokerMessage.other");
}
