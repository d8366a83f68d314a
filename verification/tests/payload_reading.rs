use ghostex_desktop::effects::Json;
use ghostex_desktop::records::{encode_uri_component, held_row, machine_key, record_raw};
use ghostex_desktop::refusals::refusal_report;
use ghostex_desktop::revision_ranges::decode_marker;
use ghostex_desktop::sidebar::{facts_post, FactsPost};

fn text(s: &str) -> Json {
    Json::Text(s.to_string())
}

fn object(members: Vec<(&str, Json)>) -> Json {
    Json::Object(members.into_iter().map(|(k, v)| (k.to_string(), v)).collect())
}

#[test]
fn facts_posts_are_read_by_their_kind() {
    assert_eq!(facts_post(None), FactsPost::Unparsable);
    assert_eq!(facts_post(Some(&object(vec![("kind", text("hud"))]))), FactsPost::Hud);
    assert_eq!(facts_post(Some(&object(vec![("kind", text("rows"))]))), FactsPost::Rows);
    assert_eq!(
        facts_post(Some(&object(vec![
            ("kind", text("reveal")),
            ("sessionId", text("s1")),
            ("requestId", Json::UInt(4)),
        ]))),
        FactsPost::Reveal { session_id: Some("s1".to_string()), request_id: Some(4) }
    );
    assert_eq!(
        facts_post(Some(&object(vec![("kind", text("reveal")), ("requestId", Json::Int(-4))]))),
        FactsPost::Reveal { session_id: None, request_id: None }
    );
    assert_eq!(facts_post(Some(&object(vec![("kind", text("other"))]))), FactsPost::Other);
    assert_eq!(facts_post(Some(&Json::Array(vec![]))), FactsPost::Other);
}

#[test]
fn a_records_row_is_read_for_its_payload_and_version() {
    let row = object(vec![("raw", text("{}")), ("schemaVersion", Json::UInt(3))]);
    let held = held_row(Some(&row)).expect("held");
    assert_eq!(held.raw.as_deref(), Some("{}"));
    assert_eq!(held.schema_version, Some(3));
    assert!(held_row(None).is_none());
    let odd = held_row(Some(&object(vec![("raw", Json::UInt(1))]))).expect("odd");
    assert_eq!((odd.raw, odd.schema_version), (None, None));
    assert_eq!(record_raw(Some(&row)).as_deref(), Some("{}"));
    assert_eq!(record_raw(Some(&Json::Null)), None);
    assert_eq!(record_raw(None), None);
}

#[test]
fn a_refusal_is_the_third_argument_unless_null() {
    let error = object(vec![("code", text("quota")), ("message", text("full"))]);
    let report = refusal_report(&vec![Json::Null, Json::Null, error]).expect("report");
    assert_eq!(report.code.as_deref(), Some("quota"));
    assert_eq!(report.message.as_deref(), Some("full"));
    assert_eq!(report.endpoint, None);
    assert!(refusal_report(&vec![Json::Null, Json::Null, Json::Null]).is_none());
    assert!(refusal_report(&vec![Json::Null, Json::Null]).is_none());
}

#[test]
fn markers_are_read_in_both_forms() {
    let array = Json::Array(vec![text("sk"), text("d1"), Json::UInt(7)]);
    let marker = decode_marker(Some(&array)).expect("array");
    assert_eq!((marker.session_key.as_str(), marker.draft_id.as_str(), marker.revision), ("sk", "d1", 7));
    let legacy = object(vec![
        ("dismissed", Json::Bool(true)),
        ("sessionKey", text("sk")),
        ("version", object(vec![("draftId", text("d2")), ("revision", Json::Int(-2))])),
    ]);
    let marker = decode_marker(Some(&legacy)).expect("legacy");
    assert_eq!((marker.draft_id.as_str(), marker.revision), ("d2", -2));
    let live = object(vec![
        ("dismissed", Json::Bool(false)),
        ("sessionKey", text("sk")),
        ("version", object(vec![("draftId", text("d2")), ("revision", Json::UInt(2))])),
    ]);
    assert!(decode_marker(Some(&live)).is_none());
    assert!(decode_marker(Some(&Json::Array(vec![text("sk"), text("d1")]))).is_none());
    assert!(decode_marker(Some(&Json::Array(vec![text("sk"), Json::UInt(1), Json::UInt(7)]))).is_none());
    assert!(decode_marker(None).is_none());
}

#[test]
fn uri_components_are_encoded_as_javascript_does() {
    assert_eq!(encode_uri_component("a b"), "a%20b");
    assert_eq!(encode_uri_component("m1:x/y"), "m1%3Ax%2Fy");
    assert_eq!(encode_uri_component("A-Z_.!~*'()az09"), "A-Z_.!~*'()az09");
    assert_eq!(encode_uri_component("é"), "%C3%A9");
    assert_eq!(encode_uri_component("\u{1F600}"), "%F0%9F%98%80");
    assert_eq!(encode_uri_component(""), "");
    assert_eq!(
        machine_key("studio mac"),
        "ghostex-gpui-remote-last-seen-presentations:machine:studio%20mac"
    );
}
