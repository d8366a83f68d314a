use ghostex_desktop::chat_events::{
    broker_event, events_for, parse_u64, request_id, resolved, CallEvent, FrameKind, RpcOutcome,
};
use ghostex_desktop::effects::Json;

fn text(s: &str) -> Json {
    Json::Text(s.to_string())
}

fn object(members: Vec<(&str, Json)>) -> Json {
    Json::Object(members.into_iter().map(|(k, v)| (k.to_string(), v)).collect())
}

#[test]
fn decimal_ids_read_as_rust_reads_them() {
    assert_eq!(parse_u64("42"), Some(42));
    assert_eq!(parse_u64("+7"), Some(7));
    assert_eq!(parse_u64("18446744073709551615"), Some(u64::MAX));
    assert_eq!(parse_u64("18446744073709551616"), None);
    assert_eq!(parse_u64("99999999999999999999"), None);
    assert_eq!(parse_u64(""), None);
    assert_eq!(parse_u64("+"), None);
    assert_eq!(parse_u64("-1"), None);
    assert_eq!(parse_u64(" 1"), None);
    assert_eq!(parse_u64("1a"), None);
    for sample in ["0", "007", "+0", "123456789", "4294967296"] {
        assert_eq!(parse_u64(sample), sample.parse::<u64>().ok(), "{sample}");
    }
}

#[test]
fn request_ids_come_as_numbers_text_or_whole_floats() {
    assert_eq!(request_id(&Json::UInt(9), None), Some(9));
    assert_eq!(request_id(&text("12"), None), Some(12));
    assert_eq!(request_id(&Json::Int(-3), Some(3)), None);
    assert_eq!(request_id(&Json::Other(serde_json::Value::from(5.0)), Some(5)), Some(5));
    assert_eq!(request_id(&Json::Null, Some(5)), None);
}

#[test]
fn calls_become_their_events() {
    let args = vec![object(vec![("sessionId", text("s"))])];
    assert!(matches!(events_for("start", &args), CallEvent::Start(Json::Object(_))));
    assert!(matches!(events_for("action", &args), CallEvent::Action(_)));
    assert!(matches!(events_for("start", &vec![]), CallEvent::Nothing));
    assert!(matches!(events_for("tick", &vec![]), CallEvent::Tick));
    assert!(matches!(events_for("resolve", &args), CallEvent::Nothing));
    assert!(matches!(events_for("other", &args), CallEvent::Nothing));
    let reset = vec![object(vec![("kind", text("reset"))])];
    assert!(matches!(events_for("brokerMessage", &reset), CallEvent::Resubscribed));
}

#[test]
fn broker_messages_fan_out_by_kind() {
    let frame = object(vec![("type", text("sessionChatAppended"))]);
    let event = object(vec![("kind", text("event")), ("payload", frame)]);
    assert!(matches!(broker_event(Some(&event)), CallEvent::Frame(FrameKind::Appended, _)));
    let unknown_frame = object(vec![
        ("kind", text("event")),
        ("event", object(vec![("type", text("sessionChatOther"))])),
    ]);
    assert!(matches!(broker_event(Some(&unknown_frame)), CallEvent::Nothing));
    let settings = object(vec![("kind", text("chatSettings")), ("settings", object(vec![]))]);
    assert!(matches!(broker_event(Some(&settings)), CallEvent::Settings(_)));
    let prefs = object(vec![("kind", text("contextPreferences"))]);
    match broker_event(Some(&prefs)) {
        CallEvent::ContextPreferences { provider, preferences } => {
            assert_eq!(provider, "");
            assert!(preferences.is_none());
        }
        _ => panic!("context preferences expected"),
    }
    let catalog = object(vec![("kind", text("catalog")), ("catalog", Json::Array(vec![]))]);
    assert!(matches!(broker_event(Some(&catalog)), CallEvent::Catalog(Some(Json::Array(_)))));
    assert!(matches!(broker_event(Some(&object(vec![("kind", text("chunk"))]))), CallEvent::Nothing));
    assert!(matches!(broker_event(None), CallEvent::Nothing));
}

#[test]
fn a_resolve_settles_its_request_with_an_answer_or_a_refusal() {
    let answered = vec![Json::UInt(4), text("ok")];
    let settled = resolved(&answered, None).expect("settled");
    assert_eq!(settled.request_id, 4);
    assert!(matches!(settled.outcome, RpcOutcome::Answered(Some(Json::Text(_)))));
    let bare = vec![text("5")];
    assert!(matches!(resolved(&bare, None).expect("bare").outcome, RpcOutcome::Answered(None)));
    let refused = vec![Json::UInt(6), Json::Null, object(vec![("code", text("denied"))])];
    match resolved(&refused, None).expect("refused").outcome {
        RpcOutcome::Refused { code, message, endpoint } => {
            assert_eq!(code.as_deref(), Some("denied"));
            assert_eq!(message, "Request failed.");
            assert_eq!(endpoint, None);
        }
        RpcOutcome::Answered(_) => panic!("a refusal expected"),
    }
    let null_error = vec![Json::UInt(7), Json::Null, Json::Null];
    assert!(matches!(resolved(&null_error, None).expect("null").outcome, RpcOutcome::Answered(_)));
    assert!(resolved(&vec![Json::Bool(true)], None).is_none());
    assert!(resolved(&vec![], None).is_none());
}
