use ghostex_desktop::chat_host::{
    adopt_park_answer, effect_name, hold, next_draft_version, settle_continues, take_effect,
    EffectCounters, HoldOutcome, ParkedHandoff, Performer, MAX_HELD_REQUESTS, MAX_SETTLE_ROUNDS,
};
use ghostex_desktop::effects::{
    dispatched, put, route, unrouted_request, Effect, HostEffect, HostRequest, Json, RequestKind,
    Routed,
};
use ghostex_desktop::keyed::KeyedMap;

fn params(pairs: Vec<(&str, Json)>) -> KeyedMap<Json> {
    let mut map = KeyedMap::new();
    for (key, value) in pairs {
        put(&mut map, key, value);
    }
    map
}

fn text(s: &str) -> Json {
    Json::Text(s.to_string())
}

fn get<'a>(map: &'a KeyedMap<Json>, key: &str) -> Option<&'a Json> {
    map.index_of(key).map(|i| &map.entries[i].1)
}

fn keys(map: &KeyedMap<Json>) -> Vec<String> {
    map.entries.iter().map(|(k, _)| k.clone()).collect()
}

fn as_text(value: Option<&Json>) -> Option<String> {
    match value {
        Some(Json::Text(s)) => Some(s.clone()),
        _ => None,
    }
}

fn as_uint(value: Option<&Json>) -> Option<u64> {
    match value {
        Some(Json::UInt(n)) => Some(*n),
        _ => None,
    }
}

fn renderer(routed: Routed) -> HostRequest {
    match routed {
        Routed::Renderer(request) => request,
        _ => panic!("expected a request to the view"),
    }
}

#[test]
fn put_keeps_keys_in_order_and_replaces() {
    let mut map = params(vec![("b", Json::UInt(1)), ("a", Json::UInt(2))]);
    put(&mut map, "b", Json::UInt(3));
    assert_eq!(keys(&map), vec!["a".to_string(), "b".to_string()]);
    assert_eq!(as_uint(get(&map, "b")), Some(3));
}

#[test]
fn host_effects_stay_with_the_host() {
    for effect in [
        HostEffect::ReadStorage,
        HostEffect::ReadStorageBatch,
        HostEffect::WriteStorage,
        HostEffect::WriteStorageBatch,
        HostEffect::ReadComposerBoot,
        HostEffect::FlushStorage,
        HostEffect::SetTimer,
    ] {
        match route(Effect::Host(effect)) {
            Routed::Host(e) => assert_eq!(e, effect),
            _ => panic!("host effect left the host"),
        }
    }
}

#[test]
fn send_rpc_becomes_an_rpc_request_with_its_id() {
    let request = renderer(route(Effect::SendRpc {
        request_id: 42,
        method: "readSessionChat".to_string(),
        params: Some(params(vec![("sessionId", text("s1"))])),
    }));
    assert_eq!(request.id, Some(42));
    assert_eq!(request.kind, RequestKind::Rpc);
    assert_eq!(request.method, "readSessionChat");
    assert_eq!(as_text(get(&request.params, "sessionId")), Some("s1".to_string()));
}

#[test]
fn send_rpc_with_a_payload_that_is_no_object_sends_empty_params() {
    let request = renderer(route(Effect::SendRpc {
        request_id: 1,
        method: "ping".to_string(),
        params: None,
    }));
    assert_eq!(request.params.len(), 0);
}

#[test]
fn subscribe_goes_to_the_broker_with_limit_and_catalog() {
    let request = renderer(route(Effect::Subscribe { limit: 50, catalog: true }));
    assert_eq!(request.id, None);
    assert_eq!(request.kind, RequestKind::Broker);
    assert_eq!(request.method, "subscribe");
    assert_eq!(as_uint(get(&request.params, "limit")), Some(50));
    assert!(matches!(get(&request.params, "catalog"), Some(Json::Bool(true))));
    let request = renderer(route(Effect::Unsubscribe));
    assert_eq!((request.kind, request.method.as_str()), (RequestKind::Broker, "unsubscribe"));
    let request = renderer(route(Effect::Reconnect));
    assert_eq!((request.kind, request.method.as_str()), (RequestKind::Broker, "reconnect"));
    assert_eq!(request.params.len(), 0);
}

#[test]
fn composer_text_is_history_or_insert_and_keeps_the_caret() {
    let request = renderer(route(Effect::SetComposerText {
        content: "hi".to_string(),
        caret: Some(2),
        from_history: true,
    }));
    assert_eq!(request.kind, RequestKind::Composer);
    assert_eq!(request.method, "history");
    assert_eq!(as_text(get(&request.params, "content")), Some("hi".to_string()));
    assert_eq!(as_uint(get(&request.params, "caret")), Some(2));
    let request = renderer(route(Effect::SetComposerText {
        content: String::new(),
        caret: None,
        from_history: false,
    }));
    assert_eq!(request.method, "insert");
    assert!(matches!(get(&request.params, "caret"), Some(Json::Null)));
}

#[test]
fn clear_if_unchanged_copy_toast_restore_and_saved() {
    let request = renderer(route(Effect::ClearComposerIfUnchanged { text: "x".to_string() }));
    assert_eq!(request.kind, RequestKind::ComposerClearExpected);
    assert_eq!(request.method, "");
    assert_eq!(as_text(get(&request.params, "text")), Some("x".to_string()));

    let request = renderer(route(Effect::Copy { text: "c".to_string() }));
    assert_eq!(request.kind, RequestKind::Other("copy"));
    assert_eq!(as_text(get(&request.params, "text")), Some("c".to_string()));

    let request = renderer(route(Effect::Toast {
        level: "info".to_string(),
        message: "m".to_string(),
    }));
    assert_eq!(request.kind, RequestKind::Other("toast"));
    assert_eq!(as_text(get(&request.params, "level")), Some("info".to_string()));
    assert_eq!(as_text(get(&request.params, "message")), Some("m".to_string()));

    let request = renderer(route(Effect::RestoreReturnedPrompt { text: "t".to_string() }));
    assert_eq!((request.kind, request.method.as_str()), (RequestKind::ReturnedPrompt, "restore"));

    let request = renderer(route(Effect::MarkdownSaved { path: "/p.md".to_string() }));
    assert_eq!(request.kind, RequestKind::MarkdownSaved);
    assert_eq!(as_text(get(&request.params, "path")), Some("/p.md".to_string()));
}

#[test]
fn opening_a_url_or_file_is_a_host_request() {
    let request = renderer(route(Effect::OpenUrl { url: "https://x".to_string() }));
    assert_eq!((request.kind, request.method.as_str()), (RequestKind::Host, "openLink"));
    assert_eq!(as_text(get(&request.params, "url")), Some("https://x".to_string()));

    let request = renderer(route(Effect::OpenFile {
        path: "/a.rs".to_string(),
        line: Some(3),
        column: None,
    }));
    assert_eq!((request.kind, request.method.as_str()), (RequestKind::Host, "openFile"));
    assert_eq!(as_uint(get(&request.params, "line")), Some(3));
    assert!(get(&request.params, "column").is_none());
}

#[test]
fn select_option_is_replayed_at_the_brain() {
    match route(Effect::HostAction {
        action: "selectOption".to_string(),
        params: Some(params(vec![("type", text("pick"))])),
        reads_as_user_action: true,
    }) {
        Routed::SelfAction(p) => assert_eq!(as_text(get(&p, "type")), Some("pick".to_string())),
        _ => panic!("selectOption must come back as a gesture"),
    }
    let request = renderer(route(Effect::HostAction {
        action: "selectOption".to_string(),
        params: None,
        reads_as_user_action: false,
    }));
    assert_eq!(request.kind, RequestKind::Other("unrouted"));
    let request = renderer(route(Effect::HostAction {
        action: "selectOption".to_string(),
        params: Some(params(vec![("type", text("not-an-action"))])),
        reads_as_user_action: false,
    }));
    assert_eq!(request.kind, RequestKind::Other("unrouted"));
}

#[test]
fn an_unknown_effect_rides_unrouted() {
    let request = renderer(route(Effect::Unknown));
    let expected = unrouted_request();
    assert_eq!(request.kind, expected.kind);
    assert_eq!(request.kind, RequestKind::Other("unrouted"));
    assert_eq!(request.method, "");
    assert_eq!(request.params.len(), 0);
    assert_eq!(request.id, None);
}

#[test]
fn dispatched_attachment_and_handoff_kinds() {
    let request = dispatched("attachmentReferences", params(vec![]));
    assert_eq!((request.kind, request.method.as_str()), (RequestKind::AttachmentReferences, "insert"));
    let request = dispatched("draftReceived", params(vec![]));
    assert_eq!((request.kind, request.method.as_str()), (RequestKind::DraftReceived, "handoff"));
    let request = dispatched("somethingElse", params(vec![("k", Json::UInt(1))]));
    assert_eq!((request.kind, request.method.as_str()), (RequestKind::Host, "somethingElse"));
    assert_eq!(as_uint(get(&request.params, "k")), Some(1));
}

#[test]
fn draft_submitted_and_failed_read_their_method_or_send() {
    let request = dispatched("draftSubmitted", params(vec![("method", text("queue"))]));
    assert_eq!((request.kind, request.method.as_str()), (RequestKind::DraftSubmitted, "queue"));
    let request = dispatched("draftSubmitted", params(vec![("method", Json::UInt(3))]));
    assert_eq!(request.method, "send");
    let request = dispatched("submissionFailed", params(vec![]));
    assert_eq!((request.kind, request.method.as_str()), (RequestKind::SubmissionFailed, "send"));
}

#[test]
fn a_loaded_chat_image_is_flattened_without_overwriting() {
    let image = Json::Object(vec![
        ("base64Data".to_string(), text("AAA")),
        ("path".to_string(), text("/inner")),
    ]);
    let request = dispatched(
        "chatImage",
        params(vec![("image", image), ("path", text("/outer"))]),
    );
    assert_eq!((request.kind, request.method.as_str()), (RequestKind::ChatImage, "loaded"));
    assert!(get(&request.params, "image").is_none());
    assert_eq!(as_text(get(&request.params, "base64Data")), Some("AAA".to_string()));
    assert_eq!(as_text(get(&request.params, "path")), Some("/outer".to_string()));
}

#[test]
fn a_failed_chat_image_read_is_failed() {
    let request = dispatched(
        "chatImage",
        params(vec![("path", text("/p")), ("error", text("gone"))]),
    );
    assert_eq!(request.method, "failed");
    let request = dispatched("chatImage", params(vec![("image", text("not an object"))]));
    assert_eq!(request.method, "failed");
    assert!(get(&request.params, "image").is_none());
}

#[test]
fn effects_are_counted_by_variant_name() {
    assert_eq!(effect_name(&Effect::Host(HostEffect::SetTimer)), "setTimer");
    assert_eq!(effect_name(&Effect::OpenUrl { url: String::new() }), "open");
    assert_eq!(
        effect_name(&Effect::OpenFile { path: String::new(), line: None, column: None }),
        "open"
    );
    assert_eq!(effect_name(&Effect::Unknown), "unrouted");
    assert_eq!(
        effect_name(&Effect::HostAction { action: "x".to_string(), params: None, reads_as_user_action: false }),
        "hostAction"
    );
}

#[test]
fn a_fresh_draft_version_is_a_v4_id_at_revision_one() {
    match next_draft_version() {
        Json::Object(members) => {
            assert_eq!(members.len(), 2);
            assert_eq!(members[0].0, "draftId");
            match &members[0].1 {
                Json::Text(id) => {
                    assert_eq!(id.len(), 36);
                    assert_eq!(&id[14..15], "4");
                    assert_eq!(id.matches('-').count(), 4);
                }
                _ => panic!("draftId must be text"),
            }
            assert_eq!(members[1].0, "revision");
            assert!(matches!(members[1].1, Json::UInt(1)));
        }
        _ => panic!("a draft version is an object"),
    }
    let a = next_draft_version();
    let b = next_draft_version();
    match (a, b) {
        (Json::Object(a), Json::Object(b)) => match (&a[0].1, &b[0].1) {
            (Json::Text(x), Json::Text(y)) => assert_ne!(x, y),
            _ => panic!(),
        },
        _ => panic!(),
    }
}

fn submitted(method: &str) -> HostRequest {
    HostRequest {
        id: None,
        kind: RequestKind::DraftSubmitted,
        method: method.to_string(),
        params: params(vec![]),
    }
}

fn park() -> ParkedHandoff {
    ParkedHandoff {
        handoff_id: "h1".to_string(),
        content: "draft text".to_string(),
        draft_version: Json::UInt(9),
    }
}

#[test]
fn a_handoff_send_takes_its_park() {
    let mut parked = KeyedMap::new();
    parked.insert_new("chat".to_string(), park());
    let adopted = adopt_park_answer(&mut parked, "chat", submitted("handoff"), Json::UInt(2));
    assert_eq!(as_uint(get(&adopted.params, "nextVersion")), Some(2));
    assert_eq!(as_text(get(&adopted.params, "handoffId")), Some("h1".to_string()));
    assert_eq!(as_text(get(&adopted.params, "content")), Some("draft text".to_string()));
    assert_eq!(as_uint(get(&adopted.params, "draftVersion")), Some(9));
    assert_eq!(parked.len(), 0);
}

#[test]
fn a_plain_send_adopts_a_version_and_leaves_the_park() {
    let mut parked = KeyedMap::new();
    parked.insert_new("chat".to_string(), park());
    let adopted = adopt_park_answer(&mut parked, "chat", submitted("send"), Json::UInt(2));
    assert_eq!(as_uint(get(&adopted.params, "nextVersion")), Some(2));
    assert!(get(&adopted.params, "handoffId").is_none());
    assert_eq!(parked.len(), 1);
}

#[test]
fn a_request_that_is_no_send_passes_untouched() {
    let mut parked = KeyedMap::new();
    parked.insert_new("chat".to_string(), park());
    let request = HostRequest {
        id: None,
        kind: RequestKind::Host,
        method: "handoff".to_string(),
        params: params(vec![]),
    };
    let adopted = adopt_park_answer(&mut parked, "chat", request, Json::UInt(2));
    assert_eq!(adopted.params.len(), 0);
    assert_eq!(parked.len(), 1);
}

fn requests(n: usize) -> Vec<HostRequest> {
    (0..n)
        .map(|i| HostRequest {
            id: Some(i as u64),
            kind: RequestKind::Rpc,
            method: "m".to_string(),
            params: params(vec![]),
        })
        .collect()
}

#[test]
fn held_requests_are_kept_up_to_the_cap() {
    let mut held = requests(100);
    assert!(matches!(hold(&mut held, requests(28)), HoldOutcome::Held));
    assert_eq!(held.len(), MAX_HELD_REQUESTS);
    assert!(matches!(hold(&mut held, Vec::new()), HoldOutcome::Held));
    assert_eq!(held.len(), 128);
}

#[test]
fn one_request_past_the_cap_releases_the_chat() {
    let mut held = requests(128);
    match hold(&mut held, requests(1)) {
        HoldOutcome::Released { forgotten } => assert_eq!(forgotten, 129),
        HoldOutcome::Held => panic!("the chat must be released"),
    }
    assert!(held.is_empty());
}

#[test]
fn settling_stops_at_twelve_rounds_or_when_nothing_is_pending() {
    assert_eq!(MAX_SETTLE_ROUNDS, 12);
    assert!(settle_continues(1, 0));
    assert!(settle_continues(3, 11));
    assert!(!settle_continues(3, 12));
    assert!(!settle_continues(0, 0));
}

#[test]
fn taking_effects_counts_and_sorts_them() {
    let mut counters = EffectCounters { effects: KeyedMap::new(), effects_unrouted: 0 };
    let mut parked = KeyedMap::new();
    match take_effect(&mut counters, &mut parked, "k", Effect::Host(HostEffect::SetTimer), Json::Null) {
        Performer::Host(HostEffect::SetTimer) => {}
        _ => panic!(),
    }
    match take_effect(&mut counters, &mut parked, "k", Effect::Unknown, Json::Null) {
        Performer::Request(r) => assert_eq!(r.kind, RequestKind::Other("unrouted")),
        _ => panic!(),
    }
    match take_effect(&mut counters, &mut parked, "k", Effect::Unknown, Json::Null) {
        Performer::Request(_) => {}
        _ => panic!(),
    }
    match take_effect(
        &mut counters,
        &mut parked,
        "k",
        Effect::HostAction {
            action: "selectOption".to_string(),
            params: Some(params(vec![])),
            reads_as_user_action: true,
        },
        Json::Null,
    ) {
        Performer::Answer(_) => {}
        _ => panic!(),
    }
    assert_eq!(counters.effects_unrouted, 2);
    let count = |name: &str| counters.effects.index_of(name).map(|i| counters.effects.entries[i].1);
    assert_eq!(count("setTimer"), Some(1));
    assert_eq!(count("unrouted"), Some(2));
    assert_eq!(count("hostAction"), Some(1));
    assert_eq!(count("sendRpc"), None);
}

#[test]
fn a_taken_send_adopts_the_minted_version() {
    let mut counters = EffectCounters { effects: KeyedMap::new(), effects_unrouted: 0 };
    let mut parked = KeyedMap::new();
    let effect = Effect::HostAction {
        action: "draftSubmitted".to_string(),
        params: Some(params(vec![("method", text("send"))])),
        reads_as_user_action: false,
    };
    match take_effect(&mut counters, &mut parked, "k", effect, Json::UInt(5)) {
        Performer::Request(r) => {
            assert_eq!(r.kind, RequestKind::DraftSubmitted);
            assert_eq!(as_uint(get(&r.params, "nextVersion")), Some(5));
        }
        _ => panic!(),
    }
}
