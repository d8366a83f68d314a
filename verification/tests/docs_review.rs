use ghostex_desktop::docs_feedback::{
    composer_state, copied_toast_description, docs_annotation_feedback_delivery_response,
    docs_annotation_send_target_response, docs_review_open_script, docs_review_payload,
    script_literal, DocsAnnotationFeedbackSurface, DocsAnnotationFeedbackTarget,
};
use ghostex_desktop::effects::Json;
use ghostex_desktop::text::decimal_text;

fn texts(json: &Json) -> Vec<(String, String)> {
    match json {
        Json::Object(m) => m
            .iter()
            .map(|(k, v)| match v {
                Json::Text(t) => (k.clone(), t.clone()),
                Json::Null => (k.clone(), "null".to_string()),
                _ => (k.clone(), "?".to_string()),
            })
            .collect(),
        _ => panic!("an object was expected"),
    }
}

fn pairs(items: &[(&str, &str)]) -> Vec<(String, String)> {
    items.iter().map(|(k, v)| (k.to_string(), v.to_string())).collect()
}

#[test]
fn numbers_are_written_in_decimal() {
    for n in [0u64, 7, 10, 99, 1700000000123, u64::MAX] {
        assert_eq!(decimal_text(n), n.to_string());
    }
}

#[test]
fn the_delivery_response_names_where_the_annotations_went() {
    let response = docs_annotation_feedback_delivery_response("send", "r1", "clipboard");
    assert_eq!(
        texts(&response),
        pairs(&[("action", "send"), ("annotationDelivery", "clipboard"), ("requestId", "r1")])
    );
}

#[test]
fn the_target_response_describes_the_target_or_null() {
    let target = DocsAnnotationFeedbackTarget {
        shell_session_id: 3,
        agent_label: "Codex".to_string(),
        session_title: "Fix".to_string(),
        surface: DocsAnnotationFeedbackSurface::Terminal,
    };
    let response = docs_annotation_send_target_response("target", "r2", Some(&target));
    match &response {
        Json::Object(m) => {
            assert_eq!(m[1].0, "annotationTarget");
            assert_eq!(
                texts(&m[1].1),
                pairs(&[("agentLabel", "Codex"), ("sessionTitle", "Fix"), ("surface", "terminal")])
            );
        }
        _ => panic!("an object was expected"),
    }
    let none = docs_annotation_send_target_response("target", "r3", None);
    assert_eq!(
        texts(&none),
        pairs(&[("action", "target"), ("annotationTarget", "null"), ("requestId", "r3")])
    );
}

#[test]
fn the_copied_toast_tells_the_user_to_paste() {
    assert_eq!(
        copied_toast_description("The chat for that session is not available right now."),
        "The chat for that session is not available right now. Paste them into the agent yourself."
    );
}

#[test]
fn the_composer_state_is_the_answer_text() {
    let answer = Json::Object(vec![("composerState".to_string(), Json::Text("ready".to_string()))]);
    assert_eq!(composer_state(Some(&answer)).as_deref(), Some("ready"));
    assert_eq!(composer_state(Some(&Json::Null)), None);
    assert_eq!(composer_state(None), None);
}

#[test]
fn a_reply_opens_as_a_titled_document() {
    let payload = docs_review_payload("# Hi", 1700000000123, "Codex", "Fix it");
    assert_eq!(
        texts(&payload),
        pairs(&[
            ("content", "# Hi"),
            ("id", "reply-1700000000123"),
            ("sessionTitle", "Fix it"),
            ("title", "Reply from Codex"),
        ])
    );
}

#[test]
fn the_open_script_escapes_the_line_separators() {
    assert_eq!(script_literal("a\u{2028}b\u{2029}c"), "a\\u2028b\\u2029c");
    let script = docs_review_open_script("{\"x\":1}");
    assert!(script.starts_with("(function(){var p={\"x\":1};var a=0;"));
    assert!(script.ends_with("send();})(); undefined;"));
}
