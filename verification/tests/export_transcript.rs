use ghostex_desktop::effects::Json;
use ghostex_desktop::export_transcript::{
    export_command_step, export_prompt_agents, export_request, export_result,
    export_unavailable_result, ExportCommand,
};

fn text(s: &str) -> Json {
    Json::Text(s.to_string())
}

fn object(members: Vec<(&str, Json)>) -> Json {
    Json::Object(members.into_iter().map(|(k, v)| (k.to_string(), v)).collect())
}

#[test]
fn an_open_message_needs_a_short_request_id() {
    let request = export_request(&object(vec![("requestId", text("  r1 ")), ("agentId", text(" codex "))]))
        .expect("request");
    assert_eq!(request.request_id, "r1");
    assert_eq!(request.default_agent_id.as_deref(), Some("codex"));
    let blank_agent = export_request(&object(vec![("requestId", text("r2")), ("agentId", text("  "))]))
        .expect("request");
    assert_eq!(blank_agent.default_agent_id, None);
    assert!(export_request(&object(vec![("requestId", text("   "))])).is_none());
    assert!(export_request(&object(vec![("requestId", text(&"x".repeat(129)))])).is_none());
    assert!(export_request(&object(vec![("requestId", text(&"é".repeat(128)))])).is_some());
    assert!(export_request(&object(vec![])).is_none());
}

#[test]
fn only_launchable_agents_take_the_handoff() {
    let buttons = vec![
        object(vec![("agentId", text("a")), ("name", text("Alpha")), ("command", text("run a"))]),
        object(vec![("agentId", text("b")), ("name", text("Beta"))]),
        object(vec![("agentId", text(" ")), ("name", text("Gamma")), ("command", text("c"))]),
        object(vec![("agentId", text(" d ")), ("name", text(" Delta ")), ("command", text(" d "))]),
    ];
    let agents = export_prompt_agents(&buttons);
    let read: Vec<(&str, &str)> = agents.iter().map(|a| (a.agent_id.as_str(), a.name.as_str())).collect();
    assert_eq!(read, vec![("a", "Alpha"), ("d", "Delta")]);
}

#[test]
fn each_command_posts_its_message() {
    let step = export_command_step("r1", ExportCommand::RunExport { commands: true, patches: false, reasoning: true });
    let (name, message) = step.bridge.expect("bridge");
    assert_eq!(name, "runExportSessionTranscript");
    assert_eq!(message.len(), 4);
    assert!(matches!(&message[0], (k, Json::Text(v)) if k == "requestId" && v == "r1"));
    assert!(matches!(&message[1], (k, Json::Bool(true)) if k == "includeCommands"));
    assert!(matches!(&message[2], (k, Json::Bool(false)) if k == "includePatches"));
    assert!(!step.release_window);
    let step = export_command_step("r1", ExportCommand::StartConversation { agent_id: "a".to_string() });
    let (name, message) = step.bridge.expect("bridge");
    assert_eq!(name, "startExportedTranscriptConversation");
    assert!(matches!(&message[1], (k, Json::Text(v)) if k == "agentId" && v == "a"));
    assert!(step.release_window);
    let step = export_command_step("r1", ExportCommand::Cancel);
    assert_eq!(step.bridge.expect("bridge").0, "cancelExportSessionTranscript");
    let step = export_command_step("r1", ExportCommand::Reveal);
    assert!(step.bridge.is_none() && step.reveal && step.release_window);
}

#[test]
fn an_unreachable_runtime_fails_the_export() {
    match export_unavailable_result("r9") {
        Json::Object(m) => {
            assert!(matches!(&m[0], (k, Json::Text(v)) if k == "error" && v == "The sidebar runtime is not available."));
            assert!(matches!(&m[1], (k, Json::Bool(false)) if k == "ok"));
            assert!(matches!(&m[2], (k, Json::Text(v)) if k == "requestId" && v == "r9"));
            assert!(matches!(&m[3], (k, Json::Text(v)) if k == "type" && v == "exportSessionTranscriptResult"));
        }
        _ => panic!("an object was expected"),
    }
}

#[test]
fn a_result_is_read_with_trimmed_texts() {
    let read = export_result(&object(vec![
        ("ok", Json::Bool(true)),
        ("canReveal", text("true")),
        ("path", text(" /tmp/x.md ")),
        ("error", text("  ")),
    ]));
    assert!(read.ok);
    assert!(!read.can_reveal);
    assert_eq!(read.path.as_deref(), Some("/tmp/x.md"));
    assert_eq!(read.error, None);
    assert_eq!(read.agent_id, None);
}
