use ghostex_desktop::chat_host::envelope_carries_change;
use ghostex_desktop::effects::Json;
use ghostex_desktop::app_model::LocalFocusRouteCounters;
use ghostex_desktop::sidebar_commands::{
    focus_click_session, focus_session_message, local_focus_session_id, note_local_row_focus,
    remote_focus_message, wrapped_message, RemoteFocusMessage,
};
use ghostex_desktop::sidebar_inputs::rows_facts;
use ghostex_desktop::sidebar_menus::{
    agents, commands, commands_by_project, machine_connected, panel_step, session_menu_request,
    MachineState, PanelStep,
};

fn text(s: &str) -> Json {
    Json::Text(s.to_string())
}

fn object(members: Vec<(&str, Json)>) -> Json {
    Json::Object(members.into_iter().map(|(k, v)| (k.to_string(), v)).collect())
}

fn members(members: Vec<(&str, Json)>) -> Vec<(String, Json)> {
    members.into_iter().map(|(k, v)| (k.to_string(), v)).collect()
}

#[test]
fn a_wrapped_message_is_the_message_of_a_command() {
    let command = object(vec![("type", text("command")), ("message", object(vec![]))]);
    assert!(matches!(wrapped_message(&command), Some(Json::Object(_))));
    let top = object(vec![("type", text("selectSession")), ("message", object(vec![]))]);
    assert!(wrapped_message(&top).is_none());
    assert!(wrapped_message(&object(vec![("type", text("command"))])).is_none());
}

#[test]
fn only_a_local_focus_click_names_a_local_session() {
    let click = object(vec![
        ("type", text("selectSession")),
        ("mode", text("focus")),
        ("sessionId", text("s1")),
    ]);
    assert_eq!(focus_click_session(&click), Some("s1"));
    assert_eq!(local_focus_session_id(&click, false).as_deref(), Some("s1"));
    assert_eq!(local_focus_session_id(&click, true), None);
    let split = object(vec![
        ("type", text("selectSession")),
        ("mode", text("split")),
        ("sessionId", text("s1")),
    ]);
    assert_eq!(local_focus_session_id(&split, false), None);
}

#[test]
fn a_remote_click_becomes_a_focus_or_a_split() {
    let click = object(vec![
        ("type", text("selectSession")),
        ("mode", text("focus")),
        ("sessionId", text("remote-1")),
    ]);
    match remote_focus_message(&click) {
        Some(RemoteFocusMessage::FocusSession(id)) => assert_eq!(id, "remote-1"),
        _ => panic!("a focus expected"),
    }
    let split = object(vec![
        ("type", text("command")),
        ("message", object(vec![("type", text("splitSessionRight"))])),
    ]);
    assert!(matches!(remote_focus_message(&split), Some(RemoteFocusMessage::Split(_))));
    let other = object(vec![
        ("type", text("command")),
        ("message", object(vec![("type", text("closeSession"))])),
    ]);
    assert!(remote_focus_message(&other).is_none());
    assert!(remote_focus_message(&object(vec![("type", text("sessionMenu"))])).is_none());
}

#[test]
fn a_drain_is_posted_when_any_channel_moved() {
    assert!(!envelope_carries_change(&members(vec![("revision", Json::UInt(3))])));
    assert!(envelope_carries_change(&members(vec![("minimap", Json::Null)])));
    assert!(envelope_carries_change(&members(vec![("subagentSplice", Json::Array(vec![]))])));
    assert!(!envelope_carries_change(&members(vec![("requests", Json::Array(vec![]))])));
    assert!(envelope_carries_change(&members(vec![("requests", Json::Array(vec![Json::Null]))])));
    assert!(!envelope_carries_change(&members(vec![("requests", object(vec![]))])));
}

#[test]
fn the_menus_read_agents_and_saved_actions_from_the_hud() {
    let list = Json::Array(vec![
        object(vec![("agentId", text("a1")), ("name", text("Alpha")), ("icon", text("i"))]),
        object(vec![("name", Json::UInt(1))]),
    ]);
    let found = agents(Some(&list));
    assert_eq!(found.len(), 2);
    assert_eq!((found[0].agent_id.as_str(), found[0].name.as_str()), ("a1", "Alpha"));
    assert_eq!(found[0].icon.as_deref(), Some("i"));
    assert_eq!((found[1].agent_id.as_str(), found[1].name.as_str()), ("", ""));
    assert!(agents(Some(&object(vec![]))).is_empty());
    assert!(agents(None).is_empty());
    let saved = Json::Array(vec![object(vec![
        ("commandId", text("c1")),
        ("name", text("Build")),
        ("showOnProjectRow", Json::Bool(true)),
    ])]);
    let found = commands(Some(&saved));
    assert_eq!(found[0].command_id, "c1");
    assert!(found[0].show_on_project_row);
    assert_eq!(found[0].icon, None);
    let by_project = object(vec![("p2", saved), ("p1", Json::Null)]);
    let lists = commands_by_project(Some(&by_project));
    let keys: Vec<&str> = lists.entries.iter().map(|(k, _)| k.as_str()).collect();
    assert_eq!(keys, vec!["p1", "p2"]);
    assert!(lists.entries[0].1.is_empty());
    assert_eq!(lists.entries[1].1.len(), 1);
}

#[test]
fn a_session_menu_request_names_its_row() {
    let request = object(vec![
        ("type", text("sessionMenu")),
        ("sessionId", text("s1")),
        ("action", text("sleep")),
    ]);
    let read = session_menu_request(&request).expect("request");
    assert_eq!(read.session_id, "s1");
    assert_eq!(read.owner_id, "");
    assert_eq!(read.action.as_deref(), Some("sleep"));
    assert!(session_menu_request(&object(vec![("type", text("sessionMenu"))])).is_none());
    assert!(session_menu_request(&object(vec![("type", text("other")), ("sessionId", text("s"))])).is_none());
    assert_eq!(panel_step(false, false), PanelStep::Leave);
    assert_eq!(panel_step(true, true), PanelStep::Dismiss);
    assert_eq!(panel_step(true, false), PanelStep::Replace);
}

#[test]
fn the_selected_machine_must_be_connected() {
    let machines = vec![
        MachineState { id: "local".to_string(), state: "connected".to_string() },
        MachineState { id: "m1".to_string(), state: "connecting".to_string() },
    ];
    assert!(machine_connected(&machines, "local"));
    assert!(!machine_connected(&machines, "m1"));
    assert!(!machine_connected(&machines, "m2"));
}

#[test]
fn a_rows_post_carries_the_per_row_facts() {
    let post = object(vec![
        ("kind", text("rows")),
        (
            "projectDiffStats",
            object(vec![("p1", object(vec![("additions", Json::UInt(3)), ("isRepo", Json::Bool(true))]))]),
        ),
        ("closeAfterDone", object(vec![("s1", object(vec![("armed", Json::Bool(true))]))])),
        (
            "delayedSend",
            object(vec![("s2", object(vec![("remainingMs", Json::Int(-5)), ("deadlineAt", text("t"))]))]),
        ),
    ]);
    let facts = rows_facts(&post);
    assert_eq!(facts.project_diff_stats.entries[0].0, "p1");
    assert_eq!(facts.project_diff_stats.entries[0].1.additions, 3);
    assert!(facts.project_diff_stats.entries[0].1.is_repo);
    assert!(facts.close_after_done.entries[0].1.armed);
    assert_eq!(facts.delayed_sends.entries[0].1.remaining_ms, Some(-5));
    assert_eq!(facts.delayed_sends.entries[0].1.deadline_at.as_deref(), Some("t"));
    let empty = rows_facts(&object(vec![("projectDiffStats", Json::Array(vec![]))]));
    assert!(empty.project_diff_stats.entries.is_empty());
    assert!(empty.close_after_done.entries.is_empty());
}

#[test]
fn a_local_focus_is_counted_by_what_it_names() {
    let mut counters = LocalFocusRouteCounters::default();
    note_local_row_focus(&mut counters, "gpui-browser:tab-1", true);
    note_local_row_focus(&mut counters, "combined-session:p:s", false);
    note_local_row_focus(&mut counters, "gpui-browse", false);
    assert_eq!((counters.focuses, counters.browser_rows, counters.modals_closed), (3, 1, 1));
    match focus_session_message("s1") {
        Json::Object(m) => {
            assert!(matches!(&m[0], (k, Json::Text(t)) if k == "type" && t == "focusSession"));
            assert!(matches!(&m[1], (k, Json::Text(t)) if k == "sessionId" && t == "s1"));
        }
        _ => panic!("an object was expected"),
    }
}
