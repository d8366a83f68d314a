use ghostex_desktop::delayed_send::{
    delayed_send_active, delayed_send_options, AgentOption, SnapshotSession,
};
use ghostex_desktop::docs_feedback::{
    docs_annotation_feedback_chat_outcome, docs_annotation_feedback_step,
    docs_annotation_feedback_terminal_outcome, DocsAnnotationFeedbackSurface, FeedbackStep,
    TerminalDelivery,
};
use ghostex_desktop::effects::Json;
use ghostex_desktop::sidebar::{nothing_moved, FactsOutcome, FactsPost, RuntimeFacts, UnavailableSince};

fn text(s: &str) -> Option<Json> {
    Some(Json::Text(s.to_string()))
}

fn session(project: &str, id: &str, title: Option<&str>) -> SnapshotSession {
    SnapshotSession {
        lifecycle_state: text("running"),
        kind: text("terminal"),
        surface: None,
        project_id: text(project),
        session_id: text(id),
        display_title: None,
        title: title.and_then(text),
    }
}

fn option(project: &str, id: &str, label: &str) -> AgentOption {
    AgentOption { project_id: project.to_string(), session_id: id.to_string(), label: label.to_string() }
}

#[test]
fn running_agents_are_offered_sorted_by_label() {
    let mut agent = session("p", "s2", Some("Alpha"));
    agent.kind = text("agent");
    let mut commands = session("p", "s3", Some("Commands"));
    commands.surface = text("commands");
    let mut stopped = session("p", "s4", Some("Stopped"));
    stopped.lifecycle_state = text("exited");
    let mut browser = session("p", "s5", Some("Browser"));
    browser.kind = text("browser");
    let mut titled = session("q", "s6", Some("ignored"));
    titled.display_title = text("Beta");
    let mut odd = session("q", "s7", Some("ignored"));
    odd.display_title = Some(Json::UInt(3));
    let sessions = vec![
        session("p", "s1", Some("Zed")),
        agent,
        commands,
        stopped,
        browser,
        titled,
        odd,
        session("p", "s8", None),
    ];
    assert_eq!(
        delayed_send_options(&sessions),
        vec![
            option("p", "s2", "Alpha (s2)"),
            option("q", "s6", "Beta (s6)"),
            option("p", "s1", "Zed (s1)"),
            option("q", "s7", "s7 (s7)"),
            option("p", "s8", "s8 (s8)"),
        ]
    );
}

#[test]
fn equal_labels_keep_the_snapshot_order() {
    let sessions = vec![session("p", "x", Some("T")), session("q", "x", Some("T"))];
    let options = delayed_send_options(&sessions);
    assert_eq!(options[0].project_id, "p");
    assert_eq!(options[1].project_id, "q");
}

#[test]
fn a_session_without_text_ids_is_not_offered() {
    let mut bad = session("p", "s", Some("T"));
    bad.project_id = Some(Json::UInt(1));
    assert!(delayed_send_options(&vec![bad]).is_empty());
}

#[test]
fn the_active_choice_is_the_first_session_that_is_the_target() {
    let sessions = vec![session("p", "a", None), session("p", "b", None), session("p", "b", None)];
    assert_eq!(delayed_send_active(&sessions, Some(("p", "b"))), Some(1));
    assert_eq!(delayed_send_active(&sessions, Some(("q", "b"))), None);
    assert_eq!(delayed_send_active(&sessions, None), None);
}

#[test]
fn a_send_starts_with_the_right_step() {
    assert_eq!(
        docs_annotation_feedback_step(" \n\t", Some(DocsAnnotationFeedbackSurface::Chat), true),
        FeedbackStep::Nothing("There is nothing to send.")
    );
    assert_eq!(
        docs_annotation_feedback_step("note", None, true),
        FeedbackStep::Clipboard("No running agent session is selected in the sidebar.")
    );
    assert_eq!(
        docs_annotation_feedback_step("note", Some(DocsAnnotationFeedbackSurface::Chat), false),
        FeedbackStep::Chat
    );
    assert_eq!(
        docs_annotation_feedback_step("note", Some(DocsAnnotationFeedbackSurface::Terminal), true),
        FeedbackStep::AskTerminal
    );
    assert_eq!(
        docs_annotation_feedback_step("note", Some(DocsAnnotationFeedbackSurface::Terminal), false),
        FeedbackStep::Clipboard("The selected session's machine cannot be reached.")
    );
}

#[test]
fn each_path_ends_in_its_delivery() {
    assert_eq!(docs_annotation_feedback_chat_outcome(true), ("chat", None));
    assert_eq!(
        docs_annotation_feedback_chat_outcome(false),
        ("clipboard", Some("The chat for that session is not available right now."))
    );
    assert_eq!(docs_annotation_feedback_terminal_outcome(TerminalDelivery::Insert, true), ("terminal", None));
    assert_eq!(
        docs_annotation_feedback_terminal_outcome(TerminalDelivery::Insert, false),
        ("clipboard", Some("Ghostex cannot tell whether this agent's input box is ready."))
    );
    assert_eq!(
        docs_annotation_feedback_terminal_outcome(TerminalDelivery::NotReady, false),
        ("clipboard", Some("The agent's input box is not available right now."))
    );
    assert_eq!(
        docs_annotation_feedback_terminal_outcome(TerminalDelivery::Unknown, true),
        ("clipboard", Some("Ghostex cannot tell whether this agent's input box is ready."))
    );
}

#[test]
fn an_unavailable_daemon_is_timed_from_when_it_was_first_seen_so() {
    let mut u = UnavailableSince::default();
    u.note_machine_state(false, 10);
    u.note_machine_state(false, 20);
    assert_eq!(u.since_ms, Some(10));
    assert!(!u.observed_available);
    u.note_machine_state(true, 30);
    assert_eq!(u.since_ms, None);
    assert!(u.observed_available);
}

#[test]
fn an_update_with_nothing_moved_is_skipped() {
    assert!(nothing_moved(true, false, true, true, true, None, 5));
    assert!(nothing_moved(true, false, true, true, true, Some(6), 5));
    assert!(!nothing_moved(true, false, true, true, true, Some(5), 5));
    assert!(!nothing_moved(false, false, true, true, true, None, 5));
    assert!(!nothing_moved(true, true, true, true, true, None, 5));
    assert!(!nothing_moved(true, false, false, true, true, None, 5));
    assert!(!nothing_moved(true, false, true, false, true, None, 5));
    assert!(!nothing_moved(true, false, true, true, false, None, 5));
}

#[test]
fn facts_posts_bump_their_generation_or_count_as_unparsable() {
    let mut facts = RuntimeFacts::default();
    assert_eq!(facts.receive_sidebar_runtime_facts(FactsPost::Hud), FactsOutcome::Refresh);
    assert_eq!(facts.receive_sidebar_runtime_facts(FactsPost::Rows), FactsOutcome::Refresh);
    assert_eq!((facts.hud_generation, facts.rows_generation), (1, 1));
    assert_eq!(
        facts.receive_sidebar_runtime_facts(FactsPost::Reveal {
            session_id: Some("s".to_string()),
            request_id: Some(4)
        }),
        FactsOutcome::RevealThenRefresh { session_id: "s".to_string(), request_id: 4 }
    );
    assert_eq!(facts.newest_reveal, Some(("s".to_string(), 4)));
    assert_eq!(
        facts.receive_sidebar_runtime_facts(FactsPost::Reveal { session_id: None, request_id: Some(5) }),
        FactsOutcome::Refresh
    );
    assert_eq!(facts.receive_sidebar_runtime_facts(FactsPost::Other), FactsOutcome::Dropped);
    assert_eq!(facts.receive_sidebar_runtime_facts(FactsPost::Unparsable), FactsOutcome::Dropped);
    assert_eq!(facts.counters.unparsable, 3);
    assert_eq!(facts.counters.reveal_posts, 1);
    assert_eq!(facts.newest_reveal, Some(("s".to_string(), 4)));
}
