use ghostex_desktop::gx_diagnostics::{enabled, routine_logging_enabled, runtime_trace_enabled};
use ghostex_desktop::docs_feedback::{
    docs_annotation_feedback_agent_label, docs_annotation_feedback_terminal_delivery,
    rpc_target_of, AgentSession, DocsAnnotationFeedbackRpcTarget, DocsAnnotationFeedbackSurface,
    DocsAnnotationFeedbackTarget, SidebarAgent, TerminalDelivery, WorkspaceSessionKey,
};
use ghostex_desktop::gx_diagnostics::{
    distinct_fields, encode_field, FieldDiff, GxStoreDiagnostics, SidebarMismatch,
};
use ghostex_desktop::local_focus::SessionRef;
use ghostex_desktop::retained::{prune_victims, snapshot_write, SnapshotWrite, MAX_SNAPSHOT_ENTRIES};
use ghostex_desktop::sidebar::{
    gx_store_book_sidebar_deadline, gx_store_note_primary_launcher_host_message,
    gx_store_prune_sidebar_selection, gx_store_sidebar_draws_store_list,
    gx_store_sidebar_list_carries_projection, gx_store_sidebar_list_source,
    read_primary_agent_launcher_id, sidebar_list_source_of, DeadlineBooking, SidebarListSource,
    SidebarReadyRecovery,
};

fn field(name: &str, old: bool, store: bool) -> FieldDiff {
    FieldDiff { name: name.to_string(), old_has_value: old, store_has_value: store }
}

#[test]
fn a_field_name_says_which_side_has_the_value() {
    assert_eq!(encode_field(&field("title", true, true)), "title");
    assert_eq!(encode_field(&field("title", false, false)), "title");
    assert_eq!(encode_field(&field("title", true, false)), "title=old");
    assert_eq!(encode_field(&field("title", false, true)), "title=store");
}

#[test]
fn distinct_fields_keep_first_appearance_and_stop_at_twenty_four() {
    let mismatch = SidebarMismatch {
        top_level: vec![field("a", true, true)],
        groups: vec![("g".to_string(), vec![field("b", true, false), field("a", true, true)])],
        sessions: vec![("s".to_string(), vec![field("b", true, false), field("c", false, true)])],
    };
    assert_eq!(
        distinct_fields(&mismatch),
        vec!["a".to_string(), "b=old".to_string(), "c=store".to_string()]
    );
    let many = SidebarMismatch {
        top_level: (0..30).map(|i| field(&format!("f{i}"), true, true)).collect(),
        groups: vec![],
        sessions: vec![],
    };
    let names = distinct_fields(&many);
    assert_eq!(names.len(), 24);
    assert_eq!(names[23], "f23");
}

#[test]
fn warning_lines_stop_at_forty() {
    let mut d = GxStoreDiagnostics::default();
    for _ in 0..40 {
        assert!(d.warning());
    }
    assert!(!d.warning());
    assert_eq!(d.warning_lines, 40);
}

#[test]
fn each_storage_warning_kind_writes_three_lines() {
    let mut d = GxStoreDiagnostics::default();
    assert!(d.sidebar_ui_read_failed());
    assert!(d.sidebar_ui_write_failed());
    assert!(d.sidebar_ui_read_failed());
    assert!(!d.sidebar_ui_write_failed());
    assert_eq!(d.sidebar_storage_warnings, 3);
    for _ in 0..3 {
        assert!(d.sidebar_ui_write_refused());
    }
    assert!(!d.sidebar_ui_write_refused());
    assert_eq!(d.warning_lines, 6);
}

#[test]
fn a_storage_warning_also_needs_a_warning_line() {
    let mut d = GxStoreDiagnostics { warning_lines: 40, ..GxStoreDiagnostics::default() };
    assert!(!d.sidebar_ui_read_failed());
    assert_eq!(d.sidebar_storage_warnings, 1);
    assert_eq!(d.warning_lines, 40);
}

#[test]
fn project_doc_edit_records_need_logging_and_budget() {
    let mut d = GxStoreDiagnostics::default();
    assert!(!d.project_doc_edit_budget(2, false));
    assert!(d.project_doc_edit_budget(2, true));
    assert!(d.project_doc_edit_budget(2, true));
    assert!(!d.project_doc_edit_budget(2, true));
    assert_eq!(d.project_doc_edit_records, 2);
}

fn agents() -> Vec<SidebarAgent> {
    vec![
        SidebarAgent { icon: "amp".to_string(), name: "Amp Code".to_string() },
        SidebarAgent { icon: "codex".to_string(), name: "Codex CLI".to_string() },
    ]
}

#[test]
fn agent_labels_come_from_the_defaults_or_a_capital() {
    assert_eq!(docs_annotation_feedback_agent_label(&agents(), "codex"), "Codex CLI");
    assert_eq!(docs_annotation_feedback_agent_label(&agents(), "gemini"), "Gemini");
    assert_eq!(docs_annotation_feedback_agent_label(&agents(), "ßx"), "SSx");
    assert_eq!(docs_annotation_feedback_agent_label(&agents(), ""), "");
}

#[test]
fn the_surface_names_are_chat_and_terminal() {
    assert_eq!(DocsAnnotationFeedbackSurface::Chat.as_str(), "chat");
    assert_eq!(DocsAnnotationFeedbackSurface::Terminal.as_str(), "terminal");
}

fn agent_session(running: bool, icon: Option<&str>, chat: bool) -> AgentSession {
    AgentSession {
        running,
        agent_icon: icon.map(str::to_string),
        title: "Fix the build".to_string(),
        chat_mode: chat,
    }
}

#[test]
fn the_target_is_the_last_clicked_running_agent_of_the_active_project() {
    let key = SessionRef { project_id: "p".to_string(), session_id: "s".to_string() };
    let session = agent_session(true, Some("amp"), true);
    assert_eq!(
        DocsAnnotationFeedbackTarget::for_session(&agents(), Some("p"), Some(&key), Some(7), Some(&session)),
        Some(DocsAnnotationFeedbackTarget {
            shell_session_id: 7,
            agent_label: "Amp Code".to_string(),
            session_title: "Fix the build".to_string(),
            surface: DocsAnnotationFeedbackSurface::Chat,
        })
    );
    let terminal = agent_session(true, Some("amp"), false);
    assert_eq!(
        DocsAnnotationFeedbackTarget::for_session(&agents(), Some("p"), Some(&key), Some(7), Some(&terminal))
            .unwrap()
            .surface,
        DocsAnnotationFeedbackSurface::Terminal
    );
    assert!(DocsAnnotationFeedbackTarget::for_session(&agents(), Some("q"), Some(&key), Some(7), Some(&session)).is_none());
    assert!(DocsAnnotationFeedbackTarget::for_session(&agents(), None, Some(&key), Some(7), Some(&session)).is_none());
    assert!(DocsAnnotationFeedbackTarget::for_session(&agents(), Some("p"), None, Some(7), Some(&session)).is_none());
    assert!(DocsAnnotationFeedbackTarget::for_session(&agents(), Some("p"), Some(&key), Some(7), None).is_none());
    assert!(DocsAnnotationFeedbackTarget::for_session(&agents(), Some("p"), Some(&key), None, Some(&session)).is_none());
    let stopped = agent_session(false, Some("amp"), true);
    assert!(DocsAnnotationFeedbackTarget::for_session(&agents(), Some("p"), Some(&key), Some(7), Some(&stopped)).is_none());
    let no_agent = agent_session(true, None, true);
    assert!(DocsAnnotationFeedbackTarget::for_session(&agents(), Some("p"), Some(&key), Some(7), Some(&no_agent)).is_none());
}

#[test]
fn the_terminal_is_pasted_into_only_when_ready_and_unchanged() {
    assert_eq!(docs_annotation_feedback_terminal_delivery(true, Some("ready")), TerminalDelivery::Insert);
    assert_eq!(docs_annotation_feedback_terminal_delivery(false, Some("ready")), TerminalDelivery::Unknown);
    assert_eq!(docs_annotation_feedback_terminal_delivery(true, Some("notReady")), TerminalDelivery::NotReady);
    assert_eq!(docs_annotation_feedback_terminal_delivery(false, Some("notReady")), TerminalDelivery::NotReady);
    assert_eq!(docs_annotation_feedback_terminal_delivery(true, Some("maybe")), TerminalDelivery::Unknown);
    assert_eq!(docs_annotation_feedback_terminal_delivery(true, None), TerminalDelivery::Unknown);
}

#[test]
fn a_local_key_naming_a_remote_project_is_asked_on_that_machine() {
    let local = WorkspaceSessionKey::Local { project_id: "p".to_string(), session_id: "s".to_string() };
    assert_eq!(
        rpc_target_of(&local, None, false),
        Some(DocsAnnotationFeedbackRpcTarget::Local { project_id: "p".to_string(), session_id: "s".to_string() })
    );
    assert_eq!(rpc_target_of(&local, Some(("m".to_string(), "rp".to_string())), false), None);
    assert_eq!(
        rpc_target_of(&local, Some(("m".to_string(), "rp".to_string())), true),
        Some(DocsAnnotationFeedbackRpcTarget::Remote {
            machine_id: "m".to_string(),
            project_id: "rp".to_string(),
            session_id: "s".to_string()
        })
    );
    let remote = WorkspaceSessionKey::Remote {
        remote_machine_id: "m2".to_string(),
        project_id: "p".to_string(),
        session_id: "s".to_string(),
    };
    assert_eq!(
        rpc_target_of(&remote, None, true),
        Some(DocsAnnotationFeedbackRpcTarget::Remote {
            machine_id: "m2".to_string(),
            project_id: "p".to_string(),
            session_id: "s".to_string()
        })
    );
    assert_eq!(rpc_target_of(&remote, None, false), None);
}

#[test]
fn the_list_recovers_after_eight_seconds_without_a_leg() {
    let mut r = SidebarReadyRecovery::default();
    assert!(!r.gx_store_sidebar_list_ready(true, false));
    assert_eq!(r.gx_store_check_sidebar_ready_recovery(true, false, 100), None);
    r.start(100);
    r.start(5000);
    assert_eq!(r.waited(300), Some(200));
    assert_eq!(r.waited(50), Some(0));
    assert_eq!(r.gx_store_check_sidebar_ready_recovery(true, false, 8099), None);
    assert_eq!(r.gx_store_check_sidebar_ready_recovery(true, false, 8100), Some((true, false, 8000)));
    assert!(r.gx_store_sidebar_list_ready(true, false));
    assert!(!r.gx_store_sidebar_list_ready(false, true));
    assert_eq!(r.gx_store_check_sidebar_ready_recovery(true, true, 9000), None);
}

#[test]
fn the_configured_list_source_is_read_in_any_case() {
    assert_eq!(sidebar_list_source_of("STORE"), SidebarListSource::Store);
    assert_eq!(sidebar_list_source_of("store"), SidebarListSource::Store);
    assert_eq!(sidebar_list_source_of("stored"), SidebarListSource::Projection);
    assert_eq!(gx_store_sidebar_list_source(false, "store"), SidebarListSource::Projection);
    assert_eq!(gx_store_sidebar_list_source(true, "Store"), SidebarListSource::Store);
    assert!(gx_store_sidebar_draws_store_list(SidebarListSource::Store, true));
    assert!(!gx_store_sidebar_draws_store_list(SidebarListSource::Store, false));
    assert!(!gx_store_sidebar_draws_store_list(SidebarListSource::Projection, true));
    assert!(gx_store_sidebar_list_carries_projection(3, 3));
    assert!(!gx_store_sidebar_list_carries_projection(3, 4));
}

#[test]
fn only_drawn_rows_stay_selected() {
    let mut selected = vec!["a".to_string(), "b".to_string(), "c".to_string()];
    let drawn = vec!["c".to_string(), "a".to_string()];
    assert!(gx_store_prune_sidebar_selection(&mut selected, &drawn));
    assert_eq!(selected, vec!["a".to_string(), "c".to_string()]);
    assert!(!gx_store_prune_sidebar_selection(&mut selected, &drawn));
}

#[test]
fn one_timer_is_booked_for_the_next_deadline() {
    let mut booked = None;
    assert_eq!(
        gx_store_book_sidebar_deadline(&mut booked, Some(1000), Some(600), true, 500),
        DeadlineBooking::Book { deadline: 600, wait: 100 }
    );
    assert_eq!(booked, Some(600));
    assert_eq!(
        gx_store_book_sidebar_deadline(&mut booked, Some(1000), Some(700), true, 500),
        DeadlineBooking::Covered
    );
    assert_eq!(
        gx_store_book_sidebar_deadline(&mut booked, Some(520), Some(700), false, 500),
        DeadlineBooking::Book { deadline: 520, wait: 50 }
    );
    assert_eq!(
        gx_store_book_sidebar_deadline(&mut booked, None, Some(700), false, 500),
        DeadlineBooking::Clear
    );
    assert_eq!(booked, None);
}

#[test]
fn the_default_launcher_is_trimmed_and_bounded() {
    assert_eq!(read_primary_agent_launcher_id(Some("  codex \n")), Some("codex".to_string()));
    assert_eq!(read_primary_agent_launcher_id(Some("   ")), None);
    assert_eq!(read_primary_agent_launcher_id(None), None);
    assert_eq!(read_primary_agent_launcher_id(Some(&"x".repeat(128))), Some("x".repeat(128)));
    assert_eq!(read_primary_agent_launcher_id(Some(&"é".repeat(65))), None);
    assert_eq!(
        gx_store_note_primary_launcher_host_message(Some("runSidebarAgent"), Some(" a ")),
        Some((" a ".to_string(), Some("a".to_string())))
    );
    assert_eq!(
        gx_store_note_primary_launcher_host_message(Some("runSidebarAgent"), Some("  ")),
        Some(("  ".to_string(), None))
    );
    assert_eq!(gx_store_note_primary_launcher_host_message(Some("other"), Some("a")), None);
    assert_eq!(gx_store_note_primary_launcher_host_message(Some("runSidebarAgent"), None), None);
}

#[test]
fn the_cache_keeps_its_newest_records() {
    assert_eq!(MAX_SNAPSHOT_ENTRIES, 24);
    let records = vec![
        (5, "a".to_string()),
        (9, "b".to_string()),
        (5, "c".to_string()),
        (1, "d".to_string()),
    ];
    assert_eq!(prune_victims(&records, 2), vec!["c".to_string(), "d".to_string()]);
    assert_eq!(prune_victims(&records, 4), Vec::<String>::new());
    assert_eq!(prune_victims(&records, 0).len(), 4);
}

#[test]
fn a_cache_write_never_rolls_back() {
    assert_eq!(snapshot_write(false, true, true), SnapshotWrite::Delete);
    assert_eq!(snapshot_write(true, true, true), SnapshotWrite::KeepNewer);
    assert_eq!(snapshot_write(true, false, false), SnapshotWrite::PruneThenWrite);
    assert_eq!(snapshot_write(true, true, false), SnapshotWrite::Write);
}

#[test]
fn logging_gates_need_debug_controls_and_the_scenario() {
    for f in [enabled, routine_logging_enabled, runtime_trace_enabled] {
        assert!(f(true, true));
        assert!(!f(true, false));
        assert!(!f(false, true));
        assert!(!f(false, false));
    }
}
