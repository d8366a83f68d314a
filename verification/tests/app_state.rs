use ghostex_desktop::app_model::{
    FloatingRevealInputs, GhostexGpuiApp, GxStore, LocalFocusRouteCounters,
    RemoteProjectDocCounters, SidebarRemoteFocusCounters,
};
use ghostex_desktop::burst::SelectionBurst;
use ghostex_desktop::client_document::{ClientDocumentHost, RestoreStep, WriteResult};
use ghostex_desktop::docs_feedback::{DocsAnnotationFeedbackRpcTarget, WorkspaceSessionKey};
use ghostex_desktop::floating_panel::FloatingRevealContent;
use ghostex_desktop::gx_diagnostics::GxStoreDiagnostics;
use ghostex_desktop::local_focus::{FocusEchoes, FocusIds, RowFocus, SessionRef, TabListDispute};
use ghostex_desktop::remote_focus::SidebarRemoteFocusHost;
use ghostex_desktop::sidebar::RuntimeFacts;

fn app() -> GhostexGpuiApp {
    GhostexGpuiApp {
        gx_store: GxStore {
            rows: RowFocus {
                foreign_focus: false,
                focused_row_id: Some("combined-session:a".to_string()),
                visible_row_ids: vec!["combined-session:a".to_string()],
                cached_foreign_focus: false,
            },
            echoes: FocusEchoes {
                confirmed_stamp: 0,
                stale_project_switch: None,
                expected_echoes: Vec::new(),
                stale_payloads: 0,
                stale_focus_requests_dropped: 0,
            },
            burst: SelectionBurst {
                last_selection_ms: None,
                settle_due_ms: None,
                tell_due_ms: None,
                task_running: false,
                steps: 0,
                chat_reconcile_wanted: false,
                pending_tell: None,
                pending_attention: Vec::new(),
                pending_remembered: Vec::new(),
                last_tell: None,
                settles: 0,
                tells: 0,
                attention_acknowledges: 0,
            },
            tab_dispute: TabListDispute { disputed_empty_tab_list: None, disputed_empty_tab_lists: 0 },
            persisted_focus: None,
            pending_collection_rename: Some(("c1".to_string(), 7)),
            remote_project_doc_counters: RemoteProjectDocCounters::default(),
            runtime_facts: RuntimeFacts::default(),
            diagnostics: GxStoreDiagnostics::default(),
            local_focus_route: LocalFocusRouteCounters { focuses: 3, ..Default::default() },
            sidebar_remote_focus: SidebarRemoteFocusHost {
                counters: SidebarRemoteFocusCounters { opens: 2, ..Default::default() },
                expected_opens: Vec::new(),
                records: 0,
            },
        },
        floating_reveal: FloatingRevealInputs {
            sidebar_collapsed: false,
            view_panel_maximized: false,
            workspace_shows_cef_chat: false,
            panel: None,
        },
        export_transcript_modal_window: Some(9),
        pending_export_transcript_reveal_path: Some("/tmp/x.md".to_string()),
    }
}

#[test]
fn the_reveal_carries_what_is_folded_away() {
    let mut a = app();
    assert!(!a.floating_reveal_eligible());
    a.floating_reveal.sidebar_collapsed = true;
    assert_eq!(a.floating_reveal_content(), FloatingRevealContent { sidebar: true, agents_column: false });
    assert!(a.floating_reveal_eligible());
    a.floating_reveal.view_panel_maximized = true;
    assert_eq!(a.floating_reveal_content(), FloatingRevealContent { sidebar: true, agents_column: true });
    assert_eq!(a.floating_reveal_edge_want(true), FloatingRevealContent { sidebar: true, agents_column: false });
    assert_eq!(a.floating_reveal_edge_want(false), FloatingRevealContent { sidebar: false, agents_column: true });
    a.floating_reveal.workspace_shows_cef_chat = true;
    assert_eq!(a.floating_reveal_edge_want(false), FloatingRevealContent { sidebar: true, agents_column: false });
    assert!(!a.floating_reveal_hosts_agents_column());
    a.floating_reveal.panel = Some(FloatingRevealContent { sidebar: false, agents_column: true });
    assert!(a.floating_reveal_hosts_agents_column());
}

#[test]
fn releasing_the_modal_window_drops_its_reveal() {
    let mut a = app();
    a.release_gpui_export_transcript_modal_window();
    assert_eq!(a.export_transcript_modal_window, None);
    assert_eq!(a.pending_export_transcript_reveal_path, None);
}

#[test]
fn the_focus_file_is_written_only_when_its_focus_moved() {
    let mut a = app();
    let focus = FocusIds {
        active_project_id: Some("p".to_string()),
        focused_session_id: Some("s".to_string()),
        visible_session_ids: vec!["s".to_string()],
    };
    assert!(a.gx_store_persist_focus_state_file(&focus));
    assert!(!a.gx_store_persist_focus_state_file(&focus.clone()));
    let moved = FocusIds { visible_session_ids: vec!["s".to_string(), "t".to_string()], ..focus };
    assert!(a.gx_store_persist_focus_state_file(&moved));
}

#[test]
fn a_remote_selection_hides_the_local_focus() {
    let mut a = app();
    assert_eq!(a.gx_store_sidebar_row_focus("combined-session:a", false, false, false), (true, true));
    a.gx_store_note_remote_selection();
    assert_eq!(a.gx_store_sidebar_row_focus("combined-session:a", false, false, true), (false, true));
}

#[test]
fn store_entry_points_pass_through_to_their_rules() {
    let mut a = app();
    assert!(!a.gx_store_selection_is_settling());
    a.gx_store_defer_chat_reconcile();
    assert!(a.gx_store.burst.chat_reconcile_wanted);
    let key = SessionRef { project_id: "p".to_string(), session_id: "s".to_string() };
    a.gx_store_expect_click_echo(&key, 4);
    assert_eq!(a.gx_store.echoes.expected_echoes.len(), 1);
    assert!(!a.gx_store_allows_tab_reconcile(Some("p"), 0, false));
    assert_eq!(a.gx_store.tab_dispute.disputed_empty_tab_lists, 1);
    assert_eq!(a.gx_store_pending_collection_rename(), Some(("c1".to_string(), 7)));
    a.gx_store_note_remote_order_dropped();
    assert_eq!(a.gx_store_remote_project_doc_counters().orders_dropped, 1);
    a.gx_store_note_local_sidebar_reveal("s", 11);
    assert_eq!(a.gx_store.runtime_facts.newest_reveal, Some(("s".to_string(), 11)));
    assert_eq!(a.gx_store_local_focus_route_counters().focuses, 3);
    assert_eq!(a.gx_store_remote_focus_counters().opens, 2);
}

#[test]
fn a_session_is_in_front_in_a_pane_or_a_companion_slot() {
    assert!(GhostexGpuiApp::gx_store_session_is_in_front(Some(3), &vec![1, 3], &vec![]));
    assert!(GhostexGpuiApp::gx_store_session_is_in_front(Some(5), &vec![1], &vec![5]));
    assert!(!GhostexGpuiApp::gx_store_session_is_in_front(Some(4), &vec![1], &vec![5]));
    assert!(!GhostexGpuiApp::gx_store_session_is_in_front(None, &vec![1], &vec![5]));
}

#[test]
fn the_app_answers_the_docs_review_rpc_target() {
    let key = WorkspaceSessionKey::Local { project_id: "p".to_string(), session_id: "s".to_string() };
    assert_eq!(
        GhostexGpuiApp::docs_annotation_feedback_rpc_target(&key, None, false),
        Some(DocsAnnotationFeedbackRpcTarget::Local { project_id: "p".to_string(), session_id: "s".to_string() })
    );
    let remote = WorkspaceSessionKey::Remote {
        remote_machine_id: "m".to_string(),
        project_id: "p".to_string(),
        session_id: "s".to_string(),
    };
    assert_eq!(GhostexGpuiApp::docs_annotation_feedback_rpc_target(&remote, None, false), None);
    assert!(GhostexGpuiApp::docs_annotation_feedback_target(&vec![], None, None, None, None).is_none());
}

#[test]
fn a_document_with_no_key_is_ready_at_once() {
    let mut host = ClientDocumentHost::new(false);
    assert_eq!(host.gx_document_restored(), RestoreStep::Ready);
}

#[test]
fn a_document_is_read_once_then_waits() {
    let mut host = ClientDocumentHost::new(true);
    assert_eq!(host.gx_document_restored(), RestoreStep::Read);
    assert_eq!(host.gx_document_restored(), RestoreStep::Waiting);
    host.gx_document_adopt_stored();
    assert_eq!(host.gx_document_restored(), RestoreStep::Ready);
}

#[test]
fn failed_reads_retry_fast_six_times_then_slowly() {
    let mut host = ClientDocumentHost::new(true);
    let mut retries = Vec::new();
    for _ in 0..8 {
        assert_eq!(host.gx_document_restored(), RestoreStep::Read);
        retries.push(host.gx_document_schedule_read_retry().unwrap());
        assert_eq!(host.gx_document_restored(), RestoreStep::Waiting);
        assert_eq!(host.gx_document_schedule_read_retry(), None);
        host.read_retry_fired();
    }
    assert_eq!(
        retries,
        vec![
            (5000, false),
            (5000, false),
            (5000, false),
            (5000, false),
            (5000, false),
            (5000, false),
            (30000, true),
            (30000, false)
        ]
    );
    assert_eq!(host.counters.read_failures, 16);
}

#[test]
fn a_failed_write_of_the_newest_document_retries_three_times() {
    let mut host = ClientDocumentHost::new(true);
    let raw = Some("{\"a\":1}".to_string());
    host.gx_document_write_storage(raw.clone());
    assert!(host.gx_document_book_storage_retry(&raw));
    assert!(host.gx_document_note_write(&raw, WriteResult::Failed("io")));
    assert!(host.gx_document_note_write(&raw, WriteResult::Failed("io")));
    assert!(host.gx_document_note_write(&raw, WriteResult::Failed("io")));
    assert!(!host.gx_document_note_write(&raw, WriteResult::Failed("io")));
    assert_eq!(host.counters.storage_failures, 4);
    assert!(!host.gx_document_note_write(&raw, WriteResult::Done(None)));
    assert_eq!(host.owed_write, None);
    assert_eq!(host.counters.storage_writes, 1);
}

#[test]
fn an_older_attempt_neither_clears_nor_retries_a_newer_write() {
    let mut host = ClientDocumentHost::new(true);
    let older = Some("old".to_string());
    let newer = Some("new".to_string());
    host.gx_document_write_storage(older.clone());
    host.gx_document_write_storage(newer.clone());
    assert!(!host.gx_document_book_storage_retry(&older));
    assert!(!host.gx_document_note_write(&older, WriteResult::Failed("io")));
    assert!(!host.gx_document_note_write(&older, WriteResult::Done(None)));
    assert_eq!(host.owed_write, Some(newer.clone()));
    assert!(!host.gx_document_note_write(&None, WriteResult::Done(Some("entry"))));
    assert_eq!(host.counters.storage_refusals, 1);
    assert_eq!(host.gx_document_flush_write(false), None);
    assert_eq!(host.gx_document_flush_write(true), Some(newer));
    assert_eq!(host.owed_write, None);
    assert_eq!(host.gx_document_flush_write(true), None);
}

#[test]
fn only_the_newest_push_booking_fires() {
    let mut host = ClientDocumentHost::new(false);
    let first = host.gx_document_book_push();
    let second = host.gx_document_book_push();
    assert!(!host.push_booking_fires(first));
    assert!(host.push_booking_fires(second));
}
