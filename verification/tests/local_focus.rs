use ghostex_desktop::local_focus::{
    contains_row, copy_texts, gx_store_visible_local_session_keys, same_opt, same_rows, same_session,
    Admission, FocusEchoes, FocusIds,
    FocusRequest, RowFocus, SessionRef, TabListDispute,
};

fn session(project: &str, id: &str) -> SessionRef {
    SessionRef { project_id: project.to_string(), session_id: id.to_string() }
}

fn echoes() -> FocusEchoes {
    FocusEchoes {
        confirmed_stamp: 0,
        stale_project_switch: None,
        expected_echoes: Vec::new(),
        stale_payloads: 0,
        stale_focus_requests_dropped: 0,
    }
}

fn plain(project: &str, id: &str) -> FocusRequest {
    FocusRequest {
        project_id: project.to_string(),
        session_id: id.to_string(),
        startup_restore: false,
        force_remount: false,
        keep_view: false,
        placement_is_tab: true,
        has_placement_target: false,
        prefers_terminal: true,
    }
}

fn focus(project: Option<&str>, focused: Option<&str>, visible: &[&str]) -> FocusIds {
    FocusIds {
        active_project_id: project.map(str::to_string),
        focused_session_id: focused.map(str::to_string),
        visible_session_ids: visible.iter().map(|s| s.to_string()).collect(),
    }
}

#[test]
fn sessions_compare_by_both_ids() {
    assert!(same_session(&session("p", "s"), &session("p", "s")));
    assert!(!same_session(&session("p", "s"), &session("q", "s")));
    assert!(!same_session(&session("p", "s"), &session("p", "t")));
}

#[test]
fn row_lists_and_optional_texts_compare_exactly() {
    let a = vec!["x".to_string(), "y".to_string()];
    assert!(same_rows(&a, &copy_texts(&a)));
    assert!(!same_rows(&a, &vec!["y".to_string(), "x".to_string()]));
    assert!(contains_row(&a, "y"));
    assert!(!contains_row(&a, "z"));
    assert!(same_opt(&None, &None));
    assert!(!same_opt(&Some("a".to_string()), &None));
    assert!(same_opt(&Some("a".to_string()), &Some("a".to_string())));
}

fn rows(foreign: bool) -> RowFocus {
    RowFocus {
        foreign_focus: foreign,
        focused_row_id: Some("combined-session:a".to_string()),
        visible_row_ids: vec!["combined-session:a".to_string(), "combined-session:b".to_string()],
        cached_foreign_focus: foreign,
    }
}

#[test]
fn local_rows_read_the_store_and_other_rows_the_snapshot() {
    let store = rows(false);
    assert_eq!(store.row_focus("combined-session:a", false, false, false), (true, true));
    assert_eq!(store.row_focus("combined-session:b", false, true, false), (false, true));
    assert_eq!(store.row_focus("combined-session:c", false, true, true), (false, false));
    assert_eq!(store.row_focus("remote:x", false, true, true), (false, true));
    assert_eq!(store.row_focus("browser:x", true, true, false), (true, false));
    let foreign = rows(true);
    assert_eq!(foreign.row_focus("combined-session:a", false, true, true), (false, true));
    assert_eq!(foreign.row_focus("remote:x", false, true, false), (true, false));
}

#[test]
fn the_row_cache_reports_only_real_changes() {
    let mut r = rows(false);
    let focused = Some("combined-session:a".to_string());
    let visible = vec!["combined-session:a".to_string(), "combined-session:b".to_string()];
    assert!(!r.refresh_row_focus_cache(focused.clone(), visible.clone()));
    assert!(r.refresh_row_focus_cache(None, visible.clone()));
    r.foreign_focus = true;
    assert!(r.refresh_row_focus_cache(None, visible.clone()));
    assert!(!r.refresh_row_focus_cache(None, visible));
}

#[test]
fn an_empty_tab_list_needs_the_store_to_agree() {
    let mut dispute = TabListDispute { disputed_empty_tab_list: None, disputed_empty_tab_lists: 0 };
    assert!(dispute.allows_tab_reconcile(Some("p"), 2, false));
    assert!(dispute.allows_tab_reconcile(None, 0, false));
    assert!(!dispute.allows_tab_reconcile(Some("p"), 0, false));
    assert!(!dispute.allows_tab_reconcile(Some("p"), 0, false));
    assert_eq!(dispute.disputed_empty_tab_lists, 1);
    assert_eq!(dispute.disputed_empty_tab_list.as_deref(), Some("p"));
    assert!(!dispute.allows_tab_reconcile(Some("q"), 0, false));
    assert_eq!(dispute.disputed_empty_tab_lists, 2);
    assert!(dispute.allows_tab_reconcile(Some("q"), 0, true));
    assert_eq!(dispute.disputed_empty_tab_list, None);
}

#[test]
fn one_echo_per_session_and_eight_at_most() {
    let mut e = echoes();
    e.expect_focus_echo(session("p", "a"), 1);
    e.expect_focus_echo(session("p", "a"), 2);
    assert_eq!(e.expected_echoes.len(), 1);
    assert_eq!(e.expected_echoes[0].stamp, 2);
    for i in 0..10u64 {
        e.expect_focus_echo(session("p", &format!("s{i}")), 10 + i);
    }
    assert_eq!(e.expected_echoes.len(), 8);
    assert_eq!(e.expected_echoes[0].key, session("p", "s2"));
    assert_eq!(e.expected_echoes[7].key, session("p", "s9"));
    e.forget_echoes_older_than(15);
    assert_eq!(e.expected_echoes.len(), 5);
    assert_eq!(e.expected_echoes[0].stamp, 15);
}

#[test]
fn a_current_payload_is_taken_as_it_is() {
    let mut e = echoes();
    e.expect_focus_echo(session("p", "a"), 3);
    e.expect_focus_echo(session("p", "b"), 9);
    let mut next = focus(Some("p"), Some("a"), &["a"]);
    let current = focus(Some("q"), None, &[]);
    assert_eq!(e.gx_store_admit_old_runtime_focus_state(&mut next, &current, Some(5), 5), Admission::Current);
    assert_eq!(next, focus(Some("p"), Some("a"), &["a"]));
    assert_eq!(e.confirmed_stamp, 5);
    assert_eq!(e.expected_echoes.len(), 1);
}

#[test]
fn a_stale_payload_is_replaced_by_what_the_app_holds() {
    let mut e = echoes();
    let mut next = focus(Some("p"), Some("a"), &["a"]);
    let current = focus(Some("q"), Some("z"), &["z", "y"]);
    assert_eq!(
        e.gx_store_admit_old_runtime_focus_state(&mut next, &current, Some(3), 5),
        Admission::Stale { other_project: true }
    );
    assert_eq!(next, current);
    assert_eq!(e.stale_payloads, 1);
    assert_eq!(e.stale_project_switch.as_deref(), Some("p"));
    let mut same = focus(Some("q"), Some("a"), &[]);
    assert_eq!(
        e.gx_store_admit_old_runtime_focus_state(&mut same, &current, None, 5),
        Admission::Stale { other_project: false }
    );
    assert_eq!(e.stale_payloads, 2);
}

#[test]
fn the_request_riding_a_stale_project_switch_loses() {
    let mut e = echoes();
    e.stale_project_switch = Some("p".to_string());
    let mut request = plain("p", "a");
    request.keep_view = true;
    assert!(e.gx_store_focus_request_lost_to_local_selection(&request, Some("q"), None, 10));
    assert_eq!(e.stale_project_switch, None);
    assert_eq!(e.stale_focus_requests_dropped, 1);
    e.stale_project_switch = Some("p".to_string());
    assert!(!e.gx_store_focus_request_lost_to_local_selection(&request, Some("p"), None, 10));
}

#[test]
fn an_echo_loses_once_a_newer_selection_moved_on() {
    let mut e = echoes();
    e.expect_focus_echo(session("p", "a"), 4);
    assert!(e.gx_store_focus_request_lost_to_local_selection(&plain("p", "a"), None, Some(&session("p", "b")), 6));
    assert!(e.expected_echoes.is_empty());
    e.expect_focus_echo(session("p", "a"), 4);
    assert!(!e.gx_store_focus_request_lost_to_local_selection(&plain("p", "a"), None, Some(&session("p", "a")), 6));
    e.expect_focus_echo(session("p", "a"), 6);
    assert!(!e.gx_store_focus_request_lost_to_local_selection(&plain("p", "a"), None, None, 6));
    assert!(!e.gx_store_focus_request_lost_to_local_selection(&plain("p", "a"), None, None, 9));
}

#[test]
fn the_visible_set_is_the_panes_then_the_selection_each_once() {
    let s = |p: &str, id: &str| SessionRef { project_id: p.to_string(), session_id: id.to_string() };
    let mappings = vec![(s("p", "a"), 1u64), (s("p", "b"), 2), (s("p", "a2"), 1)];
    let keys = gx_store_visible_local_session_keys(&vec![2, 9, 1, 2], &mappings, &s("p", "a"));
    let read: Vec<(&str, &str)> =
        keys.iter().map(|k| (k.project_id.as_str(), k.session_id.as_str())).collect();
    assert_eq!(read, vec![("p", "b"), ("p", "a")]);
    let keys = gx_store_visible_local_session_keys(&vec![], &mappings, &s("q", "z"));
    assert_eq!(keys.len(), 1);
    assert_eq!(keys[0].session_id, "z");
}
