use ghostex_desktop::burst::{
    SelectionBurst, TellFlush, BURST_GAP_MS, SETTLE_DELAY_MS, TELL_DELAY_MS,
};
use ghostex_desktop::local_focus::{FocusEchoes, SessionRef};

fn session(project: &str, id: &str) -> SessionRef {
    SessionRef { project_id: project.to_string(), session_id: id.to_string() }
}

fn burst() -> SelectionBurst {
    SelectionBurst {
        last_selection_ms: None,
        settle_due_ms: None,
        tell_due_ms: None,
        task_running: false,
        steps: 0,
        chat_reconcile_wanted: false,
        pending_tell: None,
        pending_attention: Vec::new(),
        pending_remembered: Vec::new(),
        last_tell: None,
        settles: 0,
        tells: 0,
        attention_acknowledges: 0,
    }
}

fn echoes() -> FocusEchoes {
    FocusEchoes {
        confirmed_stamp: 0,
        stale_project_switch: None,
        expected_echoes: Vec::new(),
        stale_payloads: 0,
        stale_focus_requests_dropped: 0,
    }
}

#[test]
fn a_single_selection_books_the_tell_but_no_settle() {
    let mut b = burst();
    assert!(b.gx_store_note_local_selection(true, 1000));
    assert_eq!(b.tell_due_ms, Some(1000 + TELL_DELAY_MS));
    assert_eq!(b.settle_due_ms, None);
    assert!(!b.is_settling());
    assert_eq!(b.steps, 1);
    assert!(!b.gx_store_note_local_selection(true, 1000 + BURST_GAP_MS));
    assert_eq!(b.settle_due_ms, None);
}

#[test]
fn quick_selections_hold_heavy_work_back() {
    let mut b = burst();
    b.gx_store_note_local_selection(true, 1000);
    b.gx_store_note_local_selection(true, 1100);
    assert_eq!(b.settle_due_ms, Some(1100 + SETTLE_DELAY_MS));
    assert_eq!(b.steps, 2);
    assert!(b.is_settling());
    b.gx_store_note_local_selection(false, 1150);
    assert_eq!(b.settle_due_ms, Some(1180));
    assert_eq!(b.tell_due_ms, Some(1270));
    assert_eq!(b.due_burst_work(1180), (true, false));
    assert_eq!(b.due_burst_work(1270), (true, true));
    b.defer_chat_reconcile();
    assert_eq!(b.gx_store_selection_settled(), (2, true));
    assert_eq!(b.steps, 0);
    assert!(!b.is_settling());
    assert_eq!(b.settles, 1);
}

#[test]
fn the_task_sleeps_until_the_nearer_deadline_and_ends_when_none() {
    let mut b = burst();
    b.settle_due_ms = Some(500);
    b.tell_due_ms = Some(450);
    b.task_running = true;
    assert_eq!(b.gx_store_run_due_burst_work(400), Some(50));
    assert_eq!(b.gx_store_run_due_burst_work(449), Some(1));
    assert_eq!(b.gx_store_run_due_burst_work(900), Some(1));
    b.settle_due_ms = None;
    b.tell_due_ms = None;
    assert_eq!(b.gx_store_run_due_burst_work(900), None);
    assert!(!b.task_running);
}

#[test]
fn attention_is_acknowledged_once_per_session() {
    let mut b = burst();
    assert!(b.gx_store_queue_attention_acknowledge(session("p", "a"), 10));
    assert!(!b.gx_store_queue_attention_acknowledge(session("p", "a"), 50));
    assert_eq!(b.pending_attention.len(), 1);
    assert_eq!(b.tell_due_ms, Some(130));
}

#[test]
fn pending_flags_accumulate_for_the_same_session() {
    let mut b = burst();
    b.note_pending_tell(&session("p", "a"), true, false);
    b.note_pending_tell(&session("p", "a"), false, true);
    let pending = b.pending_tell.clone().unwrap();
    assert!(pending.local_was_sleeping && pending.local_runtime_missing);
    b.note_pending_tell(&session("p", "b"), false, false);
    let pending = b.pending_tell.clone().unwrap();
    assert!(!pending.local_was_sleeping && !pending.local_runtime_missing);
}

#[test]
fn the_newest_remembered_session_per_project_is_kept() {
    let mut b = burst();
    b.remember(session("p", "a"));
    b.remember(session("q", "x"));
    b.remember(session("p", "b"));
    assert_eq!(b.pending_remembered, vec![session("q", "x"), session("p", "b")]);
}

#[test]
fn nothing_pending_is_nothing_to_say() {
    let mut b = burst();
    let mut e = echoes();
    assert!(matches!(
        b.gx_store_flush_old_runtime_tell(&mut e, true, &vec![], vec![], &vec![], 7),
        TellFlush::Nothing
    ));
}

#[test]
fn without_a_sidebar_the_remembered_sessions_are_dropped() {
    let mut b = burst();
    let mut e = echoes();
    b.note_pending_tell(&session("p", "a"), false, false);
    b.remember(session("q", "x"));
    assert!(matches!(
        b.gx_store_flush_old_runtime_tell(&mut e, false, &vec![], vec![], &vec![true], 7),
        TellFlush::NoSidebar
    ));
    assert!(b.pending_remembered.is_empty());
    assert!(b.pending_tell.is_none());
    assert_eq!(b.tells, 0);
}

#[test]
fn a_tell_carries_the_selection_its_visible_tabs_and_remembered_sessions() {
    let mut b = burst();
    let mut e = echoes();
    b.note_pending_tell(&session("p", "a"), true, false);
    b.gx_store_queue_attention_acknowledge(session("p", "a"), 0);
    b.gx_store_queue_attention_acknowledge(session("p", "z"), 0);
    b.remember(session("q", "x"));
    b.remember(session("p", "old"));
    b.remember(session("r", "y"));
    let flush = b.gx_store_flush_old_runtime_tell(
        &mut e,
        true,
        &vec![true, false],
        vec!["v".to_string()],
        &vec![true, true, false],
        42,
    );
    match flush {
        TellFlush::Send { acknowledged, tell } => {
            assert_eq!(acknowledged, vec![session("p", "a")]);
            let tell = tell.expect("a selection was pending");
            assert_eq!(tell.stamp, 42);
            assert_eq!(tell.key, session("p", "a"));
            assert_eq!(tell.visible_session_ids, vec!["v".to_string(), "a".to_string()]);
            assert!(tell.local_was_sleeping);
            assert_eq!(tell.remembered, vec![session("q", "x")]);
        }
        _ => panic!("a tell must be sent"),
    }
    assert_eq!(b.tells, 1);
    assert_eq!(b.attention_acknowledges, 1);
    assert_eq!(b.tell_due_ms, None);
    assert_eq!(e.expected_echoes.len(), 1);
    assert_eq!(e.expected_echoes[0].stamp, 42);
}

#[test]
fn a_tell_carries_at_most_sixteen_remembered_sessions() {
    let mut b = burst();
    let mut e = echoes();
    b.note_pending_tell(&session("p", "a"), false, false);
    for i in 0..20 {
        b.remember(session(&format!("q{i:02}"), "s"));
    }
    let allowed = vec![true; 20];
    match b.gx_store_flush_old_runtime_tell(&mut e, true, &vec![], vec!["a".to_string()], &allowed, 1) {
        TellFlush::Send { tell: Some(tell), .. } => {
            assert_eq!(tell.remembered.len(), 16);
            assert_eq!(tell.remembered[0], session("q00", "s"));
            assert_eq!(tell.visible_session_ids, vec!["a".to_string()]);
        }
        _ => panic!(),
    }
    assert!(e.expected_echoes.is_empty());
}
