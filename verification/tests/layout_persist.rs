use ghostex_desktop::layout_persist::LayoutPersist;

#[test]
fn a_burst_of_marks_is_written_once() {
    let mut persist = LayoutPersist::new();
    assert!(!persist.mark_dirty());
    assert_eq!(persist.start_task(), Some(true));
    assert!(persist.wake_sent);
    assert_eq!(persist.start_task(), None);
    assert!(!persist.mark_dirty());
    assert!(persist.task_turn());
    assert!(!persist.task_turn());
    assert!(persist.mark_dirty());
    assert!(!persist.mark_dirty());
    assert!(!persist.mark_dirty());
    assert!(persist.task_turn());
    assert_eq!(persist.counters(), (5, 2));
}

#[test]
fn a_task_started_clean_waits_for_a_mark() {
    let mut persist = LayoutPersist::new();
    assert_eq!(persist.start_task(), Some(false));
    assert!(!persist.wake_sent);
    assert!(persist.mark_dirty());
}
