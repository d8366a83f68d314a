use ghostex_desktop::sidebar_actions::{
    collection_edit_answered_here, never_answered, note_collection_edit, store_answers,
    CollectionMenuCounters, FollowUpPass, LifecycleAnswer, LifecycleCall, SidebarLifecycleCounters,
};

#[test]
fn the_store_answers_only_while_it_draws_its_list() {
    let mut declined = 0;
    assert!(!store_answers(false, true, &mut declined));
    assert_eq!(declined, 0);
    assert!(!store_answers(true, false, &mut declined));
    assert_eq!(declined, 1);
    assert!(store_answers(true, true, &mut declined));
    assert_eq!(declined, 1);
}

#[test]
fn a_close_that_timed_out_never_answered() {
    assert!(never_answered(true, 60000));
    assert!(!never_answered(true, 59999));
    assert!(!never_answered(false, 90000));
}

#[test]
fn lifecycle_calls_and_answers_are_counted() {
    let mut counters = SidebarLifecycleCounters::default();
    counters.note_call(LifecycleCall::Sleep);
    counters.note_call(LifecycleCall::Wake);
    counters.note_call(LifecycleCall::Wake);
    counters.note_answer(LifecycleAnswer::Accepted);
    counters.note_answer(LifecycleAnswer::Failed);
    counters.note_close();
    counters.note_close_answer(false);
    assert_eq!((counters.sleeps, counters.wakes), (1, 2));
    assert_eq!((counters.accepted, counters.declined, counters.failed), (1, 0, 1));
    assert_eq!((counters.closes, counters.closes_accepted, counters.closes_restored), (1, 0, 1));
}

#[test]
fn follow_ups_rebuild_once_and_focus_the_last_named_session() {
    let mut counters = SidebarLifecycleCounters::default();
    let mut pass: FollowUpPass<&str> = FollowUpPass::new();
    pass.note_patch(false, &mut counters);
    assert!(!pass.moved);
    assert_eq!(counters.already_agreed, 1);
    pass.note_focus("a", &mut counters);
    pass.note_visibility(true);
    pass.note_focus("b", &mut counters);
    assert!(pass.moved);
    assert_eq!(pass.focus_target, Some("b"));
    assert_eq!(counters.focus_follow_ups, 2);
}

#[test]
fn a_group_edit_is_answered_here_only_for_this_computer_once_read() {
    let mut counters = CollectionMenuCounters::default();
    assert!(!collection_edit_answered_here(&mut counters, false, true, true));
    assert!(!collection_edit_answered_here(&mut counters, true, false, true));
    assert!(!collection_edit_answered_here(&mut counters, true, true, false));
    assert!(collection_edit_answered_here(&mut counters, true, true, true));
    assert_eq!((counters.declined_source, counters.hand_offs), (1, 2));
    note_collection_edit(&mut counters, "rename", true);
    note_collection_edit(&mut counters, "ungroup", true);
    note_collection_edit(&mut counters, "color", true);
    note_collection_edit(&mut counters, "rename", false);
    assert_eq!(
        (counters.renames, counters.ungroups, counters.colors, counters.refusals),
        (1, 1, 1, 1)
    );
}
