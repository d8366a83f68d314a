use ghostex_desktop::shadow::{
    compare, differing_fields, label, same_key, Comparison, ObservedFocus, OldFocus, OldTab,
    ShadowDiff, StoreTab, TabKey, MAX_CONFIRMED_SIGNATURES,
};

fn key(project: &str, session: &str) -> TabKey {
    TabKey { machine_id: None, project_id: project.to_string(), session_id: session.to_string() }
}

fn old_tab(session: &str) -> OldTab {
    OldTab {
        key: key("p", session),
        title: format!("title {session}"),
        activity: "idle".to_string(),
        is_sleeping: false,
        is_draft: false,
        is_generating_first_prompt_title: false,
        working_directory: Some("/w".to_string()),
        agent_icon: Some("codex".to_string()),
        agent_name: None,
        agent_session_id: None,
        has_session_note: false,
        stashed_prompt_count: 0,
        has_switchable_agents: false,
    }
}

fn store_tab(session: &str) -> StoreTab {
    StoreTab {
        key: key("p", session),
        title: format!("title {session}"),
        activity: "idle".to_string(),
        is_sleeping: false,
        is_draft: false,
        is_generating_first_prompt_title: false,
        working_directory: Some("/w".to_string()),
        resolved_agent_icon: Some("codex".to_string()),
        agent_name: None,
        agent_session_id: None,
        has_session_note: false,
        stashed_prompt_count: None,
        has_switchable_agents: false,
    }
}

fn focus() -> OldFocus {
    OldFocus {
        active_project_id: Some("p".to_string()),
        focused_session_id: None,
        visible_session_ids: vec![],
        observed_stamp: 1,
    }
}

#[test]
fn keys_compare_machine_project_and_session() {
    assert!(same_key(&key("p", "s"), &key("p", "s")));
    let mut remote = key("p", "s");
    remote.machine_id = Some("m".to_string());
    assert!(!same_key(&key("p", "s"), &remote));
    assert_eq!(label(&remote), "p:s");
}

#[test]
fn differing_fields_are_named_in_a_fixed_order() {
    let old = old_tab("a");
    let mut store = store_tab("a");
    assert!(differing_fields(&old, &store).is_empty());
    store.title = "other".to_string();
    store.has_switchable_agents = true;
    store.stashed_prompt_count = Some(2);
    store.working_directory = None;
    assert_eq!(
        differing_fields(&old, &store),
        vec!["title", "workingDirectory", "stashedPromptCount", "switchableAgents"]
    );
}

#[test]
fn nothing_is_comparable_without_both_lists_on_one_project() {
    let old = vec![old_tab("a")];
    let store = vec![store_tab("a")];
    assert!(matches!(compare(None, true, Some(&store), "g"), Comparison::NotComparable));
    assert!(matches!(compare(Some(&old), false, Some(&store), "g"), Comparison::NotComparable));
    assert!(matches!(compare(Some(&old), true, None, "g"), Comparison::NotComparable));
}

#[test]
fn equal_lists_match_and_count_icon_differences() {
    let old = vec![old_tab("a"), old_tab("b")];
    let mut store = vec![store_tab("a"), store_tab("b")];
    store[1].resolved_agent_icon = Some("other".to_string());
    match compare(Some(&old), true, Some(&store), "g") {
        Comparison::Match { icon_differences } => assert_eq!(icon_differences, 1),
        _ => panic!("the lists agree"),
    }
}

#[test]
fn tabs_on_one_side_only_and_differing_fields_are_a_mismatch() {
    let old = vec![old_tab("a"), old_tab("b")];
    let mut store = vec![store_tab("c"), store_tab("a")];
    store[1].is_draft = true;
    match compare(Some(&old), true, Some(&store), "group:p") {
        Comparison::Mismatch(m) => {
            assert_eq!(m.store_group, "group:p");
            assert_eq!((m.old_tab_count, m.store_tab_count), (2, 2));
            assert_eq!(m.only_old, vec!["p:b".to_string()]);
            assert_eq!(m.only_store, vec!["p:c".to_string()]);
            assert!(!m.order_differs);
            assert_eq!(m.fields, vec![("p:a".to_string(), vec!["isDraft"])]);
        }
        _ => panic!("the lists differ"),
    }
}

#[test]
fn the_same_tabs_in_another_order_are_a_mismatch() {
    let old = vec![old_tab("a"), old_tab("b")];
    let store = vec![store_tab("b"), store_tab("a")];
    match compare(Some(&old), true, Some(&store), "g") {
        Comparison::Mismatch(m) => {
            assert!(m.order_differs);
            assert!(m.only_old.is_empty() && m.only_store.is_empty() && m.fields.is_empty());
        }
        _ => panic!("the order differs"),
    }
}

#[test]
fn each_list_of_names_stops_at_twenty_four() {
    let old: Vec<OldTab> = (0..30).map(|i| old_tab(&format!("o{i:02}"))).collect();
    let store: Vec<StoreTab> = (0..30).map(|i| store_tab(&format!("s{i:02}"))).collect();
    match compare(Some(&old), true, Some(&store), "g") {
        Comparison::Mismatch(m) => {
            assert_eq!(m.only_old.len(), 24);
            assert_eq!(m.only_store.len(), 24);
            assert_eq!(m.only_old[23], "p:o23");
            assert_eq!((m.old_tab_count, m.store_tab_count), (30, 30));
        }
        _ => panic!(),
    }
}

fn mismatch_of(store: &[StoreTab]) -> Comparison {
    compare(Some(&vec![old_tab("a")]), true, Some(&store.to_vec()), "g")
}

#[test]
fn a_remote_focus_is_answered_at_once_and_drops_the_waiting_difference() {
    let mut diff = ShadowDiff::new();
    assert_eq!(diff.begin_observe(false, false, focus(), Some(vec![old_tab("a")])), None);
    diff.finish_observe(mismatch_of(&[store_tab("b")]), 100);
    assert!(diff.is_pending());
    assert_eq!(diff.begin_observe(true, true, focus(), None), Some(ObservedFocus::Stale));
    assert!(!diff.is_pending());
    assert_eq!(diff.begin_observe(true, false, focus(), None), Some(ObservedFocus::Foreign));
    assert_eq!(diff.counters().remote_skipped, 2);
    assert_eq!(diff.counters().observed, 3);
}

#[test]
fn mirroring_is_stale_local_or_foreign() {
    let mut diff = ShadowDiff::new();
    assert_eq!(diff.note_mirror(false, false), ObservedFocus::Stale);
    diff.begin_observe(false, false, focus(), None);
    assert_eq!(diff.note_mirror(true, false), ObservedFocus::Stale);
    assert_eq!(diff.counters().stale_external_focus, 1);
    assert_eq!(diff.note_mirror(false, true), ObservedFocus::Foreign);
    assert_eq!(diff.note_mirror(false, false), ObservedFocus::Local);
}

#[test]
fn a_repeated_difference_keeps_its_clock_and_is_confirmed_once_it_lasted() {
    let mut diff = ShadowDiff::new();
    diff.begin_observe(false, false, focus(), Some(vec![old_tab("a")]));
    diff.finish_observe(mismatch_of(&[store_tab("b")]), 100);
    assert_eq!(diff.pending_since(), Some(100));
    diff.finish_observe(mismatch_of(&[store_tab("b")]), 400);
    assert_eq!(diff.pending_since(), Some(100));
    diff.finish_observe(mismatch_of(&[store_tab("c")]), 500);
    assert_eq!(diff.pending_since(), Some(500));
    assert!(diff.settle(ObservedFocus::Local, mismatch_of(&[store_tab("c")]), 1000, 1400).is_none());
    assert!(diff.is_pending());
    assert_eq!(diff.take_remirrored(), Some(ObservedFocus::Local));
    assert_eq!(diff.take_remirrored(), None);
    let confirmed = diff.settle(ObservedFocus::Local, mismatch_of(&[store_tab("c")]), 1000, 1500);
    assert_eq!(confirmed.unwrap().only_store, vec!["p:c".to_string()]);
    assert!(!diff.is_pending());
    assert_eq!(diff.counters().mismatches, 1);
    assert_eq!(diff.counters().distinct_mismatches, 1);
}

#[test]
fn a_difference_gone_when_judged_again_was_transient() {
    let mut diff = ShadowDiff::new();
    diff.begin_observe(false, false, focus(), Some(vec![old_tab("a")]));
    diff.finish_observe(mismatch_of(&[store_tab("b")]), 100);
    assert!(diff.settle(ObservedFocus::Local, mismatch_of(&[store_tab("a")]), 1000, 5000).is_none());
    assert_eq!(diff.counters().transient, 1);
    assert!(!diff.is_pending());
    assert!(diff.settle(ObservedFocus::Local, Comparison::NotComparable, 1000, 6000).is_none());
    assert_eq!(diff.counters().transient, 1);
}

#[test]
fn a_list_with_a_remote_tab_is_skipped() {
    let mut diff = ShadowDiff::new();
    let mut remote = old_tab("a");
    remote.key.machine_id = Some("m".to_string());
    diff.begin_observe(false, false, focus(), Some(vec![remote]));
    diff.finish_observe(mismatch_of(&[store_tab("b")]), 100);
    assert!(!diff.is_pending());
    assert_eq!(diff.counters().remote_skipped, 1);
}

#[test]
fn matches_and_not_comparable_clear_the_waiting_difference() {
    let mut diff = ShadowDiff::new();
    diff.begin_observe(false, false, focus(), Some(vec![old_tab("a")]));
    diff.finish_observe(Comparison::Match { icon_differences: 2 }, 1);
    assert_eq!(diff.counters().matches, 1);
    assert_eq!(diff.counters().icon_differences, 2);
    diff.finish_observe(Comparison::NotComparable, 2);
    assert_eq!(diff.counters().not_comparable, 1);
}

#[test]
fn confirmed_shapes_are_counted_once_and_bounded() {
    let mut diff = ShadowDiff::new();
    diff.confirm_signature(7);
    diff.confirm_signature(7);
    assert_eq!(diff.counters().distinct_mismatches, 1);
    for s in 0..(MAX_CONFIRMED_SIGNATURES as u64 + 10) {
        diff.confirm_signature(1000 + s);
    }
    assert_eq!(diff.confirmed_signatures.len(), MAX_CONFIRMED_SIGNATURES);
    assert_eq!(diff.counters().distinct_mismatches, MAX_CONFIRMED_SIGNATURES as u64);
}
