use ghostex_desktop::chat_book::{ChatBook, HOST_PANIC_MESSAGE};
use ghostex_desktop::chat_host::WakePlan;
use ghostex_desktop::chat_identity::ChatIdentity;
use ghostex_desktop::docs_feedback::{docs_annotation_feedback_step, FeedbackStep};
use ghostex_desktop::retained::stored_snapshot;
use ghostex_desktop::revision_ranges::{marker_entry, ranges, Marker};
use ghostex_desktop::shadow::ShadowDiff;
use ghostex_desktop::sidebar::{FactsPost, RuntimeFacts};

#[test]
fn blank_feedback_is_answered_with_its_message() {
    assert_eq!(
        docs_annotation_feedback_step("   ", None, false),
        FeedbackStep::Nothing("There is nothing to send.")
    );
}

#[test]
fn a_marker_joins_the_group_of_its_draft() {
    let marker = Marker { session_key: "p:s".to_string(), draft_id: "d\"1".to_string(), revision: 4 };
    assert_eq!(
        marker_entry("p:s:d1:4".to_string(), &marker),
        ("p:s:d1:4".to_string(), "[\"p:s\",\"d\\\"1\"]".to_string(), 4)
    );
}

#[test]
fn control_characters_are_written_as_unicode_escapes() {
    let identity = ChatIdentity {
        machine_id: None,
        project_id: "a\u{1}b".to_string(),
        session_id: "t\tn\n".to_string(),
    };
    assert_eq!(identity.retention_key(), "[null,\"a\\u0001b\",\"t\\tn\\n\"]");
}

#[test]
fn negative_revisions_are_written_with_a_sign() {
    assert_eq!(ranges(vec![(-3, -2)], vec![(5, 5)]), "[[-3,-2],[5,5]]");
}

#[test]
fn an_empty_snapshot_record_reads_as_none() {
    assert_eq!(stored_snapshot(Some(String::new())), None);
    assert_eq!(stored_snapshot(None), None);
    assert_eq!(stored_snapshot(Some("{}".to_string())), Some("{}".to_string()));
}

#[test]
fn an_unparsable_facts_post_moves_only_its_counter() {
    let mut facts = RuntimeFacts::default();
    facts.receive_sidebar_runtime_facts(FactsPost::Hud);
    let before = facts.clone();
    facts.receive_sidebar_runtime_facts(FactsPost::Unparsable);
    let mut expected = before.clone();
    expected.counters.unparsable += 1;
    assert_eq!(facts, expected);
}

#[test]
fn a_disabled_chat_stays_shut_whatever_comes_next() {
    let mut book = ChatBook::new();
    assert_eq!(book.attach("chat", 1, 0), None);
    book.driving = Some("chat".to_string());
    assert_eq!(book.disable_chat(), Some(("chat".to_string(), Some(1))));
    assert_eq!(book.attach("chat", 2, 10), Some(HOST_PANIC_MESSAGE));
    assert!(!book.detach("chat", 2));
    book.set_timer("chat", WakePlan::After(5), 20);
    book.purge("chat");
    assert!(book.take_held("chat").is_empty());
    assert!(book.sinks.entries.is_empty());
    assert_eq!(book.disabled.entries.len(), 1);
    assert_eq!(book.attach("chat", 3, 30), Some(HOST_PANIC_MESSAGE));
}

#[test]
fn a_call_that_raises_nothing_is_counted_unrouted() {
    let mut book = ChatBook::new();
    book.note_call_events(2);
    assert_eq!(book.actions_unrouted, 0);
    book.note_call_events(0);
    assert_eq!(book.actions_unrouted, 1);
    book.note_storage_refusals(3);
    book.note_storage_refusals(0);
    assert_eq!(book.storage_refused, 3);
}

#[test]
fn a_diff_with_no_kept_tabs_lists_no_remote_tab() {
    assert!(!ShadowDiff::new().lists_remote_tab());
}
