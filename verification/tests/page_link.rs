use ghostex_desktop::client_document::{store_needs_held, AdoptOutcome, PageLink, SettleStep};
use ghostex_desktop::effects::Json;

#[test]
fn an_early_echo_waits_for_the_read_and_is_judged_once() {
    let mut link = PageLink::new();
    link.defer_echo(Some(Json::UInt(1)));
    link.defer_echo(None);
    assert_eq!(link.counters.echoes_deferred, 2);
    assert!(matches!(link.take_deferred_echo(), Some(None)));
    assert_eq!(link.counters.deferred_recovered, 1);
    assert!(link.take_deferred_echo().is_none());
    assert_eq!(link.counters.deferred_recovered, 1);
}

#[test]
fn only_an_unreadable_echo_is_worth_a_warning() {
    let mut link = PageLink::new();
    assert!(link.count_adopt(AdoptOutcome::Unparsable));
    assert!(!link.count_adopt(AdoptOutcome::Adopted));
    assert!(!link.count_adopt(AdoptOutcome::ScheduledPush));
    assert_eq!(
        (link.counters.echoes_unparsable, link.counters.echoes_adopted, link.counters.echoes_pushed_back),
        (1, 1, 1)
    );
}

#[test]
fn the_page_is_told_once_per_change_and_never_over_its_own_edit() {
    let mut link = PageLink::new();
    assert_eq!(link.settle_step(), SettleStep::HandBack);
    assert!(link.hand_back_due("doc-1"));
    link.note_hand_back("doc-1".to_string(), false);
    assert_eq!(link.counters.hand_backs_dropped, 1);
    assert!(link.hand_back_due("doc-1"));
    link.note_hand_back("doc-1".to_string(), true);
    assert!(!link.hand_back_due("doc-1"));
    assert!(link.hand_back_due("doc-2"));
    link.page_holds_newer = true;
    assert!(!link.hand_back_due("doc-2"));
    assert_eq!(link.settle_step(), SettleStep::AskPage);
    link.note_hand_off_requested(true);
    link.note_hand_off_requested(false);
    assert_eq!(link.counters.hand_offs_requested, 1);
}

#[test]
fn the_store_is_handed_the_held_document_only_when_the_echo_differs() {
    assert!(!store_needs_held(Some("{\"a\":1}"), "{\"a\":1}"));
    assert!(store_needs_held(Some("{\"a\":2}"), "{\"a\":1}"));
    assert!(store_needs_held(None, "{\"a\":1}"));
}
