use ghostex_desktop::chat_book::{take_due, ChatBook, HOST_PANIC_MESSAGE};
use ghostex_desktop::keyed::KeyedMap;
use ghostex_desktop::chat_host::{batch_outcome, wake_plan, HoldOutcome, WakePlan};

#[test]
fn a_timer_never_wakes_sooner_than_a_millisecond() {
    assert_eq!(wake_plan(Some(0)), WakePlan::After(1));
    assert_eq!(wake_plan(Some(1)), WakePlan::After(1));
    assert_eq!(wake_plan(Some(250)), WakePlan::After(250));
    assert_eq!(wake_plan(None), WakePlan::Cancel);
}

#[test]
fn a_batch_answers_with_its_first_refusal() {
    assert_eq!(batch_outcome(&vec![]), (0, None));
    assert_eq!(batch_outcome(&vec![None, None]), (0, None));
    assert_eq!(
        batch_outcome(&vec![None, Some("quota"), None, Some("closed")]),
        (2, Some("quota"))
    );
}

fn keys<V>(map: &KeyedMap<V>) -> Vec<&str> {
    map.entries.iter().map(|(k, _)| k.as_str()).collect()
}

#[test]
fn a_timer_pass_takes_only_the_due_wakes() {
    let mut wakes: KeyedMap<u64> = KeyedMap::new();
    wakes.put("c", 300);
    wakes.put("a", 100);
    wakes.put("b", 200);
    let due = take_due(&mut wakes, 200);
    assert_eq!(due, vec!["a".to_string(), "b".to_string()]);
    assert_eq!(wakes.entries, vec![("c".to_string(), 300)]);
    assert!(take_due(&mut wakes, 299).is_empty());
    assert_eq!(take_due(&mut wakes, 300), vec!["c".to_string()]);
    assert!(wakes.entries.is_empty());
}

#[test]
fn the_thread_waits_until_the_earliest_wake() {
    let mut book = ChatBook::new();
    assert_eq!(book.next_wait(1000), None);
    book.wakes.put("a", 1500);
    book.retry_wakes.put("b", 1200);
    assert_eq!(book.next_wait(1000), Some(200));
    assert_eq!(book.next_wait(1300), Some(0));
}

#[test]
fn a_disabled_chat_refuses_its_view_and_a_replaced_view_detaches_nothing() {
    let mut book = ChatBook::new();
    assert_eq!(book.attach("chat", 1, 50), None);
    assert_eq!(book.retry_wakes.entries, vec![("chat".to_string(), 50)]);
    assert_eq!(keys(&book.draft_workers), vec!["chat"]);
    assert_eq!(book.attach("chat", 2, 60), None);
    assert_eq!(book.sinks.entries, vec![("chat".to_string(), 2)]);
    assert!(!book.detach("chat", 1));
    assert_eq!(book.sinks.entries, vec![("chat".to_string(), 2)]);
    book.wakes.put("chat", 90);
    book.driving = Some("chat".to_string());
    assert_eq!(book.disable_chat(), Some(("chat".to_string(), Some(2))));
    assert_eq!(book.panics, 1);
    assert_eq!(book.chats_disabled, 1);
    assert!(book.wakes.entries.is_empty());
    assert!(book.retry_wakes.entries.is_empty());
    assert!(book.sinks.entries.is_empty());
    assert_eq!(book.attach("chat", 3, 70), Some(HOST_PANIC_MESSAGE));
    assert!(book.sinks.entries.is_empty());
    assert_eq!(book.disable_chat(), None);
    assert_eq!(book.panics, 2);
    assert_eq!(book.chats_disabled, 1);
}

#[test]
fn detach_releases_the_attached_view() {
    let mut book = ChatBook::new();
    assert_eq!(book.attach("chat", 7, 0), None);
    assert!(book.detach("chat", 7));
    assert!(book.sinks.entries.is_empty());
    assert!(!book.detach("chat", 7));
}

#[test]
fn a_timer_is_booked_or_cancelled() {
    let mut book = ChatBook::new();
    book.set_timer("chat", wake_plan(Some(0)), 100);
    assert_eq!(book.wakes.entries, vec![("chat".to_string(), 101)]);
    book.set_timer("chat", WakePlan::Cancel, 100);
    assert!(book.wakes.entries.is_empty());
}

fn request(method: &str) -> ghostex_desktop::effects::HostRequest {
    ghostex_desktop::effects::HostRequest {
        id: None,
        kind: ghostex_desktop::effects::RequestKind::Host,
        method: method.to_string(),
        params: KeyedMap::new(),
    }
}

#[test]
fn held_requests_wait_for_a_view_until_the_chat_owes_too_many() {
    let mut book = ChatBook::new();
    assert!(matches!(book.hold_requests("chat", vec![]), HoldOutcome::Held));
    assert!(book.held_requests.entries.is_empty());
    assert!(matches!(book.hold_requests("chat", vec![request("a"), request("b")]), HoldOutcome::Held));
    let held = book.take_held("chat");
    assert_eq!(held.iter().map(|r| r.method.as_str()).collect::<Vec<_>>(), vec!["a", "b"]);
    assert!(book.take_held("chat").is_empty());
    book.wakes.put("chat", 10);
    let many: Vec<_> = (0..129).map(|i| request(&i.to_string())).collect();
    match book.hold_requests("chat", many) {
        HoldOutcome::Released { forgotten } => assert_eq!(forgotten, 129),
        HoldOutcome::Held => panic!("the chat should be released"),
    }
    assert!(book.held_requests.entries.is_empty());
    assert!(book.wakes.entries.is_empty());
}
