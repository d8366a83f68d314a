use ghostex_desktop::effects::Json;
use ghostex_desktop::remote_clients::enabled_remote_machines;
use ghostex_desktop::store_host::{
    started_waiting, ConnectionNote, StoreClientBook, StoreCounters, Transport, TransportStep,
};

fn text(s: &str) -> Json {
    Json::Text(s.to_string())
}

fn object(members: Vec<(&str, Json)>) -> Json {
    Json::Object(members.into_iter().map(|(k, v)| (k.to_string(), v)).collect())
}

fn transport(url: &str, token: &str) -> Option<Transport> {
    Some(Transport { base_url: url.to_string(), auth_token: token.to_string() })
}

fn book() -> StoreClientBook {
    StoreClientBook {
        transport: None,
        running: false,
        counters: StoreCounters::default(),
        connecting_since: None,
    }
}

#[test]
fn only_a_moved_transport_restarts_the_client() {
    let mut book = book();
    assert_eq!(book.sync_transport(None), TransportStep::Keep);
    assert_eq!(book.sync_transport(transport("http://a", "t")), TransportStep::Start);
    book.client_started(true);
    assert!(book.running);
    assert_eq!(book.counters.client_starts, 1);
    assert_eq!(book.sync_transport(transport("http://a", "t")), TransportStep::Keep);
    assert!(book.running);
    assert_eq!(book.sync_transport(transport("http://a", "u")), TransportStep::Start);
    assert!(!book.running);
    book.client_started(false);
    assert!(book.transport.is_none());
    assert_eq!(book.sync_transport(transport("http://a", "u")), TransportStep::Start);
    book.client_started(true);
    assert_eq!(book.sync_transport(None), TransportStep::Stop);
    assert!(!book.running);
}

#[test]
fn a_burst_counts_and_a_live_connection_ends_the_clock() {
    let mut book = book();
    book.note_connection(ConnectionNote::Connecting, 100);
    book.note_connection(ConnectionNote::Connecting, 150);
    assert_eq!(book.connecting_since, Some(100));
    book.note_connection(ConnectionNote::Lost, 160);
    assert_eq!(book.counters.connections_lost, 1);
    assert_eq!(book.note_burst(3, false, false, 200), None);
    assert_eq!(book.note_burst(1, true, true, 400), Some(300));
    assert_eq!(book.connecting_since, None);
    assert_eq!(book.counters.pumps, 2);
    assert_eq!(book.counters.events, 4);
    assert_eq!(book.counters.largest_burst, 3);
    assert_eq!(book.counters.reloads, 1);
    assert_eq!(book.note_burst(0, true, false, 500), None);
}

#[test]
fn a_new_difference_starts_its_own_wait() {
    assert!(started_waiting(None, Some(5)));
    assert!(started_waiting(Some(4), Some(5)));
    assert!(!started_waiting(Some(5), Some(5)));
    assert!(!started_waiting(Some(5), None));
}

#[test]
fn enabled_machines_keep_settings_order_and_their_names() {
    let machines = Json::Array(vec![
        object(vec![("id", text(" m1 ")), ("name", text("  Studio "))]),
        object(vec![("id", text("m2")), ("disabled", Json::Bool(true))]),
        object(vec![("id", text("m3")), ("name", text("   "))]),
        object(vec![("id", text("  "))]),
        object(vec![("name", text("nameless"))]),
        object(vec![("id", text("m4")), ("disabled", Json::Bool(false))]),
    ]);
    assert_eq!(
        enabled_remote_machines(Some(&machines)),
        vec![
            ("m1".to_string(), "Studio".to_string()),
            ("m3".to_string(), "m3".to_string()),
            ("m4".to_string(), "m4".to_string()),
        ]
    );
    assert!(enabled_remote_machines(None).is_empty());
    assert!(enabled_remote_machines(Some(&object(vec![]))).is_empty());
}
