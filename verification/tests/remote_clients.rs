use ghostex_desktop::keyed::KeyedMap;
use ghostex_desktop::remote_clients::{backoff_delay, connected_machines, MachineTab, RemoteClients};

fn connected(entries: &[(&str, u16, &str)]) -> KeyedMap<(u16, String)> {
    let mut map = KeyedMap::new();
    for (id, port, token) in entries {
        map.insert_new(id.to_string(), (*port, token.to_string()));
    }
    map
}

fn client<'a>(c: &'a RemoteClients, id: &str) -> Option<&'a ghostex_desktop::remote_clients::RemoteClient> {
    c.clients.index_of(id).map(|i| &c.clients.entries[i].1)
}

#[test]
fn the_restart_ladder_is_one_five_fifteen_thirty_sixty() {
    let delays: Vec<u64> = (0..7).map(backoff_delay).collect();
    assert_eq!(delays, vec![1000, 5000, 15000, 30000, 60000, 60000, 60000]);
}

#[test]
fn a_machine_with_no_client_waits_the_first_rung() {
    let mut c = RemoteClients::new();
    assert_eq!(c.next_restart_delay("m", 0), 1000);
    assert!(client(&c, "m").is_none());
}

#[test]
fn a_client_that_keeps_dying_climbs_the_ladder() {
    let mut c = RemoteClients::new();
    let mut now = 0;
    let mut delays = Vec::new();
    for _ in 0..6 {
        let generation = c.begin_client_start("m", 4000, "tok");
        c.note_client_started("m", now);
        now += 10;
        delays.push(c.gx_store_remote_thread_ended("m", generation, now).unwrap());
        now += 1;
    }
    assert_eq!(delays, vec![1000, 5000, 15000, 30000, 60000, 60000]);
    assert_eq!(c.counters.thread_exits, 6);
    assert_eq!(c.counters.starts, 6);
}

#[test]
fn a_client_that_lived_a_minute_starts_the_ladder_over() {
    let mut c = RemoteClients::new();
    let g = c.begin_client_start("m", 4000, "tok");
    c.note_client_started("m", 0);
    assert_eq!(c.gx_store_remote_thread_ended("m", g, 10), Some(1000));
    let g = c.begin_client_start("m", 4000, "tok");
    c.note_client_started("m", 20);
    assert_eq!(c.gx_store_remote_thread_ended("m", g, 30), Some(5000));
    let g = c.begin_client_start("m", 4000, "tok");
    c.note_client_started("m", 100);
    assert_eq!(c.gx_store_remote_thread_ended("m", g, 100 + 60_000), Some(1000));
}

#[test]
fn an_old_generation_ending_changes_nothing() {
    let mut c = RemoteClients::new();
    let first = c.begin_client_start("m", 1, "t");
    let second = c.begin_client_start("m", 1, "t");
    assert_eq!((first, second), (1, 2));
    c.note_client_started("m", 0);
    assert_eq!(c.gx_store_remote_thread_ended("m", first, 5), None);
    assert!(c.restart_is_stale("m", first));
    assert!(c.restart_is_stale("m", second));
    assert!(c.restart_is_stale("other", 1));
    assert_eq!(c.gx_store_remote_thread_ended("m", second, 5), Some(1000));
    assert!(!c.restart_is_stale("m", second));
}

#[test]
fn clients_of_machines_no_longer_connected_are_stopped() {
    let mut c = RemoteClients::new();
    for id in ["a", "b", "c"] {
        c.begin_client_start(id, 1, "t");
        c.note_client_started(id, 0);
    }
    let stopped = c.stop_unconnected_clients(&connected(&[("a", 1, "t"), ("b", 2, "t")]));
    assert_eq!(stopped, vec!["b".to_string(), "c".to_string()]);
    assert!(client(&c, "a").unwrap().running);
    let b = client(&c, "b").unwrap();
    assert!(!b.running);
    assert_eq!(b.restart_attempt, 0);
    assert!(client(&c, "c").is_none());
    assert_eq!(c.counters.stops, 2);
}

#[test]
fn disabled_machines_are_forgotten() {
    let mut c = RemoteClients::new();
    c.begin_client_start("x", 1, "t");
    let enabled = vec![("a".to_string(), "A".to_string())];
    let forgotten = c.forget_disabled_machines(&enabled, &vec!["a".to_string(), "x".to_string()]);
    assert_eq!(forgotten, vec!["x".to_string()]);
    assert!(client(&c, "x").is_none());
    assert_eq!(c.counters.unloads, 1);
}

#[test]
fn starts_are_due_unless_running_or_backing_off() {
    let mut c = RemoteClients::new();
    c.begin_client_start("a", 1, "t");
    c.note_client_started("a", 0);
    let gb = c.begin_client_start("b", 1, "t");
    c.note_client_started("b", 0);
    assert_eq!(c.gx_store_remote_thread_ended("b", gb, 10), Some(1000));
    let targets = connected(&[("a", 1, "t"), ("b", 1, "t"), ("c", 1, "t")]);
    assert_eq!(c.starts_due(&targets, 500), vec!["c".to_string()]);
    assert_eq!(c.starts_due(&targets, 1010), vec!["b".to_string(), "c".to_string()]);
}

#[test]
fn machine_tabs_start_with_this_computer() {
    let mut c = RemoteClients::new();
    c.begin_client_start("m1", 1, "t");
    let enabled = vec![("m1".to_string(), "One".to_string()), ("m2".to_string(), "Two".to_string())];
    let tabs = c.remote_machine_tabs("local", "connected", &enabled, &vec![Some("connected".to_string()), None], &vec![false, true]);
    assert_eq!(
        tabs,
        vec![
            MachineTab { machine_id: "local".into(), label: "Local".into(), state: "connected".into(), fed: true },
            MachineTab { machine_id: "m1".into(), label: "One".into(), state: "connected".into(), fed: true },
            MachineTab { machine_id: "m2".into(), label: "Two".into(), state: "disconnected".into(), fed: true },
        ]
    );
    let tabs = c.remote_machine_tabs("local", "connected", &enabled[1..].to_vec(), &vec![None], &vec![false]);
    assert!(!tabs[1].fed);
}

#[test]
fn a_sync_is_skipped_while_the_tabs_are_fresh() {
    let mut c = RemoteClients::new();
    let targets = vec![Some((1u16, "t".to_string()))];
    let enabled = vec![("m1".to_string(), "One".to_string())];
    let states = vec![Some("connected".to_string())];
    let sync = c
        .gx_store_sync_remote_clients(false, 1000, &targets, &enabled, &vec![], &states, &vec![false], "local", "connected", "m9")
        .expect("the first sync runs");
    assert_eq!(sync.starts, vec!["m1".to_string()]);
    assert!(sync.tabs_moved);
    assert!(sync.select_local);
    assert!(c
        .gx_store_sync_remote_clients(false, 1500, &targets, &enabled, &vec![], &states, &vec![false], "local", "connected", "m1")
        .is_none());
    let sync = c
        .gx_store_sync_remote_clients(true, 1500, &targets, &enabled, &vec![], &states, &vec![false], "local", "connected", "m1")
        .expect("a forced sync runs");
    assert!(!sync.tabs_moved);
    assert!(!sync.select_local);
}

#[test]
fn only_enabled_machines_in_the_connected_state_with_a_target_are_fed() {
    let enabled = vec![
        ("m1".to_string(), "One".to_string()),
        ("m2".to_string(), "Two".to_string()),
        ("m3".to_string(), "Three".to_string()),
        ("m4".to_string(), "Four".to_string()),
    ];
    let states = vec![
        Some("connected".to_string()),
        Some("connecting".to_string()),
        Some("connected".to_string()),
        None,
    ];
    let targets = vec![
        Some((4001u16, "a".to_string())),
        Some((4002u16, "b".to_string())),
        None,
        Some((4004u16, "d".to_string())),
    ];
    let map = connected_machines(&enabled, &states, &targets, "connected");
    assert_eq!(map.entries, vec![("m1".to_string(), (4001u16, "a".to_string()))]);
}

#[test]
fn a_sync_drops_the_client_of_a_machine_that_left_the_connected_state() {
    let mut c = RemoteClients::new();
    let enabled = vec![("m1".to_string(), "One".to_string())];
    let targets = vec![Some((1u16, "t".to_string()))];
    let up = vec![Some("connected".to_string())];
    c.begin_client_start("m1", 1, "t");
    assert!(client(&c, "m1").is_some());
    let down = vec![Some("disconnected".to_string())];
    let sync = c
        .gx_store_sync_remote_clients(true, 10, &targets, &enabled, &vec![], &down, &vec![false], "local", "connected", "local")
        .expect("a forced sync runs");
    assert_eq!(sync.stopped, vec!["m1".to_string()]);
    assert!(client(&c, "m1").is_none());
    let sync = c
        .gx_store_sync_remote_clients(true, 20, &targets, &enabled, &vec![], &up, &vec![false], "local", "connected", "local")
        .expect("a forced sync runs");
    assert_eq!(sync.starts, vec!["m1".to_string()]);
}
