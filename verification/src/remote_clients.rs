//! Every remote machine's store client: when one is started, stopped, forgotten or restarted, and
//! the machine tabs the sidebar draws.
//!
//! A client whose thread ended on its own is replaced after a delay that walks the ladder 1 s,
//! 5 s, 15 s, 30 s, 60 s, the last step repeating; a client that lived a minute or more before it
//! ended starts the ladder over.

use vstd::prelude::*;

use crate::effects::Json;
use crate::json_fields::{as_text, as_true, get, get_of, is_true, text_of};
use crate::keyed::KeyedMap;
use crate::text::{same_text, trim_text, trimmed};

verus! {

broadcast use {vstd::string::group_string_axioms, vstd::seq_lib::group_seq_properties};

/// A client that lived this long before its thread ended starts the backoff over.
pub const CLIENT_HEALTHY_LIFETIME_MS: u64 = 60000;
/// How long the machine list is reused.
pub const TABS_MAX_AGE_MS: u64 = 1000;

/// The restart delay for the `attempt`-th restart in a row, in milliseconds.
pub open spec fn backoff_of(attempt: int) -> u64 {
    if attempt <= 0 {
        1000
    } else if attempt == 1 {
        5000
    } else if attempt == 2 {
        15000
    } else if attempt == 3 {
        30000
    } else {
        60000
    }
}

/// One remote machine's client, as far as its lifecycle reads it.
#[derive(Clone, Debug, PartialEq, Eq)]
pub struct RemoteClient {
    /// Whether a client thread is running for it now.
    pub running: bool,
    /// The loopback port and token it was started for.
    pub port: u16,
    pub token: String,
    /// Bumped by every start, so a timer of an earlier client can tell it is no longer in charge.
    pub generation: u64,
    pub started_at_ms: Option<u64>,
    pub restart_attempt: u32,
    /// The earliest a replacement may start after the thread ended on its own.
    pub restart_due_ms: Option<u64>,
}

/// What happened since the app started.
#[derive(Clone, Copy, Debug, Default, PartialEq, Eq)]
pub struct RemoteClientCounters {
    pub starts: u64,
    pub stops: u64,
    pub unloads: u64,
    pub thread_exits: u64,
}

/// One machine tab of the sidebar.
#[derive(Clone, Debug, PartialEq, Eq)]
pub struct MachineTab {
    pub machine_id: String,
    pub label: String,
    pub state: String,
    /// Whether the store can draw this machine's list.
    pub fed: bool,
}

/// Every remote machine's client, by machine id.
pub struct RemoteClients {
    pub clients: KeyedMap<RemoteClient>,
    pub tabs: Vec<MachineTab>,
    pub tabs_read_at_ms: Option<u64>,
    pub counters: RemoteClientCounters,
}

/// The restart delay for the `attempt`-th restart in a row.
pub fn backoff_delay(attempt: u32) -> (delay: u64)
    ensures
        delay == backoff_of(attempt as int),
{
    if attempt == 0 {
        1000
    } else if attempt == 1 {
        5000
    } else if attempt == 2 {
        15000
    } else if attempt == 3 {
        30000
    } else {
        60000
    }
}

/// The attempt a restart is counted as: a client that lived a minute or more starts over.
pub open spec fn restart_attempt_of(c: RemoteClient, now_ms: u64) -> int {
    match c.started_at_ms {
        Some(at) => if now_ms >= at && now_ms - at >= CLIENT_HEALTHY_LIFETIME_MS {
            0
        } else {
            c.restart_attempt as int
        },
        None => c.restart_attempt as int,
    }
}

impl RemoteClients {
    /// An empty set of clients.
    pub fn new() -> (clients: Self)
        ensures
            clients.clients.well_formed(),
            clients.clients.entries@.len() == 0,
            clients.tabs@.len() == 0,
            clients.tabs_read_at_ms is None,
            clients.counters == (RemoteClientCounters { starts: 0, stops: 0, unloads: 0, thread_exits: 0 }),
    {
        RemoteClients {
            clients: KeyedMap::new(),
            tabs: Vec::new(),
            tabs_read_at_ms: None,
            counters: RemoteClientCounters { starts: 0, stops: 0, unloads: 0, thread_exits: 0 },
        }
    }

    /// How long to wait before replacing the client of `machine_id` whose thread ended at
    /// `now_ms`, and when the replacement is due. The ladder restarts for a client that lived a
    /// minute or more; the delay for a machine with no client is the first rung.
    pub fn next_restart_delay(&mut self, machine_id: &str, now_ms: u64) -> (delay: u64)
        requires
            old(self).clients.well_formed(),
            now_ms <= u64::MAX - 60000,
        ensures
            final(self).clients.well_formed(),
            final(self).tabs == old(self).tabs,
            final(self).counters == old(self).counters,
            match old(self).clients.as_map().get(machine_id@) {
                None => delay == 1000 && final(self).clients.as_map() == old(self).clients.as_map(),
                Some(c) => {
                    let attempt = restart_attempt_of(c, now_ms);
                    &&& delay == backoff_of(attempt)
                    &&& final(self).clients.as_map() == old(self).clients.as_map().insert(
                        machine_id@,
                        RemoteClient {
                            started_at_ms: None,
                            restart_attempt: if attempt + 1 > u32::MAX {
                                u32::MAX
                            } else {
                                (attempt + 1) as u32
                            },
                            restart_due_ms: Some((now_ms + delay) as u64),
                            ..c
                        },
                    )
                },
            },
    {
        let (at, found) = self.clients.locate(machine_id);
        if !found {
            proof {
                assert(!self.clients.as_map().contains_key(machine_id@));
            }
            return 1000;
        }
        proof {
            self.clients.lemma_key_index(at as int);
        }
        let c = &self.clients.entries[at].1;
        let healthy = match c.started_at_ms {
            Some(started) => now_ms >= started && now_ms - started >= CLIENT_HEALTHY_LIFETIME_MS,
            None => false,
        };
        let attempt = if healthy {
            0
        } else {
            c.restart_attempt
        };
        let delay = backoff_delay(attempt);
        let next = RemoteClient {
            running: c.running,
            port: c.port,
            token: c.token.clone(),
            generation: c.generation,
            started_at_ms: None,
            restart_attempt: if attempt == u32::MAX {
                u32::MAX
            } else {
                attempt + 1
            },
            restart_due_ms: Some(now_ms + delay),
        };
        self.clients.set_value_at(at, next);
        delay
    }
}

} // verus!

verus! {

/// Restarts that keep failing walk the ladder 1 s, 5 s, 15 s, 30 s, 60 s, and stay at 60 s: the
/// delay never shrinks as the attempts grow, and never passes a minute.
pub proof fn law_backoff_walks_the_ladder(a: int, b: int)
    requires
        0 <= a <= b,
    ensures
        backoff_of(a) <= backoff_of(b),
        1000 <= backoff_of(b) <= 60000,
        b >= 4 ==> backoff_of(b) == 60000,
        backoff_of(0) == 1000 && backoff_of(1) == 5000 && backoff_of(2) == 15000 && backoff_of(3)
            == 30000,
{
}

/// Whether the client of `k` runs against the target `connected` names for it.
pub open spec fn same_target(
    clients: Map<Seq<char>, RemoteClient>,
    connected: Map<Seq<char>, (u16, String)>,
    k: Seq<char>,
) -> bool {
    clients.contains_key(k) && connected.contains_key(k) && clients[k].port == connected[k].0
        && clients[k].token@ == connected[k].1@
}

/// The clients after the stop pass: a client that still runs against its target is kept, one
/// whose machine is connected through a new target is stopped with its ladder reset, and one
/// whose machine is not connected is dropped.
pub open spec fn after_stops(
    clients: Map<Seq<char>, RemoteClient>,
    connected: Map<Seq<char>, (u16, String)>,
) -> Map<Seq<char>, RemoteClient> {
    Map::new(
        |k: Seq<char>| clients.contains_key(k) && connected.contains_key(k),
        |k: Seq<char>|
            if same_target(clients, connected, k) {
                clients[k]
            } else {
                RemoteClient {
                    running: false,
                    restart_due_ms: None,
                    restart_attempt: 0,
                    ..clients[k]
                }
            },
    )
}

/// Whether a start of `k` is held back: its client runs against the target, or waits out a
/// backoff at `now_ms`.
pub open spec fn start_held(
    clients: Map<Seq<char>, RemoteClient>,
    connected: Map<Seq<char>, (u16, String)>,
    k: Seq<char>,
    now_ms: u64,
) -> bool {
    (same_target(clients, connected, k) && clients[k].running) || (clients.contains_key(k) && (
    clients[k].restart_due_ms matches Some(d) && now_ms < d))
}

/// What one reconcile asks the host to do.
pub struct RemoteSync {
    /// Machines whose client is retired, in key order: their stream is marked down.
    pub stopped: Vec<String>,
    /// Machines the user disabled or removed: their rows are unloaded.
    pub forgotten: Vec<String>,
    /// Machines whose client is started now, in key order.
    pub starts: Vec<String>,
    /// Whether the machine tabs changed.
    pub tabs_moved: bool,
    /// Whether the selected machine tab is gone and this computer's is selected instead.
    pub select_local: bool,
}

/// The keys of `m`'s entries as strings, in order.
fn keys_in_order<V>(m: &KeyedMap<V>) -> (keys: Vec<String>)
    ensures
        keys@.map_values(|k: String| k@) == m.keys(),
{
    let mut keys: Vec<String> = Vec::new();
    let mut i: usize = 0;
    while i < m.entries.len()
        invariant
            0 <= i <= m.entries@.len(),
            keys@.map_values(|k: String| k@) == m.keys().take(i as int),
        decreases m.entries@.len() - i,
    {
        let ghost before = keys@;
        keys.push(m.entries[i].0.clone());
        proof {
            assert(m.keys().len() == m.entries@.len());
            assert(before.map_values(|k: String| k@).len() == before.len());
            assert(keys@ == before.push(m.entries@[i as int].0));
            assert(m.keys()[i as int] == m.entries@[i as int].0@);
            let got = keys@.map_values(|k: String| k@);
            let want = m.keys().take(i as int + 1);
            assert(got.len() == want.len());
            assert forall|j: int| 0 <= j < got.len() implies got[j] == want[j] by {
                if j < i {
                    assert(before.map_values(|k: String| k@)[j] == m.keys().take(i as int)[j]);
                }
            }
            assert(got =~= want);
        }
        i = i + 1;
    }
    proof {
        assert(m.keys().take(m.entries@.len() as int) =~= m.keys());
    }
    keys
}

/// Whether `id` is the first field of one of `pairs`.
fn names_machine(pairs: &Vec<(String, String)>, id: &str) -> (found: bool)
    ensures
        found == pairs@.map_values(|p: (String, String)| p.0@).contains(id@),
{
    let ghost ids = pairs@.map_values(|p: (String, String)| p.0@);
    let mut i: usize = 0;
    while i < pairs.len()
        invariant
            0 <= i <= pairs@.len(),
            ids == pairs@.map_values(|p: (String, String)| p.0@),
            forall|j: int| 0 <= j < i ==> #[trigger] pairs@[j].0@ != id@,
        decreases pairs@.len() - i,
    {
        if same_text(pairs[i].0.as_str(), id) {
            proof {
                assert(ids[i as int] == id@);
            }
            return true;
        }
        i = i + 1;
    }
    proof {
        if ids.contains(id@) {
            let j = choose|j: int| 0 <= j < ids.len() && ids[j] == id@;
            assert(pairs@[j].0@ == id@);
        }
    }
    false
}

} // verus!

verus! {

/// The clients partway through the stop pass: the machines in `done` have been through it.
pub open spec fn stops_partway(
    clients: Map<Seq<char>, RemoteClient>,
    connected: Map<Seq<char>, (u16, String)>,
    done: Seq<Seq<char>>,
) -> Map<Seq<char>, RemoteClient> {
    Map::new(
        |k: Seq<char>| clients.contains_key(k) && (!done.contains(k) || connected.contains_key(k)),
        |k: Seq<char>|
            if done.contains(k) {
                after_stops(clients, connected)[k]
            } else {
                clients[k]
            },
    )
}

/// The view of a list of strings.
pub open spec fn names_view(s: Seq<String>) -> Seq<Seq<char>> {
    s.map_values(|k: String| k@)
}

impl RemoteClients {
    /// The stop pass: every client whose machine is no longer connected through the same target
    /// is retired, its ladder reset when the machine is still connected and the client dropped
    /// when it is not. Gives the retired machines in key order.
    pub fn stop_unconnected_clients(&mut self, connected: &KeyedMap<(u16, String)>) -> (stopped: Vec<
        String,
    >)
        requires
            old(self).clients.well_formed(),
            connected.well_formed(),
            old(self).counters.stops + old(self).clients.entries@.len() <= u64::MAX,
        ensures
            final(self).clients.well_formed(),
            final(self).clients.as_map() == after_stops(
                old(self).clients.as_map(),
                connected.as_map(),
            ),
            names_view(stopped@) == old(self).clients.keys().filter(
                |k: Seq<char>| !same_target(old(self).clients.as_map(), connected.as_map(), k),
            ),
            final(self).counters.stops == old(self).counters.stops + stopped@.len(),
            final(self).counters.starts == old(self).counters.starts,
            final(self).counters.unloads == old(self).counters.unloads,
            final(self).tabs == old(self).tabs,
            final(self).tabs_read_at_ms == old(self).tabs_read_at_ms,
    {
        let ghost start = self.clients.as_map();
        let ghost cmap = connected.as_map();
        let ghost pred = |k: Seq<char>| !same_target(start, cmap, k);
        let held = keys_in_order(&self.clients);
        let ghost held_keys = self.clients.keys();
        let mut stopped: Vec<String> = Vec::new();
        let mut i: usize = 0;
        proof {
            assert forall|a: int, b: int| 0 <= a < b < held_keys.len() implies held_keys[a]
                != held_keys[b] by {
                assert(crate::keyed::key_less(held_keys[a], held_keys[b]));
                crate::keyed::lemma_key_less_irreflexive(held_keys[a]);
            }
            assert forall|a: int| 0 <= a < held_keys.len() implies start.contains_key(
                #[trigger] held_keys[a],
            ) by {
                self.clients.lemma_key_index(a);
            }
            assert(stops_partway(start, cmap, held_keys.take(0)) =~= start);
            assert(names_view(stopped@) =~= held_keys.take(0).filter(pred)) by {
                reveal_with_fuel(Seq::filter, 1);
            }
        }
        while i < held.len()
            invariant
                0 <= i <= held@.len(),
                names_view(held@) == held_keys,
                held_keys.len() == held@.len(),
                self.clients.well_formed(),
                connected.well_formed(),
                cmap == connected.as_map(),
                pred == (|k: Seq<char>| !same_target(start, cmap, k)),
                self.clients.as_map() == stops_partway(start, cmap, held_keys.take(i as int)),
                names_view(stopped@) == held_keys.take(i as int).filter(pred),
                stopped@.len() <= i,
                self.counters.stops == old(self).counters.stops + stopped@.len(),
                old(self).counters.stops + held_keys.len() <= u64::MAX,
                forall|a: int, b: int| 0 <= a < b < held_keys.len() ==> held_keys[a] != held_keys[b],
                forall|a: int| 0 <= a < held_keys.len() ==> start.contains_key(#[trigger] held_keys[a]),
                self.counters.starts == old(self).counters.starts,
                self.counters.unloads == old(self).counters.unloads,
                self.tabs == old(self).tabs,
                self.tabs_read_at_ms == old(self).tabs_read_at_ms,
            decreases held@.len() - i,
        {
            let id = held[i].as_str();
            let ghost k = held_keys[i as int];
            proof {
                assert(id@ == k);
                assert(held_keys.take(i as int + 1) =~= held_keys.take(i as int).push(k));
                assert(!held_keys.take(i as int).contains(k)) by {
                    if held_keys.take(i as int).contains(k) {
                        let a = choose|a: int| 0 <= a < i && held_keys.take(i as int)[a] == k;
                        assert(held_keys[a] == held_keys[i as int]);
                    }
                }
                reveal_with_fuel(Seq::filter, 1);
                assert(held_keys.take(i as int + 1).drop_last() =~= held_keys.take(i as int));
            }
            let (at, found) = self.clients.locate(id);
            proof {
                assert(self.clients.as_map().contains_key(k));
                assert(self.clients.has(k));
                self.clients.lemma_key_index(at as int);
                assert(self.clients.as_map()[k] == start[k]);
            }
            let (cat, cfound) = connected.locate(id);
            let same = if cfound {
                proof {
                    connected.lemma_key_index(cat as int);
                }
                let c = &self.clients.entries[at].1;
                c.port == connected.entries[cat].1.0 && same_text(
                    c.token.as_str(),
                    connected.entries[cat].1.1.as_str(),
                )
            } else {
                proof {
                    assert(!cmap.contains_key(k));
                }
                false
            };
            let ghost before_map = self.clients.as_map();
            if !same {
                self.counters.stops = self.counters.stops + 1;
                stopped.push(String::from_str(id));
                if cfound {
                    let c = &self.clients.entries[at].1;
                    let next = RemoteClient {
                        running: false,
                        port: c.port,
                        token: c.token.clone(),
                        generation: c.generation,
                        started_at_ms: c.started_at_ms,
                        restart_attempt: 0,
                        restart_due_ms: None,
                    };
                    self.clients.set_value_at(at, next);
                } else {
                    self.clients.remove_at(at);
                }
                proof {
                    assert(names_view(stopped@) =~= held_keys.take(i as int + 1).filter(pred));
                }
            } else {
                proof {
                    assert(names_view(stopped@) =~= held_keys.take(i as int + 1).filter(pred));
                }
            }
            proof {
                assert(self.clients.as_map() =~= stops_partway(start, cmap, held_keys.take(i as int + 1)));
            }
            i = i + 1;
        }
        proof {
            assert(held_keys.take(held@.len() as int) =~= held_keys);
            assert forall|k: Seq<char>| start.contains_key(k) implies held_keys.contains(k) by {
                let a = self.clients.key_index(k);
            }
            assert(self.clients.as_map() =~= after_stops(start, cmap));
        }
        stopped
    }
}

} // verus!

verus! {

/// The machines the store holds rows of that the user no longer has enabled.
pub open spec fn forgotten_of(store: Seq<Seq<char>>, enabled: Seq<Seq<char>>) -> Seq<Seq<char>> {
    store.filter(|k: Seq<char>| !enabled.contains(k))
}

/// The ids of the enabled machines, in settings order.
pub open spec fn enabled_ids(enabled: Seq<(String, String)>) -> Seq<Seq<char>> {
    enabled.map_values(|p: (String, String)| p.0@)
}

/// The view of a machine tab.
pub open spec fn tab_view(t: MachineTab) -> (Seq<char>, Seq<char>, Seq<char>, bool) {
    (t.machine_id@, t.label@, t.state@, t.fed)
}

/// The view of the machine tabs.
pub open spec fn tabs_view(tabs: Seq<MachineTab>) -> Seq<(Seq<char>, Seq<char>, Seq<char>, bool)> {
    tabs.map_values(|t: MachineTab| tab_view(t))
}

/// The machine tabs: this computer first, then every enabled machine in settings order, with its
/// connect state (`disconnected` when none is known) and whether the store can draw it: it has a
/// client, or the store holds its rows.
pub open spec fn tabs_of(
    local_id: Seq<char>,
    connected_state: Seq<char>,
    enabled: Seq<(String, String)>,
    states: Seq<Option<String>>,
    loaded: Seq<bool>,
    clients: Map<Seq<char>, RemoteClient>,
) -> Seq<(Seq<char>, Seq<char>, Seq<char>, bool)> {
    seq![(local_id, "Local"@, connected_state, true)] + Seq::new(
        enabled.len(),
        |i: int|
            (
                enabled[i].0@,
                enabled[i].1@,
                match states[i] {
                    Some(s) => s@,
                    None => "disconnected"@,
                },
                clients.contains_key(enabled[i].0@) || loaded[i],
            ),
    )
}

impl RemoteClients {
    /// Forgets the machines the store holds rows of (`store_machines`) that the user disabled or
    /// removed: their clients go and their rows are to be unloaded. Gives them in the store's order.
    pub fn forget_disabled_machines(
        &mut self,
        enabled: &Vec<(String, String)>,
        store_machines: &Vec<String>,
    ) -> (forgotten: Vec<String>)
        requires
            old(self).clients.well_formed(),
            old(self).counters.unloads + store_machines@.len() <= u64::MAX,
        ensures
            final(self).clients.well_formed(),
            names_view(forgotten@) == forgotten_of(names_view(store_machines@), enabled_ids(enabled@)),
            final(self).clients.as_map() == old(self).clients.as_map().remove_keys(
                names_view(forgotten@).to_set(),
            ),
            final(self).counters.unloads == old(self).counters.unloads + forgotten@.len(),
            final(self).counters.stops == old(self).counters.stops,
            final(self).counters.starts == old(self).counters.starts,
            final(self).tabs == old(self).tabs,
            final(self).tabs_read_at_ms == old(self).tabs_read_at_ms,
    {
        let ghost start = self.clients.as_map();
        let ghost ids = enabled_ids(enabled@);
        let ghost pred = |k: Seq<char>| !ids.contains(k);
        let ghost store = names_view(store_machines@);
        let mut forgotten: Vec<String> = Vec::new();
        let mut i: usize = 0;
        proof {
            assert(names_view(forgotten@) =~= store.take(0).filter(pred)) by {
                reveal_with_fuel(Seq::filter, 1);
            }
            assert(start.remove_keys(names_view(forgotten@).to_set()) =~= start);
        }
        while i < store_machines.len()
            invariant
                0 <= i <= store_machines@.len(),
                store == names_view(store_machines@),
                ids == enabled_ids(enabled@),
                pred == (|k: Seq<char>| !ids.contains(k)),
                self.clients.well_formed(),
                names_view(forgotten@) == store.take(i as int).filter(pred),
                forgotten@.len() <= i,
                self.clients.as_map() == start.remove_keys(names_view(forgotten@).to_set()),
                self.counters.unloads == old(self).counters.unloads + forgotten@.len(),
                old(self).counters.unloads + store_machines@.len() <= u64::MAX,
                self.counters.stops == old(self).counters.stops,
                self.counters.starts == old(self).counters.starts,
                self.tabs == old(self).tabs,
                self.tabs_read_at_ms == old(self).tabs_read_at_ms,
            decreases store_machines@.len() - i,
        {
            let id = store_machines[i].as_str();
            proof {
                assert(store.take(i as int + 1).drop_last() =~= store.take(i as int));
                assert(store[i as int] == id@);
                reveal_with_fuel(Seq::filter, 1);
            }
            if !names_machine(enabled, id) {
                let ghost before = forgotten@;
                self.counters.unloads = self.counters.unloads + 1;
                let (at, found) = self.clients.locate(id);
                if found {
                    self.clients.remove_at(at);
                } else {
                    proof {
                        assert(!self.clients.as_map().contains_key(id@));
                    }
                }
                forgotten.push(String::from_str(id));
                proof {
                    assert(names_view(forgotten@) =~= names_view(before).push(id@));
                    assert(names_view(forgotten@) =~= store.take(i as int + 1).filter(pred));
                    assert(names_view(forgotten@).to_set() =~= names_view(before).to_set().insert(id@));
                    assert(self.clients.as_map() =~= start.remove_keys(names_view(forgotten@).to_set()));
                }
            } else {
                proof {
                    assert(names_view(forgotten@) =~= store.take(i as int + 1).filter(pred));
                }
            }
            i = i + 1;
        }
        proof {
            assert(store.take(store_machines@.len() as int) =~= store);
        }
        forgotten
    }
}

} // verus!

verus! {

/// Whether two lists of machine tabs are the same.
fn same_tabs(a: &Vec<MachineTab>, b: &Vec<MachineTab>) -> (same: bool)
    ensures
        same == (tabs_view(a@) == tabs_view(b@)),
{
    if a.len() != b.len() {
        proof {
            assert(tabs_view(a@).len() != tabs_view(b@).len());
        }
        return false;
    }
    let mut i: usize = 0;
    while i < a.len()
        invariant
            0 <= i <= a@.len(),
            a@.len() == b@.len(),
            forall|j: int| 0 <= j < i ==> tab_view(#[trigger] a@[j]) == tab_view(b@[j]),
        decreases a@.len() - i,
    {
        let x = &a[i];
        let y = &b[i];
        if !(same_text(x.machine_id.as_str(), y.machine_id.as_str()) && same_text(
            x.label.as_str(),
            y.label.as_str(),
        ) && same_text(x.state.as_str(), y.state.as_str()) && x.fed == y.fed) {
            proof {
                assert(tabs_view(a@)[i as int] != tabs_view(b@)[i as int]);
            }
            return false;
        }
        i = i + 1;
    }
    proof {
        assert(tabs_view(a@) =~= tabs_view(b@));
    }
    true
}

impl RemoteClients {
    /// The connected machines whose client is started now, in key order: every one whose client
    /// neither runs against its target nor waits out a backoff at `now_ms`.
    pub fn starts_due(&self, connected: &KeyedMap<(u16, String)>, now_ms: u64) -> (starts: Vec<String>)
        requires
            self.clients.well_formed(),
            connected.well_formed(),
        ensures
            names_view(starts@) == connected.keys().filter(
                |k: Seq<char>| !start_held(self.clients.as_map(), connected.as_map(), k, now_ms),
            ),
    {
        let ghost m = self.clients.as_map();
        let ghost cmap = connected.as_map();
        let ghost pred = |k: Seq<char>| !start_held(m, cmap, k, now_ms);
        let ghost keys = connected.keys();
        let mut starts: Vec<String> = Vec::new();
        let mut i: usize = 0;
        proof {
            assert(names_view(starts@) =~= keys.take(0).filter(pred)) by {
                reveal_with_fuel(Seq::filter, 1);
            }
        }
        while i < connected.entries.len()
            invariant
                0 <= i <= connected.entries@.len(),
                self.clients.well_formed(),
                connected.well_formed(),
                m == self.clients.as_map(),
                cmap == connected.as_map(),
                keys == connected.keys(),
                pred == (|k: Seq<char>| !start_held(m, cmap, k, now_ms)),
                names_view(starts@) == keys.take(i as int).filter(pred),
            decreases connected.entries@.len() - i,
        {
            let id = connected.entries[i].0.as_str();
            let ghost k = keys[i as int];
            proof {
                assert(keys.take(i as int + 1).drop_last() =~= keys.take(i as int));
                reveal_with_fuel(Seq::filter, 1);
                connected.lemma_key_index(i as int);
            }
            let (at, found) = self.clients.locate(id);
            let held = if found {
                proof {
                    self.clients.lemma_key_index(at as int);
                }
                let c = &self.clients.entries[at].1;
                let target = &connected.entries[i].1;
                let running = c.running && c.port == target.0 && same_text(
                    c.token.as_str(),
                    target.1.as_str(),
                );
                let waiting = match c.restart_due_ms {
                    Some(due) => now_ms < due,
                    None => false,
                };
                running || waiting
            } else {
                proof {
                    assert(!m.contains_key(k));
                }
                false
            };
            if !held {
                let ghost before = starts@;
                starts.push(String::from_str(id));
                proof {
                    assert(names_view(starts@) =~= names_view(before).push(k));
                }
            }
            proof {
                assert(names_view(starts@) =~= keys.take(i as int + 1).filter(pred));
            }
            i = i + 1;
        }
        proof {
            assert(keys.take(connected.entries@.len() as int) =~= keys);
        }
        starts
    }

    /// The machine tabs: this computer first (`local_id`, `Local`, `connected_state`), then every
    /// enabled machine in settings order with its connect state (`states`, one per machine) and
    /// whether the store can draw it: it has a client, or the store holds its rows (`loaded`).
    pub fn remote_machine_tabs(
        &self,
        local_id: &str,
        connected_state: &str,
        enabled: &Vec<(String, String)>,
        states: &Vec<Option<String>>,
        loaded: &Vec<bool>,
    ) -> (tabs: Vec<MachineTab>)
        requires
            self.clients.well_formed(),
            states@.len() == enabled@.len(),
            loaded@.len() == enabled@.len(),
        ensures
            tabs_view(tabs@) == tabs_of(
                local_id@,
                connected_state@,
                enabled@,
                states@,
                loaded@,
                self.clients.as_map(),
            ),
    {
        let mut tabs: Vec<MachineTab> = Vec::new();
        tabs.push(
            MachineTab {
                machine_id: String::from_str(local_id),
                label: String::from_str("Local"),
                state: String::from_str(connected_state),
                fed: true,
            },
        );
        let ghost want = tabs_of(
            local_id@,
            connected_state@,
            enabled@,
            states@,
            loaded@,
            self.clients.as_map(),
        );
        let mut i: usize = 0;
        while i < enabled.len()
            invariant
                0 <= i <= enabled@.len(),
                states@.len() == enabled@.len(),
                loaded@.len() == enabled@.len(),
                self.clients.well_formed(),
                want == tabs_of(
                    local_id@,
                    connected_state@,
                    enabled@,
                    states@,
                    loaded@,
                    self.clients.as_map(),
                ),
                tabs_view(tabs@) == want.take(i as int + 1),
            decreases enabled@.len() - i,
        {
            let (id, label) = (&enabled[i].0, &enabled[i].1);
            let state = match &states[i] {
                Some(s) => s.clone(),
                None => String::from_str("disconnected"),
            };
            let (_, has_client) = self.clients.locate(id.as_str());
            let ghost before = tabs@;
            tabs.push(
                MachineTab {
                    machine_id: id.clone(),
                    label: label.clone(),
                    state,
                    fed: has_client || loaded[i],
                },
            );
            proof {
                assert(self.clients.has(id@) == self.clients.as_map().contains_key(id@));
                let t = tabs@[i as int + 1];
                assert(tabs_view(tabs@) =~= tabs_view(before).push(tab_view(t)));
                assert(want[i as int + 1] == tab_view(t));
                assert(tabs_view(tabs@) =~= want.take(i as int + 2));
            }
            i = i + 1;
        }
        proof {
            assert(want.take(enabled@.len() as int + 1) =~= want);
        }
        tabs
    }
}

} // verus!

verus! {

/// Whether the machine list read at `read_at` is still fresh at `now_ms`.
pub open spec fn tabs_fresh(read_at: Option<u64>, now_ms: u64) -> bool {
    match read_at {
        Some(at) => now_ms < at || now_ms - at < TABS_MAX_AGE_MS,
        None => false,
    }
}

/// Whether a machine's connect state is `connected_state`.
pub open spec fn state_is(state: Option<String>, connected_state: Seq<char>) -> bool {
    match state {
        Some(s) => s@ == connected_state,
        None => false,
    }
}

/// The machines a client is fed for: each enabled machine (`enabled`, with its connect state in
/// `states` and its connection's request target in `targets`, at the same index) whose state is
/// `connected_state` and that has a target, under that target; a later entry for the same id wins.
pub open spec fn connected_map_of(
    enabled: Seq<(String, String)>,
    states: Seq<Option<String>>,
    targets: Seq<Option<(u16, String)>>,
    connected_state: Seq<char>,
) -> Map<Seq<char>, (u16, String)>
    decreases enabled.len(),
{
    if enabled.len() == 0 {
        Map::empty()
    } else {
        let n = enabled.len() - 1;
        let rest = connected_map_of(enabled.take(n), states.take(n), targets.take(n), connected_state);
        if state_is(states[n], connected_state) && targets[n] is Some {
            rest.insert(enabled[n].0@, targets[n]->0)
        } else {
            rest
        }
    }
}

/// Whether `k` is an enabled machine whose connect state is `connected_state`.
pub open spec fn enabled_and_connected(
    enabled: Seq<(String, String)>,
    states: Seq<Option<String>>,
    connected_state: Seq<char>,
    k: Seq<char>,
) -> bool {
    exists|i: int| 0 <= i < enabled.len() && #[trigger] enabled[i].0@ == k && state_is(states[i], connected_state)
}

/// Every machine [`connected_map_of`] holds is enabled and connected, with a target.
pub proof fn lemma_connected_map_is_enabled_and_connected(
    enabled: Seq<(String, String)>,
    states: Seq<Option<String>>,
    targets: Seq<Option<(u16, String)>>,
    connected_state: Seq<char>,
    k: Seq<char>,
)
    requires
        states.len() == enabled.len(),
        targets.len() == enabled.len(),
        connected_map_of(enabled, states, targets, connected_state).contains_key(k),
    ensures
        enabled_and_connected(enabled, states, connected_state, k),
    decreases enabled.len(),
{
    let n = enabled.len() - 1;
    if state_is(states[n], connected_state) && targets[n] is Some && enabled[n].0@ == k {
        assert(enabled[n].0@ == k);
    } else {
        lemma_connected_map_is_enabled_and_connected(
            enabled.take(n),
            states.take(n),
            targets.take(n),
            connected_state,
            k,
        );
        let i = choose|i: int| 0 <= i < n && #[trigger] enabled.take(n)[i].0@ == k && state_is(states.take(n)[i], connected_state);
        assert(enabled[i].0@ == k);
    }
}

/// The machines a client is fed for, built from the enabled machines, their connect states and
/// their connections' request targets (see [`connected_map_of`]).
pub fn connected_machines(
    enabled: &Vec<(String, String)>,
    states: &Vec<Option<String>>,
    targets: &Vec<Option<(u16, String)>>,
    connected_state: &str,
) -> (connected: KeyedMap<(u16, String)>)
    requires
        states@.len() == enabled@.len(),
        targets@.len() == enabled@.len(),
    ensures
        connected.well_formed(),
        connected.as_map() == connected_map_of(enabled@, states@, targets@, connected_state@),
{
    let mut connected: KeyedMap<(u16, String)> = KeyedMap::new();
    proof {
        assert(connected.as_map() =~= Map::empty());
        assert(enabled@.take(0) =~= Seq::<(String, String)>::empty());
    }
    let mut i: usize = 0;
    while i < enabled.len()
        invariant
            0 <= i <= enabled@.len(),
            states@.len() == enabled@.len(),
            targets@.len() == enabled@.len(),
            connected.well_formed(),
            connected.as_map() == connected_map_of(
                enabled@.take(i as int),
                states@.take(i as int),
                targets@.take(i as int),
                connected_state@,
            ),
        decreases enabled@.len() - i,
    {
        proof {
            let e = enabled@.take(i as int + 1);
            assert(e.take(i as int) =~= enabled@.take(i as int));
            assert(states@.take(i as int + 1).take(i as int) =~= states@.take(i as int));
            assert(targets@.take(i as int + 1).take(i as int) =~= targets@.take(i as int));
        }
        let is_connected = match &states[i] {
            Some(state) => same_text(state.as_str(), connected_state),
            None => false,
        };
        if is_connected {
            match &targets[i] {
                Some(target) => {
                    connected.put(enabled[i].0.as_str(), (target.0, target.1.clone()));
                },
                None => {},
            }
        }
        i = i + 1;
    }
    proof {
        assert(enabled@.take(enabled@.len() as int) =~= enabled@);
        assert(states@.take(enabled@.len() as int) =~= states@);
        assert(targets@.take(enabled@.len() as int) =~= targets@);
    }
    connected
}

/// What a reconcile against the connected machines `connected` did, from `before` to `after`.
pub open spec fn sync_outcome(
    before: RemoteClients,
    after: RemoteClients,
    sync: Option<RemoteSync>,
    force: bool,
    now_ms: u64,
    connected: KeyedMap<(u16, String)>,
    enabled: Seq<(String, String)>,
    store_machines: Seq<String>,
    states: Seq<Option<String>>,
    loaded: Seq<bool>,
    local_id: Seq<char>,
    connected_state: Seq<char>,
    selected_machine_id: Seq<char>,
) -> bool {
    &&& !force && tabs_fresh(before.tabs_read_at_ms, now_ms) ==> sync is None && after.clients
        == before.clients && after.tabs == before.tabs && after.counters == before.counters
        && after.tabs_read_at_ms == before.tabs_read_at_ms
    &&& !(!force && tabs_fresh(before.tabs_read_at_ms, now_ms)) ==> (sync matches Some(s) && {
        let stopped_map = after_stops(before.clients.as_map(), connected.as_map());
        let gone = forgotten_of(names_view(store_machines), enabled_ids(enabled));
        let kept = stopped_map.remove_keys(gone.to_set());
        &&& after.tabs_read_at_ms == Some(now_ms)
        &&& names_view(s.stopped@) == before.clients.keys().filter(
            |k: Seq<char>| !same_target(before.clients.as_map(), connected.as_map(), k),
        )
        &&& names_view(s.forgotten@) == gone
        &&& after.clients.as_map() == kept
        &&& names_view(s.starts@) == connected.keys().filter(
            |k: Seq<char>| !start_held(kept, connected.as_map(), k, now_ms),
        )
        &&& tabs_view(after.tabs@) == tabs_of(local_id, connected_state, enabled, states, loaded, kept)
        &&& s.tabs_moved == (tabs_view(after.tabs@) != tabs_view(before.tabs@))
        &&& s.select_local == (s.tabs_moved && !tabs_view(after.tabs@).map_values(
            |t: (Seq<char>, Seq<char>, Seq<char>, bool)| t.0,
        ).contains(selected_machine_id))
        &&& after.counters.stops == before.counters.stops + s.stopped@.len()
        &&& after.counters.unloads == before.counters.unloads + s.forgotten@.len()
    })
}

impl RemoteClients {
    /// Brings the clients in line with the machines connected now and rebuilds the machine tabs.
    ///
    /// The connected machines are built here from the enabled machines, their connect states and
    /// their connections' request targets (`targets`, at the same index as `enabled`; see
    /// [`connected_machines`]); the rest is [`RemoteClients::sync_with_connected`]. After a
    /// reconcile every client left is an enabled machine in the connected state.
    pub fn gx_store_sync_remote_clients(
        &mut self,
        force: bool,
        now_ms: u64,
        targets: &Vec<Option<(u16, String)>>,
        enabled: &Vec<(String, String)>,
        store_machines: &Vec<String>,
        states: &Vec<Option<String>>,
        loaded: &Vec<bool>,
        local_id: &str,
        connected_state: &str,
        selected_machine_id: &str,
    ) -> (sync: Option<RemoteSync>)
        requires
            old(self).clients.well_formed(),
            states@.len() == enabled@.len(),
            targets@.len() == enabled@.len(),
            loaded@.len() == enabled@.len(),
            old(self).counters.stops + old(self).clients.entries@.len() <= u64::MAX,
            old(self).counters.unloads + store_machines@.len() <= u64::MAX,
        ensures
            final(self).clients.well_formed(),
            exists|c: KeyedMap<(u16, String)>|
                c.well_formed() && #[trigger] c.as_map() == connected_map_of(
                    enabled@,
                    states@,
                    targets@,
                    connected_state@,
                ) && sync_outcome(
                    *old(self),
                    *final(self),
                    sync,
                    force,
                    now_ms,
                    c,
                    enabled@,
                    store_machines@,
                    states@,
                    loaded@,
                    local_id@,
                    connected_state@,
                    selected_machine_id@,
                ),
            sync is Some ==> forall|k: Seq<char>|
                #[trigger] final(self).clients.as_map().contains_key(k) ==> enabled_and_connected(
                    enabled@,
                    states@,
                    connected_state@,
                    k,
                ),
    {
        let connected = connected_machines(enabled, states, targets, connected_state);
        let sync = self.sync_with_connected(
            force,
            now_ms,
            &connected,
            enabled,
            store_machines,
            states,
            loaded,
            local_id,
            connected_state,
            selected_machine_id,
        );
        proof {
            assert(connected.as_map() == connected_map_of(enabled@, states@, targets@, connected_state@));
            if sync is Some {
                assert forall|k: Seq<char>|
                    #[trigger] self.clients.as_map().contains_key(k) implies enabled_and_connected(
                    enabled@,
                    states@,
                    connected_state@,
                    k,
                ) by {
                    assert(connected.as_map().contains_key(k));
                    lemma_connected_map_is_enabled_and_connected(
                        enabled@,
                        states@,
                        targets@,
                        connected_state@,
                        k,
                    );
                }
            }
        }
        sync
    }

    /// Brings the clients in line with the connected machines `connected` and rebuilds the
    /// machine tabs.
    ///
    /// Unless `force`d, a reconcile within a second of the last is answered from the cache with
    /// `None`. Otherwise: every client whose machine is not connected through the same target is
    /// retired (see [`RemoteClients::stop_unconnected_clients`]); every machine the store holds
    /// that the user disabled or removed is forgotten; every connected machine whose client
    /// neither runs nor waits out a backoff is started; and the tabs are rebuilt. When they moved
    /// and no longer offer the selected machine, this computer's tab is selected.
    pub fn sync_with_connected(
        &mut self,
        force: bool,
        now_ms: u64,
        connected: &KeyedMap<(u16, String)>,
        enabled: &Vec<(String, String)>,
        store_machines: &Vec<String>,
        states: &Vec<Option<String>>,
        loaded: &Vec<bool>,
        local_id: &str,
        connected_state: &str,
        selected_machine_id: &str,
    ) -> (sync: Option<RemoteSync>)
        requires
            old(self).clients.well_formed(),
            connected.well_formed(),
            states@.len() == enabled@.len(),
            loaded@.len() == enabled@.len(),
            old(self).counters.stops + old(self).clients.entries@.len() <= u64::MAX,
            old(self).counters.unloads + store_machines@.len() <= u64::MAX,
        ensures
            final(self).clients.well_formed(),
            sync_outcome(
                *old(self),
                *final(self),
                sync,
                force,
                now_ms,
                *connected,
                enabled@,
                store_machines@,
                states@,
                loaded@,
                local_id@,
                connected_state@,
                selected_machine_id@,
            ),
    {
        let fresh = match self.tabs_read_at_ms {
            Some(at) => now_ms < at || now_ms - at < TABS_MAX_AGE_MS,
            None => false,
        };
        if !force && fresh {
            return None;
        }
        self.tabs_read_at_ms = Some(now_ms);
        let stopped = self.stop_unconnected_clients(connected);
        let forgotten = self.forget_disabled_machines(enabled, store_machines);
        let starts = self.starts_due(connected, now_ms);
        let tabs = self.remote_machine_tabs(local_id, connected_state, enabled, states, loaded);
        let moved = !same_tabs(&tabs, &self.tabs);
        self.tabs = tabs;
        let mut offered = false;
        let mut i: usize = 0;
        while i < self.tabs.len()
            invariant
                0 <= i <= self.tabs@.len(),
                offered == tabs_view(self.tabs@).take(i as int).map_values(
                    |t: (Seq<char>, Seq<char>, Seq<char>, bool)| t.0,
                ).contains(selected_machine_id@),
            decreases self.tabs@.len() - i,
        {
            proof {
                let ids_next = tabs_view(self.tabs@).take(i as int + 1).map_values(
                    |t: (Seq<char>, Seq<char>, Seq<char>, bool)| t.0,
                );
                let ids_now = tabs_view(self.tabs@).take(i as int).map_values(
                    |t: (Seq<char>, Seq<char>, Seq<char>, bool)| t.0,
                );
                assert(ids_next =~= ids_now.push(self.tabs@[i as int].machine_id@));
            }
            if same_text(self.tabs[i].machine_id.as_str(), selected_machine_id) {
                offered = true;
            }
            i = i + 1;
        }
        proof {
            assert(tabs_view(self.tabs@).take(self.tabs@.len() as int) =~= tabs_view(self.tabs@));
        }
        Some(RemoteSync { stopped, forgotten, starts, tabs_moved: moved, select_local: moved && !offered })
    }
}

} // verus!

verus! {

impl RemoteClients {
    /// Makes ready a start of `machine_id`'s client against `port` and `token`: the entry is
    /// created on first sight, any running client is let go, the target is taken, a pending
    /// backoff is cleared and the generation moves on. Gives the new generation.
    pub fn begin_client_start(&mut self, machine_id: &str, port: u16, token: &str) -> (generation: u64)
        requires
            old(self).clients.well_formed(),
            forall|k: Seq<char>| #[trigger] old(self).clients.as_map().contains_key(k)
                ==> old(self).clients.as_map()[k].generation < u64::MAX,
        ensures
            final(self).clients.well_formed(),
            final(self).clients.as_map().contains_key(machine_id@),
            ({
                let c = final(self).clients.as_map()[machine_id@];
                &&& !c.running
                &&& c.port == port
                &&& c.token@ == token@
                &&& c.restart_due_ms is None
                &&& c.generation == generation
                &&& generation == match old(self).clients.as_map().get(machine_id@) {
                    Some(p) => p.generation + 1,
                    None => 1,
                }
                &&& c.started_at_ms == match old(self).clients.as_map().get(machine_id@) {
                    Some(p) => p.started_at_ms,
                    None => None,
                }
                &&& c.restart_attempt == match old(self).clients.as_map().get(machine_id@) {
                    Some(p) => p.restart_attempt,
                    None => 0,
                }
            }),
            forall|k: Seq<char>|
                k != machine_id@ ==> final(self).clients.as_map().get(k) == old(
                    self,
                ).clients.as_map().get(k),
            final(self).counters == old(self).counters,
    {
        let (at, found) = self.clients.locate(machine_id);
        if found {
            proof {
                self.clients.lemma_key_index(at as int);
            }
            let c = &self.clients.entries[at].1;
            let generation = c.generation + 1;
            let next = RemoteClient {
                running: false,
                port,
                token: String::from_str(token),
                generation,
                started_at_ms: c.started_at_ms,
                restart_attempt: c.restart_attempt,
                restart_due_ms: None,
            };
            self.clients.set_value_at(at, next);
            generation
        } else {
            proof {
                assert(!self.clients.as_map().contains_key(machine_id@));
            }
            let fresh = RemoteClient {
                running: false,
                port,
                token: String::from_str(token),
                generation: 1,
                started_at_ms: None,
                restart_attempt: 0,
                restart_due_ms: None,
            };
            self.clients.insert_new(String::from_str(machine_id), fresh);
            1
        }
    }

    /// The client of `machine_id` started at `now_ms`.
    pub fn note_client_started(&mut self, machine_id: &str, now_ms: u64)
        requires
            old(self).clients.well_formed(),
            old(self).counters.starts < u64::MAX,
        ensures
            final(self).clients.well_formed(),
            match old(self).clients.as_map().get(machine_id@) {
                Some(c) => final(self).clients.as_map() == old(self).clients.as_map().insert(
                    machine_id@,
                    RemoteClient { running: true, started_at_ms: Some(now_ms), ..c },
                ) && final(self).counters.starts == old(self).counters.starts + 1,
                None => final(self).clients.as_map() == old(self).clients.as_map()
                    && final(self).counters == old(self).counters,
            },
    {
        let (at, found) = self.clients.locate(machine_id);
        if !found {
            proof {
                assert(!self.clients.as_map().contains_key(machine_id@));
            }
            return;
        }
        proof {
            self.clients.lemma_key_index(at as int);
        }
        let c = &self.clients.entries[at].1;
        let next = RemoteClient {
            running: true,
            port: c.port,
            token: c.token.clone(),
            generation: c.generation,
            started_at_ms: Some(now_ms),
            restart_attempt: c.restart_attempt,
            restart_due_ms: c.restart_due_ms,
        };
        self.clients.set_value_at(at, next);
        self.counters.starts = self.counters.starts + 1;
    }

    /// Whether a restart timer of `generation` for `machine_id` is out of date: the machine has no
    /// client any more, a newer one took over, or one runs already.
    pub fn restart_is_stale(&self, machine_id: &str, generation: u64) -> (stale: bool)
        requires
            self.clients.well_formed(),
        ensures
            stale == match self.clients.as_map().get(machine_id@) {
                Some(c) => c.generation != generation || c.running,
                None => true,
            },
    {
        let (at, found) = self.clients.locate(machine_id);
        if !found {
            proof {
                assert(!self.clients.as_map().contains_key(machine_id@));
            }
            return true;
        }
        proof {
            self.clients.lemma_key_index(at as int);
        }
        let c = &self.clients.entries[at].1;
        c.generation != generation || c.running
    }

    /// The thread of `machine_id`'s client of `generation` ended at `now_ms`. Nothing to do when
    /// that client was replaced or let go on purpose (`None`); otherwise it is retired and counted,
    /// and its replacement is due after the next rung of the ladder, which is given.
    pub fn gx_store_remote_thread_ended(&mut self, machine_id: &str, generation: u64, now_ms: u64) -> (
        delay: Option<u64>)
        requires
            old(self).clients.well_formed(),
            old(self).counters.thread_exits < u64::MAX,
            now_ms <= u64::MAX - 60000,
        ensures
            final(self).clients.well_formed(),
            match old(self).clients.as_map().get(machine_id@) {
                Some(c) if c.generation == generation && c.running => {
                    let attempt = restart_attempt_of(c, now_ms);
                    &&& delay == Some(backoff_of(attempt))
                    &&& final(self).counters.thread_exits == old(self).counters.thread_exits + 1
                    &&& final(self).clients.as_map() == old(self).clients.as_map().insert(
                        machine_id@,
                        RemoteClient {
                            running: false,
                            started_at_ms: None,
                            restart_attempt: if attempt + 1 > u32::MAX {
                                u32::MAX
                            } else {
                                (attempt + 1) as u32
                            },
                            restart_due_ms: Some((now_ms + backoff_of(attempt)) as u64),
                            ..c
                        },
                    )
                },
                _ => delay is None && final(self).clients.as_map() == old(self).clients.as_map()
                    && final(self).counters == old(self).counters,
            },
    {
        let (at, found) = self.clients.locate(machine_id);
        if !found {
            proof {
                assert(!self.clients.as_map().contains_key(machine_id@));
            }
            return None;
        }
        proof {
            self.clients.lemma_key_index(at as int);
        }
        let c = &self.clients.entries[at].1;
        if c.generation != generation || !c.running {
            return None;
        }
        self.counters.thread_exits = self.counters.thread_exits + 1;
        let retired = RemoteClient {
            running: false,
            port: c.port,
            token: c.token.clone(),
            generation: c.generation,
            started_at_ms: c.started_at_ms,
            restart_attempt: c.restart_attempt,
            restart_due_ms: None,
        };
        let ghost before = self.clients.as_map();
        self.clients.set_value_at(at, retired);
        let delay = self.next_restart_delay(machine_id, now_ms);
        proof {
            assert(self.clients.as_map() =~= before.insert(
                machine_id@,
                self.clients.as_map()[machine_id@],
            ));
        }
        Some(delay)
    }
}

/// The machine a saved entry of `remoteMachines` puts in the sidebar, with the name it carries: none
/// for an entry marked `disabled` or with no `id` text that trims to something; the name is the
/// trimmed `name` text, else the id.
pub open spec fn enabled_machine_of(entry: Json) -> Option<(Seq<char>, Seq<char>)> {
    if is_true(get_of(entry, "disabled"@)) {
        None
    } else {
        match text_of(get_of(entry, "id"@)) {
            Some(raw) => {
                let id = trimmed(raw);
                if id.len() == 0 {
                    None
                } else {
                    let label = match text_of(get_of(entry, "name"@)) {
                        Some(n) => if trimmed(n).len() > 0 {
                            trimmed(n)
                        } else {
                            id
                        },
                        None => id,
                    };
                    Some((id, label))
                }
            },
            None => None,
        }
    }
}

/// The machines the saved entries put in the sidebar, in settings order.
pub open spec fn enabled_machines_of(entries: Seq<Json>) -> Seq<(Seq<char>, Seq<char>)>
    decreases entries.len(),
{
    if entries.len() == 0 {
        Seq::empty()
    } else {
        let rest = enabled_machines_of(entries.drop_last());
        match enabled_machine_of(entries.last()) {
            Some(m) => rest.push(m),
            None => rest,
        }
    }
}

/// The elements of a value that is an array; none for any other value.
pub open spec fn list_of(value: Option<Json>) -> Seq<Json> {
    match value {
        Some(Json::Array(e)) => e@,
        _ => Seq::empty(),
    }
}

/// The view of a list of machines and names.
pub open spec fn named_view(v: Seq<(String, String)>) -> Seq<(Seq<char>, Seq<char>)> {
    v.map_values(|m: (String, String)| (m.0@, m.1@))
}

/// The machine one saved entry puts in the sidebar.
fn enabled_machine(entry: &Json) -> (found: Option<(String, String)>)
    ensures
        match found {
            Some(m) => enabled_machine_of(*entry) == Some((m.0@, m.1@)),
            None => enabled_machine_of(*entry) is None,
        },
{
    if as_true(get(entry, "disabled")) {
        return None;
    }
    let raw = match as_text(get(entry, "id")) {
        Some(raw) => raw,
        None => return None,
    };
    let id = trim_text(raw);
    if id.as_str().unicode_len() == 0 {
        return None;
    }
    let label = match as_text(get(entry, "name")) {
        Some(n) => {
            let name = trim_text(n);
            if name.as_str().unicode_len() > 0 {
                name
            } else {
                id.clone()
            }
        },
        None => id.clone(),
    };
    Some((id, label))
}

/// The remote machines the user has enabled in the sidebar, in settings order, each with the name
/// it carries: a machine marked `disabled` stays saved and is kept out of the sidebar.
/// `remote_machines` is the settings' `remoteMachines` value.
pub fn enabled_remote_machines(remote_machines: Option<&Json>) -> (machines: Vec<(String, String)>)
    ensures
        named_view(machines@) == enabled_machines_of(list_of(match remote_machines {
            Some(j) => Some(*j),
            None => None,
        })),
{
    let mut machines: Vec<(String, String)> = Vec::new();
    let list = match remote_machines {
        Some(Json::Array(list)) => list,
        _ => {
            proof {
                assert(named_view(machines@) =~= Seq::<(Seq<char>, Seq<char>)>::empty());
            }
            return machines;
        },
    };
    let mut i: usize = 0;
    proof {
        assert(named_view(machines@) =~= enabled_machines_of(list@.take(0)));
    }
    while i < list.len()
        invariant
            0 <= i <= list@.len(),
            named_view(machines@) == enabled_machines_of(list@.take(i as int)),
        decreases list@.len() - i,
    {
        proof {
            assert(list@.take(i + 1).drop_last() =~= list@.take(i as int));
            assert(list@.take(i + 1).last() == list@[i as int]);
        }
        let ghost before = machines@;
        match enabled_machine(&list[i]) {
            Some(m) => {
                machines.push(m);
                proof {
                    assert(named_view(machines@) =~= named_view(before).push((m.0@, m.1@)));
                }
            },
            None => {},
        }
        i = i + 1;
    }
    proof {
        assert(list@.take(list@.len() as int) =~= list@);
    }
    machines
}

} // verus!
