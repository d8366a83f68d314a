//! The store's own client for the local daemon, as far as the host decides about it: when the
//! client is started again (only when the transport moved), what a burst of its outputs counts,
//! and how long a connection took to load.

use vstd::prelude::*;

use crate::text::same_text;

verus! {

broadcast use vstd::string::group_string_axioms;

/// Where the local daemon is reached, and with which token.
pub struct Transport {
    pub base_url: String,
    pub auth_token: String,
}

/// A transport as the contracts speak of it.
pub open spec fn transport_view(t: Option<Transport>) -> Option<(Seq<char>, Seq<char>)> {
    match t {
        Some(t) => Some((t.base_url@, t.auth_token@)),
        None => None,
    }
}

/// What the counters of the store's client hold.
#[derive(Clone, Copy, Debug, Default, PartialEq, Eq)]
pub struct StoreCounters {
    pub client_starts: u64,
    pub pumps: u64,
    pub events: u64,
    pub largest_burst: u64,
    pub connections_lost: u64,
    pub reloads: u64,
}

/// What the host holds of its client: the transport it was started with, whether a client runs,
/// what it counted, and since when it has been connecting.
pub struct StoreClientBook {
    pub transport: Option<Transport>,
    pub running: bool,
    pub counters: StoreCounters,
    pub connecting_since: Option<u64>,
}

/// What a change of the bootstrap asks of the client.
#[derive(Clone, Copy, Debug, PartialEq, Eq)]
pub enum TransportStep {
    /// The transport is the same: the client runs on.
    Keep,
    /// The transport is gone: the client is stopped and none started.
    Stop,
    /// The transport moved: the client is stopped and a new one started with it.
    Start,
}

/// One connection update of the client, as far as the host counts it.
#[derive(Clone, Copy, Debug, PartialEq, Eq)]
pub enum ConnectionNote {
    Connecting,
    Lost,
    Other,
}

/// Whether two optional transports are the same.
fn same_transport(a: &Option<Transport>, b: &Option<Transport>) -> (same: bool)
    ensures
        same == (transport_view(*a) == transport_view(*b)),
{
    match (a, b) {
        (Some(x), Some(y)) => same_text(x.base_url.as_str(), y.base_url.as_str()) && same_text(
            x.auth_token.as_str(),
            y.auth_token.as_str(),
        ),
        (None, None) => true,
        _ => false,
    }
}

impl StoreClientBook {
    /// Takes in the bootstrap's transport. Only a transport that moved stops the client; the core
    /// and its rows survive, and the new client subscribes with the revision the store holds.
    pub fn sync_transport(&mut self, next: Option<Transport>) -> (step: TransportStep)
        ensures
            transport_view(old(self).transport) == transport_view(next) ==> step == TransportStep::Keep
                && final(self).running == old(self).running && transport_view(final(self).transport)
                == transport_view(old(self).transport),
            transport_view(old(self).transport) != transport_view(next) ==> !final(self).running
                && transport_view(final(self).transport) == transport_view(next) && step == (if next
                is None {
                TransportStep::Stop
            } else {
                TransportStep::Start
            }),
            final(self).counters == old(self).counters,
            final(self).connecting_since == old(self).connecting_since,
    {
        if same_transport(&self.transport, &next) {
            return TransportStep::Keep;
        }
        self.running = false;
        let stop = next.is_none();
        self.transport = next;
        if stop {
            TransportStep::Stop
        } else {
            TransportStep::Start
        }
    }

    /// Takes in how starting the client went: a client that started runs and is counted; one that
    /// did not forgets the transport, so the next bootstrap tries again.
    pub fn client_started(&mut self, started: bool)
        requires
            old(self).counters.client_starts < u64::MAX,
        ensures
            started ==> final(self).running && final(self).counters.client_starts == old(self).counters.client_starts + 1 && transport_view(final(self).transport) == transport_view(
                old(self).transport,
            ),
            !started ==> !final(self).running && final(self).transport is None && final(self).counters == old(self).counters,
            final(self).connecting_since == old(self).connecting_since,
    {
        if started {
            self.running = true;
            self.counters.client_starts = self.counters.client_starts + 1;
        } else {
            self.running = false;
            self.transport = None;
        }
    }

    /// Counts a connection update: the first `connecting` since the last live connection starts
    /// the clock, and a lost connection is counted.
    pub fn note_connection(&mut self, note: ConnectionNote, now_ms: u64)
        requires
            old(self).counters.connections_lost < u64::MAX,
        ensures
            final(self).connecting_since == (if note == ConnectionNote::Connecting
                && old(self).connecting_since is None {
                Some(now_ms)
            } else {
                old(self).connecting_since
            }),
            final(self).counters.connections_lost == old(self).counters.connections_lost + (if note
                == ConnectionNote::Lost {
                1int
            } else {
                0int
            }),
            final(self).counters.pumps == old(self).counters.pumps,
            final(self).counters.events == old(self).counters.events,
            final(self).counters.reloads == old(self).counters.reloads,
            final(self).running == old(self).running,
    {
        match note {
            ConnectionNote::Connecting => {
                if self.connecting_since.is_none() {
                    self.connecting_since = Some(now_ms);
                }
            },
            ConnectionNote::Lost => {
                self.counters.connections_lost = self.counters.connections_lost + 1;
            },
            ConnectionNote::Other => {},
        }
    }

    /// Counts one applied burst of `events` events, and a reload when the burst loaded a machine.
    /// A live connection ends the connecting clock. Returns how long the load took since the
    /// client began connecting, when the burst loaded a machine and that clock runs.
    pub fn note_burst(&mut self, events: u64, reloaded: bool, live: bool, now_ms: u64) -> (since: Option<
        u64,
    >)
        requires
            old(self).counters.pumps < u64::MAX,
            old(self).counters.events + events <= u64::MAX,
            old(self).counters.reloads < u64::MAX,
        ensures
            final(self).counters.pumps == old(self).counters.pumps + 1,
            final(self).counters.events == old(self).counters.events + events,
            final(self).counters.largest_burst == (if events > old(self).counters.largest_burst {
                events
            } else {
                old(self).counters.largest_burst
            }),
            final(self).counters.reloads == old(self).counters.reloads + (if reloaded {
                1int
            } else {
                0int
            }),
            final(self).counters.connections_lost == old(self).counters.connections_lost,
            final(self).connecting_since == (if live {
                None
            } else {
                old(self).connecting_since
            }),
            since == (if reloaded {
                match old(self).connecting_since {
                    Some(at) => Some(if now_ms >= at {
                        (now_ms - at) as u64
                    } else {
                        0u64
                    }),
                    None => None,
                }
            } else {
                None
            }),
    {
        self.counters.pumps = self.counters.pumps + 1;
        self.counters.events = self.counters.events + events;
        if events > self.counters.largest_burst {
            self.counters.largest_burst = events;
        }
        let mut since: Option<u64> = None;
        if reloaded {
            self.counters.reloads = self.counters.reloads + 1;
            since = match self.connecting_since {
                Some(at) => Some(if now_ms >= at {
                    now_ms - at
                } else {
                    0
                }),
                None => None,
            };
        }
        if live {
            self.connecting_since = None;
        }
        since
    }
}

/// Whether an observation of the old runtime's focus started a new wait: a difference is pending
/// now, and not the one that was pending before.
pub fn started_waiting(before: Option<u64>, after: Option<u64>) -> (started: bool)
    ensures
        started == (after is Some && after != before),
{
    match after {
        Some(a) => match before {
            Some(b) => a != b,
            None => true,
        },
        None => false,
    }
}

} // verus!
