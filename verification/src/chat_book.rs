//! The chat host thread's book of its chats: which view each chat's frames go to, when each chat's
//! timer and retry ladder next wake it, what it parked, delivered and still owes a view, and which
//! chats were disabled after their brain panicked. The thread's loop reads it to know how long to
//! wait, and each command and each timer pass changes it.

use vstd::prelude::*;

use crate::chat_host::{hold, HoldOutcome, ParkedHandoff, WakePlan, MAX_HELD_REQUESTS};
use crate::effects::HostRequest;
use crate::keyed::{key_less, keys_of, lemma_key_less_transitive, strictly_increasing, KeyedMap};

verus! {

broadcast use vstd::string::group_string_axioms;

/// The wakes of `entries` that are not due at `now`, in order.
pub open spec fn pending_wakes(entries: Seq<(String, u64)>, now: u64) -> Seq<(String, u64)>
    decreases entries.len(),
{
    if entries.len() == 0 {
        Seq::empty()
    } else {
        let rest = pending_wakes(entries.drop_last(), now);
        if entries.last().1 > now {
            rest.push(entries.last())
        } else {
            rest
        }
    }
}

/// The chats whose wake in `entries` is due at `now`, in order.
pub open spec fn due_chats(entries: Seq<(String, u64)>, now: u64) -> Seq<Seq<char>>
    decreases entries.len(),
{
    if entries.len() == 0 {
        Seq::empty()
    } else {
        let rest = due_chats(entries.drop_last(), now);
        if entries.last().1 <= now {
            rest.push(entries.last().0@)
        } else {
            rest
        }
    }
}

/// The earliest wake of `entries`.
pub open spec fn earliest(entries: Seq<(String, u64)>) -> Option<u64>
    decreases entries.len(),
{
    if entries.len() == 0 {
        None
    } else {
        let at = entries.last().1;
        match earliest(entries.drop_last()) {
            Some(e) => Some(if at < e {
                at
            } else {
                e
            }),
            None => Some(at),
        }
    }
}

/// The earlier of two optional wakes.
pub open spec fn earlier(a: Option<u64>, b: Option<u64>) -> Option<u64> {
    match (a, b) {
        (Some(x), Some(y)) => Some(if x < y {
            x
        } else {
            y
        }),
        (Some(x), None) => Some(x),
        (None, y) => y,
    }
}

/// A timer pass splits the wakes exactly: every wake left behind is still in the future, every
/// wake not yet due is left behind, every due one's chat is taken, and none is both.
pub proof fn law_timer_pass_takes_exactly_the_due_wakes(entries: Seq<(String, u64)>, now: u64)
    ensures
        forall|j: int|
            0 <= j < pending_wakes(entries, now).len() ==> #[trigger] pending_wakes(entries, now)[j].1
                > now,
        forall|i: int|
            0 <= i < entries.len() && entries[i].1 > now ==> pending_wakes(entries, now).contains(
                #[trigger] entries[i],
            ),
        forall|i: int|
            0 <= i < entries.len() && entries[i].1 <= now ==> due_chats(entries, now).contains(
                (#[trigger] entries[i]).0@,
            ),
        pending_wakes(entries, now).len() + due_chats(entries, now).len() == entries.len(),
    decreases entries.len(),
{
    if entries.len() > 0 {
        let rest = entries.drop_last();
        law_timer_pass_takes_exactly_the_due_wakes(rest, now);
        let pending = pending_wakes(entries, now);
        let due = due_chats(entries, now);
        assert forall|i: int| 0 <= i < entries.len() && entries[i].1 > now implies pending.contains(
            #[trigger] entries[i],
        ) by {
            if i < entries.len() - 1 {
                assert(rest[i] == entries[i]);
                let j = choose|j: int|
                    0 <= j < pending_wakes(rest, now).len() && pending_wakes(rest, now)[j] == rest[i];
                if entries.last().1 > now {
                    assert(pending[j] == rest[i]);
                }
            } else {
                assert(pending.last() == entries[i]);
            }
        }
        assert forall|i: int| 0 <= i < entries.len() && entries[i].1 <= now implies due.contains(
            (#[trigger] entries[i]).0@,
        ) by {
            if i < entries.len() - 1 {
                assert(rest[i] == entries[i]);
                let j = choose|j: int|
                    0 <= j < due_chats(rest, now).len() && due_chats(rest, now)[j] == rest[i].0@;
                if entries.last().1 <= now {
                    assert(due[j] == rest[i].0@);
                }
            } else {
                assert(due.last() == entries[i].0@);
            }
        }
    }
}

/// Takes the due wakes out of `wakes`: the chats they belong to come back in key order, and every
/// wake not yet due stays as it was.
pub fn take_due(wakes: &mut KeyedMap<u64>, now_ms: u64) -> (due: Vec<String>)
    requires
        old(wakes).well_formed(),
    ensures
        final(wakes).well_formed(),
        final(wakes).entries@ == pending_wakes(old(wakes).entries@, now_ms),
        due@.map_values(|k: String| k@) == due_chats(old(wakes).entries@, now_ms),
{
    let ghost all = wakes.entries@;
    let mut kept: Vec<(String, u64)> = Vec::new();
    let mut due: Vec<String> = Vec::new();
    let mut i: usize = 0;
    proof {
        assert(all.take(0) =~= Seq::<(String, u64)>::empty());
        assert(due@.map_values(|k: String| k@) =~= Seq::<Seq<char>>::empty());
    }
    while i < wakes.entries.len()
        invariant
            wakes.entries@ == all,
            strictly_increasing(keys_of(all)),
            0 <= i <= all.len(),
            kept@ == pending_wakes(all.take(i as int), now_ms),
            due@.map_values(|k: String| k@) == due_chats(all.take(i as int), now_ms),
            strictly_increasing(keys_of(kept@)),
            i < all.len() ==> forall|j: int|
                0 <= j < kept@.len() ==> key_less(#[trigger] kept@[j].0@, all[i as int].0@),
        decreases all.len() - i,
    {
        proof {
            assert(all.take(i + 1).drop_last() =~= all.take(i as int));
            assert(all.take(i + 1).last() == all[i as int]);
        }
        let key = wakes.entries[i].0.clone();
        let at = wakes.entries[i].1;
        let ghost before_kept = kept@;
        let ghost before_due = due@;
        if at > now_ms {
            kept.push((key, at));
            proof {
                assert(kept@ == before_kept.push(all[i as int]));
                assert forall|a: int, b: int|
                    0 <= a < b < keys_of(kept@).len() implies key_less(
                    keys_of(kept@)[a],
                    keys_of(kept@)[b],
                ) by {
                    if b == kept@.len() - 1 {
                        assert(key_less(before_kept[a].0@, all[i as int].0@));
                    } else {
                        assert(keys_of(before_kept)[a] == keys_of(kept@)[a]);
                        assert(keys_of(before_kept)[b] == keys_of(kept@)[b]);
                    }
                }
            }
        } else {
            due.push(key);
            proof {
                assert(due@.map_values(|k: String| k@) =~= before_due.map_values(|k: String| k@).push(
                    all[i as int].0@,
                ));
            }
        }
        proof {
            if i + 1 < all.len() {
                assert(key_less(keys_of(all)[i as int], keys_of(all)[i + 1]));
                assert forall|j: int| 0 <= j < kept@.len() implies key_less(
                    #[trigger] kept@[j].0@,
                    all[i + 1].0@,
                ) by {
                    if j < before_kept.len() {
                        assert(kept@[j] == before_kept[j]);
                        assert(key_less(before_kept[j].0@, all[i as int].0@));
                        lemma_key_less_transitive(kept@[j].0@, all[i as int].0@, all[i + 1].0@);
                    }
                }
            }
        }
        i = i + 1;
    }
    proof {
        assert(all.take(all.len() as int) =~= all);
    }
    wakes.entries = kept;
    due
}

/// The host thread's book of its chats.
pub struct ChatBook {
    /// The sink id of each chat's attached view.
    pub sinks: KeyedMap<u64>,
    /// When each chat's own timer next fires, in milliseconds.
    pub wakes: KeyedMap<u64>,
    /// When each chat's retry ladder next drains its outbox, in milliseconds.
    pub retry_wakes: KeyedMap<u64>,
    /// The chats with a retry worker registered.
    pub draft_workers: KeyedMap<()>,
    /// The park answer each handoff still owes its request.
    pub parked: KeyedMap<ParkedHandoff>,
    /// The delivery receipts already written, per chat.
    pub delivered: KeyedMap<KeyedMap<()>>,
    /// What each chat with no attached view owes one.
    pub held_requests: KeyedMap<Vec<HostRequest>>,
    /// The chats whose brain panicked: never rebuilt.
    pub disabled: KeyedMap<()>,
    /// The chat the thread is working on.
    pub driving: Option<String>,
    pub panics: u64,
    pub chats_disabled: u64,
    /// Calls from a view that raised no event for the chat.
    pub actions_unrouted: u64,
    /// Storage reads and writes the record store refused.
    pub storage_refused: u64,
}

/// What a view of a chat whose brain panicked is told, in place of the chat.
pub const HOST_PANIC_MESSAGE: &'static str =
    "Chat could not be shown. Set Chat brain back to QuickJS in Settings, or restart Ghostex.";

/// A chat whose brain panicked and that no view draws.
pub open spec fn shut(b: ChatBook, key: Seq<char>) -> bool {
    b.disabled.as_map().contains_key(key) && !b.sinks.as_map().contains_key(key)
}

/// Every chat shut in `before` is still shut in `after`.
pub open spec fn keeps_shut_chats(before: ChatBook, after: ChatBook) -> bool {
    forall|k: Seq<char>| shut(before, k) ==> #[trigger] shut(after, k)
}

/// A chat whose brain panicked stays shut through any run of the book's operations: each of them
/// keeps the shut chats shut, so a whole command, whatever operations it makes, does too.
pub proof fn law_shut_chats_stay_shut_through_any_run(books: Seq<ChatBook>, key: Seq<char>)
    requires
        books.len() > 0,
        forall|i: int| 0 <= i < books.len() - 1 ==> keeps_shut_chats(#[trigger] books[i], books[i + 1]),
        shut(books[0], key),
    ensures
        shut(books.last(), key),
    decreases books.len(),
{
    if books.len() > 1 {
        let init = books.drop_last();
        assert forall|i: int| 0 <= i < init.len() - 1 implies keeps_shut_chats(#[trigger] init[i], init[i + 1]) by {
            assert(init[i] == books[i] && init[i + 1] == books[i + 1]);
        }
        law_shut_chats_stay_shut_through_any_run(init, key);
        assert(keeps_shut_chats(books[books.len() - 2], books[books.len() - 1]));
    }
}

/// Every map of the book is well formed.
pub open spec fn book_well_formed(b: ChatBook) -> bool {
    &&& b.sinks.well_formed()
    &&& b.wakes.well_formed()
    &&& b.retry_wakes.well_formed()
    &&& b.draft_workers.well_formed()
    &&& b.parked.well_formed()
    &&& b.delivered.well_formed()
    &&& b.held_requests.well_formed()
    &&& b.disabled.well_formed()
}

/// Everything keyed by one chat, forgotten.
pub open spec fn purged(before: ChatBook, after: ChatBook, key: Seq<char>) -> bool {
    &&& after.wakes.as_map() == before.wakes.as_map().remove(key)
    &&& after.retry_wakes.as_map() == before.retry_wakes.as_map().remove(key)
    &&& after.draft_workers.as_map() == before.draft_workers.as_map().remove(key)
    &&& after.parked.as_map() == before.parked.as_map().remove(key)
    &&& after.delivered.as_map() == before.delivered.as_map().remove(key)
    &&& after.held_requests.as_map() == before.held_requests.as_map().remove(key)
}

/// The book's maps other than the view sinks and the disabled chats, unchanged.
pub open spec fn chat_maps_kept(before: ChatBook, after: ChatBook) -> bool {
    &&& after.wakes.as_map() == before.wakes.as_map()
    &&& after.retry_wakes.as_map() == before.retry_wakes.as_map()
    &&& after.draft_workers.as_map() == before.draft_workers.as_map()
    &&& after.parked.as_map() == before.parked.as_map()
    &&& after.delivered.as_map() == before.delivered.as_map()
    &&& after.held_requests.as_map() == before.held_requests.as_map()
}

/// The book after a view attached to a chat: the view replaces any earlier one, the chat's retry
/// worker is registered and its retry ladder is due now; nothing else moves.
pub open spec fn attached_book(
    before: ChatBook,
    after: ChatBook,
    key: Seq<char>,
    sink: u64,
    now_ms: u64,
) -> bool {
    &&& after.sinks.as_map() == before.sinks.as_map().insert(key, sink)
    &&& after.retry_wakes.as_map() == before.retry_wakes.as_map().insert(key, now_ms)
    &&& after.draft_workers.as_map() == before.draft_workers.as_map().insert(key, ())
    &&& after.wakes.as_map() == before.wakes.as_map()
    &&& after.parked.as_map() == before.parked.as_map()
    &&& after.delivered.as_map() == before.delivered.as_map()
    &&& after.held_requests.as_map() == before.held_requests.as_map()
    &&& after.disabled == before.disabled
    &&& after.driving == before.driving
    &&& after.panics == before.panics
    &&& after.chats_disabled == before.chats_disabled
}

impl ChatBook {
    /// A book with no chat in it.
    pub fn new() -> (book: Self)
        ensures
            book_well_formed(book),
            book.sinks.as_map().is_empty(),
            book.wakes.as_map().is_empty(),
            book.disabled.as_map().is_empty(),
            book.sinks.entries@.len() == 0 && book.wakes.entries@.len() == 0,
            book.retry_wakes.entries@.len() == 0 && book.draft_workers.entries@.len() == 0,
            book.parked.entries@.len() == 0 && book.delivered.entries@.len() == 0,
            book.held_requests.entries@.len() == 0 && book.disabled.entries@.len() == 0,
            book.driving is None,
            book.panics == 0,
            book.chats_disabled == 0,
            book.actions_unrouted == 0,
            book.storage_refused == 0,
    {
        let book = ChatBook {
            sinks: KeyedMap::new(),
            wakes: KeyedMap::new(),
            retry_wakes: KeyedMap::new(),
            draft_workers: KeyedMap::new(),
            parked: KeyedMap::new(),
            delivered: KeyedMap::new(),
            held_requests: KeyedMap::new(),
            disabled: KeyedMap::new(),
            driving: None,
            panics: 0,
            chats_disabled: 0,
            actions_unrouted: 0,
            storage_refused: 0,
        };
        proof {
            assert(book.sinks.as_map() =~= Map::empty());
            assert(book.wakes.as_map() =~= Map::empty());
            assert(book.disabled.as_map() =~= Map::empty());
        }
        book
    }

    /// How long the thread may wait for a command before a timer or a retry ladder is due: until
    /// the earliest wake of either, nothing where none is booked, and no time at all for one
    /// already due.
    pub fn next_wait(&self, now_ms: u64) -> (wait: Option<u64>)
        ensures
            wait == match earlier(earliest(self.wakes.entries@), earliest(self.retry_wakes.entries@)) {
                Some(at) => Some(if at > now_ms {
                    (at - now_ms) as u64
                } else {
                    0u64
                }),
                None => None,
            },
    {
        let a = earliest_of(&self.wakes.entries);
        let b = earliest_of(&self.retry_wakes.entries);
        let at = match (a, b) {
            (Some(x), Some(y)) => Some(if x < y {
                x
            } else {
                y
            }),
            (Some(x), None) => Some(x),
            (None, y) => y,
        };
        match at {
            Some(at) => Some(if at > now_ms {
                at - now_ms
            } else {
                0
            }),
            None => None,
        }
    }

    /// Attaches a view to a chat. A chat whose brain panicked is not rebuilt: the view is refused
    /// with [`HOST_PANIC_MESSAGE`], told again rather than left drawing an empty pane. Otherwise
    /// the view replaces any
    /// earlier one, the chat's retry worker is registered, and its retry ladder is due at once,
    /// so a save a previous run could not deliver goes out.
    pub fn attach(&mut self, key: &str, sink: u64, now_ms: u64) -> (refusal: Option<&'static str>)
        requires
            book_well_formed(*old(self)),
        ensures
            book_well_formed(*final(self)),
            refusal == if old(self).disabled.as_map().contains_key(key@) {
                Some(HOST_PANIC_MESSAGE)
            } else {
                None::<&'static str>
            },
            refusal is Some ==> *final(self) == *old(self),
            refusal is None ==> attached_book(*old(self), *final(self), key@, sink, now_ms),
            keeps_shut_chats(*old(self), *final(self)),
    {
        if self.disabled.index_of(key).is_some() {
            return Some(HOST_PANIC_MESSAGE);
        }
        self.sinks.put(key, sink);
        self.draft_workers.put(key, ());
        self.retry_wakes.put(key, now_ms);
        None
    }

    /// Detaches a view, when it is still the one attached to the chat; a replaced view's late
    /// detach changes nothing.
    pub fn detach(&mut self, key: &str, sink: u64) -> (released: bool)
        requires
            book_well_formed(*old(self)),
        ensures
            book_well_formed(*final(self)),
            released == (old(self).sinks.as_map().contains_key(key@) && old(self).sinks.as_map()[key@]
                == sink),
            released ==> final(self).sinks.as_map() == old(self).sinks.as_map().remove(key@),
            !released ==> final(self).sinks == old(self).sinks,
            chat_maps_kept(*old(self), *final(self)),
            final(self).disabled == old(self).disabled,
            final(self).driving == old(self).driving,
            keeps_shut_chats(*old(self), *final(self)),
    {
        let held = match self.sinks.get(key) {
            Some(held) => *held,
            None => return false,
        };
        if held != sink {
            return false;
        }
        self.sinks.remove(key);
        true
    }

    /// Books what a `SetTimer` effect asks of a chat's timer.
    pub fn set_timer(&mut self, key: &str, plan: WakePlan, now_ms: u64)
        requires
            book_well_formed(*old(self)),
            plan matches WakePlan::After(d) ==> now_ms + d <= u64::MAX,
        ensures
            book_well_formed(*final(self)),
            final(self).wakes.as_map() == match plan {
                WakePlan::After(d) => old(self).wakes.as_map().insert(key@, (now_ms + d) as u64),
                WakePlan::Cancel => old(self).wakes.as_map().remove(key@),
            },
            final(self).sinks == old(self).sinks,
            final(self).retry_wakes == old(self).retry_wakes,
            final(self).disabled == old(self).disabled,
            keeps_shut_chats(*old(self), *final(self)),
    {
        match plan {
            WakePlan::After(d) => self.wakes.put(key, now_ms + d),
            WakePlan::Cancel => {
                self.wakes.remove(key);
            },
        }
    }

    /// Forgets everything keyed by one chat, so no map outlives the chat it belongs to.
    pub fn purge(&mut self, key: &str)
        requires
            book_well_formed(*old(self)),
        ensures
            book_well_formed(*final(self)),
            purged(*old(self), *final(self), key@),
            final(self).sinks == old(self).sinks,
            final(self).disabled == old(self).disabled,
            final(self).driving == old(self).driving,
            final(self).panics == old(self).panics,
            final(self).chats_disabled == old(self).chats_disabled,
            keeps_shut_chats(*old(self), *final(self)),
    {
        self.wakes.remove(key);
        self.retry_wakes.remove(key);
        self.draft_workers.remove(key);
        self.parked.remove(key);
        self.delivered.remove(key);
        self.held_requests.remove(key);
    }

    /// Drops the chat the thread was working on when its brain panicked: everything keyed by it
    /// is forgotten, it joins the disabled chats, and its view is detached, to be told. A panic
    /// that belongs to no chat is still counted.
    pub fn disable_chat(&mut self) -> (dropped: Option<(String, Option<u64>)>)
        requires
            book_well_formed(*old(self)),
            old(self).panics < u64::MAX,
            old(self).chats_disabled < u64::MAX,
        ensures
            book_well_formed(*final(self)),
            final(self).panics == old(self).panics + 1,
            final(self).driving is None,
            match old(self).driving {
                None => dropped is None && final(self).chats_disabled == old(self).chats_disabled
                    && final(self).sinks == old(self).sinks && final(self).disabled == old(self).disabled && chat_maps_kept(*old(self), *final(self)),
                Some(k) => dropped matches Some((key, sink)) && key@ == k@ && final(self).chats_disabled == old(self).chats_disabled + 1 && purged(
                    *old(self),
                    *final(self),
                    k@,
                ) && final(self).disabled.as_map() == old(self).disabled.as_map().insert(k@, ())
                    && final(self).sinks.as_map() == old(self).sinks.as_map().remove(k@) && match sink {
                    Some(s) => old(self).sinks.as_map().contains_key(k@) && old(self).sinks.as_map()[k@]
                        == s,
                    None => !old(self).sinks.as_map().contains_key(k@),
                },
            },
            keeps_shut_chats(*old(self), *final(self)),
    {
        self.panics = self.panics + 1;
        let driving = self.driving.take();
        match driving {
            None => None,
            Some(key) => {
                self.purge(key.as_str());
                self.disabled.put(key.as_str(), ());
                let sink = self.sinks.remove(key.as_str());
                self.chats_disabled = self.chats_disabled + 1;
                Some((key, sink))
            },
        }
    }
}

impl ChatBook {
    /// A view's call raised `events` events for its chat: one that raised none is counted as
    /// unrouted. Nothing else moves.
    pub fn note_call_events(&mut self, events: usize)
        requires
            old(self).actions_unrouted < u64::MAX,
        ensures
            *final(self) == (ChatBook {
                actions_unrouted: if events == 0 {
                    (old(self).actions_unrouted + 1) as u64
                } else {
                    old(self).actions_unrouted
                },
                ..*old(self)
            }),
            keeps_shut_chats(*old(self), *final(self)),
    {
        if events == 0 {
            self.actions_unrouted = self.actions_unrouted + 1;
        }
    }

    /// The record store refused `refused` of the reads and writes one effect made. Nothing else
    /// moves.
    pub fn note_storage_refusals(&mut self, refused: u64)
        requires
            old(self).storage_refused + refused <= u64::MAX,
        ensures
            *final(self) == (ChatBook {
                storage_refused: (old(self).storage_refused + refused) as u64,
                ..*old(self)
            }),
            keeps_shut_chats(*old(self), *final(self)),
    {
        self.storage_refused = self.storage_refused + refused;
    }
}

/// What a chat holds for a view, as a sequence: nothing where it holds no list.
pub open spec fn held_of(m: Map<Seq<char>, Vec<HostRequest>>, key: Seq<char>) -> Seq<HostRequest> {
    if m.contains_key(key) {
        m[key]@
    } else {
        Seq::empty()
    }
}

impl ChatBook {
    /// What a chat owed a view it did not have, in the order it was raised; the chat owes it no
    /// longer once it is handed out.
    pub fn take_held(&mut self, key: &str) -> (held: Vec<HostRequest>)
        requires
            book_well_formed(*old(self)),
        ensures
            book_well_formed(*final(self)),
            held@ == held_of(old(self).held_requests.as_map(), key@),
            final(self).held_requests.as_map() == old(self).held_requests.as_map().remove(key@),
            final(self).sinks == old(self).sinks,
            final(self).wakes == old(self).wakes,
            final(self).retry_wakes == old(self).retry_wakes,
            final(self).disabled == old(self).disabled,
            keeps_shut_chats(*old(self), *final(self)),
    {
        match self.held_requests.remove(key) {
            Some(held) => held,
            None => Vec::new(),
        }
    }

    /// Keeps what a chat with no attached view owes one. Past [`MAX_HELD_REQUESTS`] the whole chat
    /// is released rather than single requests dropped: everything keyed by it is forgotten, and
    /// the caller drops it from the store.
    pub fn hold_requests(&mut self, key: &str, requests: Vec<HostRequest>) -> (outcome: HoldOutcome)
        requires
            book_well_formed(*old(self)),
        ensures
            book_well_formed(*final(self)),
            final(self).sinks == old(self).sinks,
            final(self).disabled == old(self).disabled,
            final(self).driving == old(self).driving,
            ({
                let before = held_of(old(self).held_requests.as_map(), key@);
                if requests@.len() == 0 {
                    outcome is Held && *final(self) == *old(self)
                } else if before.len() + requests@.len() <= MAX_HELD_REQUESTS {
                    &&& outcome is Held
                    &&& final(self).held_requests.as_map().contains_key(key@)
                    &&& final(self).held_requests.as_map()[key@]@ == before + requests@
                    &&& final(self).held_requests.as_map().remove(key@)
                        == old(self).held_requests.as_map().remove(key@)
                    &&& final(self).wakes == old(self).wakes
                    &&& final(self).retry_wakes == old(self).retry_wakes
                } else {
                    &&& outcome == (HoldOutcome::Released {
                        forgotten: (before.len() + requests@.len()) as u64,
                    })
                    &&& purged(*old(self), *final(self), key@)
                }
            }),
            keeps_shut_chats(*old(self), *final(self)),
    {
        if requests.len() == 0 {
            return HoldOutcome::Held;
        }
        let ghost start = *self;
        let mut held = match self.held_requests.remove(key) {
            Some(held) => held,
            None => Vec::new(),
        };
        let outcome = hold(&mut held, requests);
        match outcome {
            HoldOutcome::Held => {
                self.held_requests.put(key, held);
                proof {
                    assert(self.held_requests.as_map().remove(key@) =~= start.held_requests.as_map().remove(
                        key@,
                    ));
                }
                HoldOutcome::Held
            },
            HoldOutcome::Released { forgotten } => {
                self.purge(key);
                proof {
                    assert(self.held_requests.as_map() =~= start.held_requests.as_map().remove(key@));
                }
                HoldOutcome::Released { forgotten }
            },
        }
    }
}

/// The earliest wake of a map's entries.
fn earliest_of(entries: &Vec<(String, u64)>) -> (at: Option<u64>)
    ensures
        at == earliest(entries@),
{
    let mut best: Option<u64> = None;
    let mut i: usize = 0;
    proof {
        assert(entries@.take(0) =~= Seq::<(String, u64)>::empty());
    }
    while i < entries.len()
        invariant
            0 <= i <= entries@.len(),
            best == earliest(entries@.take(i as int)),
        decreases entries@.len() - i,
    {
        proof {
            assert(entries@.take(i + 1).drop_last() =~= entries@.take(i as int));
            assert(entries@.take(i + 1).last() == entries@[i as int]);
        }
        let at = entries[i].1;
        best = match best {
            Some(e) => Some(if at < e {
                at
            } else {
                e
            }),
            None => Some(at),
        };
        i = i + 1;
    }
    proof {
        assert(entries@.take(entries@.len() as int) =~= entries@);
    }
    best
}

} // verus!
