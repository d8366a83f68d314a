//! The retained chats: one per session, and the limits that decide how many are kept.
//!
//! A chat nobody is watching is kept for five minutes, and a chat that has outgrown what the store
//! keeps is dropped rather than sliced. Past twelve chats the least recently touched chat nobody is
//! watching goes first. A chat a view is attached to is never dropped by a limit: the view is
//! drawing from it.

use vstd::prelude::*;

use crate::keyed::{KeyedMap, key_less, keys_of, strictly_increasing};

verus! {

/// How many chats are kept at most, while none of the extra ones has a view.
pub const MAX_RETAINED_SESSIONS: usize = 12;

/// How long a chat nobody is watching stays retained, in milliseconds.
pub const IDLE_RETENTION_MS: u64 = 300000;
/// The most messages a retained chat may hold.
pub const MAX_RETAINED_MESSAGES: usize = 1200;
/// The most bytes a retained chat's document may take, counted as two per UTF-16 unit.
pub const MAX_RETAINED_BYTES: u64 = 4194304;
/// How often an idle chat's size is measured again, in milliseconds; measuring walks the whole
/// document.
pub const SIZE_RECHECK_MS: u64 = 5000;

/// What the size limit asks of a chat.
#[derive(Clone, Copy, Debug, PartialEq, Eq)]
pub enum SizeCheck {
    /// Too many messages: outgrown, without measuring.
    Oversized,
    /// Measured too recently to measure again: taken as fitting.
    Fits,
    /// Its document is measured now.
    Measure,
}

/// What the size limit asks of a chat holding `messages` messages, last measured at
/// `measured_at` (milliseconds).
pub fn size_check(messages: usize, measured_at: Option<u64>, now_ms: u64) -> (check: SizeCheck)
    ensures
        check == (if messages > MAX_RETAINED_MESSAGES {
            SizeCheck::Oversized
        } else if measured_at matches Some(at) && elapsed_ms(now_ms, at) < SIZE_RECHECK_MS {
            SizeCheck::Fits
        } else {
            SizeCheck::Measure
        }),
{
    if messages > MAX_RETAINED_MESSAGES {
        return SizeCheck::Oversized;
    }
    match measured_at {
        Some(at) => {
            let elapsed = if now_ms >= at {
                now_ms - at
            } else {
                0
            };
            if elapsed < SIZE_RECHECK_MS {
                SizeCheck::Fits
            } else {
                SizeCheck::Measure
            }
        },
        None => SizeCheck::Measure,
    }
}

/// Whether a measured document is too large: its UTF-16 units, two bytes each, past
/// [`MAX_RETAINED_BYTES`]; a document that could not be written out is taken as fitting.
pub fn measured_oversized(utf16_units: Option<u64>) -> (oversized: bool)
    ensures
        oversized == (utf16_units matches Some(u) && u * 2 > MAX_RETAINED_BYTES),
{
    match utf16_units {
        Some(u) => u > MAX_RETAINED_BYTES / 2,
        None => false,
    }
}

/// One retained chat, as far as retention reads it.
#[derive(Clone, Debug, PartialEq, Eq)]
pub struct Retained {
    /// The storage session key, which the records beside this store are keyed by.
    pub session_key: String,
    /// How many views are watching.
    pub listeners: usize,
    /// When a view last called into it, in milliseconds on the host's clock.
    pub touched_at_ms: u64,
    /// Whether it has outgrown what the store keeps, as last measured.
    pub oversized: bool,
}

/// Every retained chat, keyed by its retention key, and how many a limit has dropped.
pub struct ChatStore {
    pub retained: KeyedMap<Retained>,
    pub evicted: u64,
}

/// How long ago `at` was, never negative.
pub open spec fn elapsed_ms(now_ms: u64, at: u64) -> int {
    if now_ms >= at {
        now_ms - at
    } else {
        0
    }
}

/// A chat nobody is watching that is past its idle time or too large.
pub open spec fn expired(r: Retained, now_ms: u64) -> bool {
    r.listeners == 0 && (elapsed_ms(now_ms, r.touched_at_ms) >= IDLE_RETENTION_MS || r.oversized)
}

/// The entries that survive the expiry pass, in order.
pub open spec fn fresh_entries(s: Seq<(String, Retained)>, now_ms: u64) -> Seq<(String, Retained)>
    decreases s.len(),
{
    if s.len() == 0 {
        Seq::empty()
    } else {
        let rest = fresh_entries(s.drop_last(), now_ms);
        if expired(s.last().1, now_ms) {
            rest
        } else {
            rest.push(s.last())
        }
    }
}

/// The entries the expiry pass drops, in order.
pub open spec fn expired_entries(s: Seq<(String, Retained)>, now_ms: u64) -> Seq<(String, Retained)>
    decreases s.len(),
{
    if s.len() == 0 {
        Seq::empty()
    } else {
        let rest = expired_entries(s.drop_last(), now_ms);
        if expired(s.last().1, now_ms) {
            rest.push(s.last())
        } else {
            rest
        }
    }
}

/// `i` is the least recently touched chat nobody is watching, the first of them on a tie.
pub open spec fn is_lru(s: Seq<(String, Retained)>, i: int) -> bool {
    &&& 0 <= i < s.len()
    &&& s[i].1.listeners == 0
    &&& forall|j: int|
        0 <= j < s.len() && #[trigger] s[j].1.listeners == 0 ==> s[i].1.touched_at_ms
            <= s[j].1.touched_at_ms
    &&& forall|j: int|
        0 <= j < i && #[trigger] s[j].1.listeners == 0 ==> s[i].1.touched_at_ms
            < s[j].1.touched_at_ms
}

/// The least recently touched chat nobody is watching, if there is one.
pub open spec fn lru_index(s: Seq<(String, Retained)>) -> Option<int> {
    if exists|i: int| is_lru(s, i) {
        Some(choose|i: int| is_lru(s, i))
    } else {
        None
    }
}

/// The cap pass: past [`MAX_RETAINED_SESSIONS`], the least recently touched chat nobody is
/// watching goes, one at a time, until the store is back under the cap or every chat left has a
/// view. Gives what is left and what went, in the order it went.
pub open spec fn cap_evictions(s: Seq<(String, Retained)>) -> (
    Seq<(String, Retained)>,
    Seq<(String, Retained)>,
)
    decreases s.len(),
{
    if s.len() > MAX_RETAINED_SESSIONS {
        match lru_index(s) {
            Some(i) => {
                let next = cap_evictions(s.remove(i));
                (next.0, seq![s[i]].add(next.1))
            },
            None => (s, Seq::empty()),
        }
    } else {
        (s, Seq::empty())
    }
}

/// What a prune keeps.
pub open spec fn pruned_entries(s: Seq<(String, Retained)>, now_ms: u64) -> Seq<(String, Retained)> {
    cap_evictions(fresh_entries(s, now_ms)).0
}

/// What a prune drops, expired ones first, then the cap's in the order they went.
pub open spec fn dropped_entries(s: Seq<(String, Retained)>, now_ms: u64) -> Seq<(String, Retained)> {
    expired_entries(s, now_ms) + cap_evictions(fresh_entries(s, now_ms)).1
}

/// `(retention key, storage session key)` of each entry.
pub open spec fn key_pairs(s: Seq<(String, Retained)>) -> Seq<(Seq<char>, Seq<char>)> {
    s.map_values(|e: (String, Retained)| (e.0@, e.1.session_key@))
}

/// `(retention key, storage session key)` of each entry, as strings.
pub open spec fn pairs_view(s: Seq<(String, String)>) -> Seq<(Seq<char>, Seq<char>)> {
    s.map_values(|e: (String, String)| (e.0@, e.1@))
}

/// Two chats cannot both be the least recently touched one.
pub proof fn lemma_lru_unique(s: Seq<(String, Retained)>, i: int, k: int)
    requires
        is_lru(s, i),
        is_lru(s, k),
    ensures
        i == k,
{
    if i < k {
        assert(s[i].1.listeners == 0);
        assert(s[k].1.touched_at_ms < s[i].1.touched_at_ms);
    } else if k < i {
        assert(s[k].1.listeners == 0);
        assert(s[i].1.touched_at_ms < s[k].1.touched_at_ms);
    }
}

/// The least recently touched chat nobody is watching, found by a walk.
fn find_lru(entries: &Vec<(String, Retained)>) -> (found: Option<usize>)
    ensures
        match found {
            Some(i) => is_lru(entries@, i as int) && lru_index(entries@) == Some(i as int),
            None => forall|j: int| 0 <= j < entries@.len() ==> #[trigger] entries@[j].1.listeners
                != 0,
        },
        found is None <==> lru_index(entries@) is None,
{
    let mut best: Option<usize> = None;
    let mut i: usize = 0;
    while i < entries.len()
        invariant
            0 <= i <= entries@.len(),
            match best {
                Some(b) => {
                    &&& b < i
                    &&& entries@[b as int].1.listeners == 0
                    &&& forall|j: int|
                        0 <= j < i && #[trigger] entries@[j].1.listeners == 0
                            ==> entries@[b as int].1.touched_at_ms <= entries@[j].1.touched_at_ms
                    &&& forall|j: int|
                        0 <= j < b && #[trigger] entries@[j].1.listeners == 0
                            ==> entries@[b as int].1.touched_at_ms < entries@[j].1.touched_at_ms
                },
                None => forall|j: int| 0 <= j < i ==> #[trigger] entries@[j].1.listeners != 0,
            },
        decreases entries@.len() - i,
    {
        let candidate = &entries[i].1;
        if candidate.listeners == 0 {
            match best {
                Some(b) => {
                    if candidate.touched_at_ms < entries[b].1.touched_at_ms {
                        best = Some(i);
                    }
                },
                None => {
                    best = Some(i);
                },
            }
        }
        i = i + 1;
    }
    match best {
        Some(b) => {
            proof {
                assert(is_lru(entries@, b as int));
                let c = choose|c: int| is_lru(entries@, c);
                lemma_lru_unique(entries@, b as int, c);
            }
        },
        None => {
            proof {
                if exists|c: int| is_lru(entries@, c) {
                    let c = choose|c: int| is_lru(entries@, c);
                    assert(entries@[c].1.listeners == 0);
                }
            }
        },
    }
    best
}

} // verus!

verus! {

/// The fresh entries of a strictly ordered list are strictly ordered too, and each comes from it.
proof fn lemma_fresh_ordered(s: Seq<(String, Retained)>, now_ms: u64)
    requires
        strictly_increasing(keys_of(s)),
    ensures
        strictly_increasing(keys_of(fresh_entries(s, now_ms))),
        forall|a: int|
            0 <= a < fresh_entries(s, now_ms).len() ==> exists|j: int|
                0 <= j < s.len() && #[trigger] fresh_entries(s, now_ms)[a] == s[j],
    decreases s.len(),
{
    if s.len() > 0 {
        let init = s.drop_last();
        assert(keys_of(init) =~= keys_of(s).drop_last());
        lemma_fresh_ordered(init, now_ms);
        let rest = fresh_entries(init, now_ms);
        if !expired(s.last().1, now_ms) {
            let out = rest.push(s.last());
            assert forall|a: int| 0 <= a < out.len() implies exists|j: int|
                0 <= j < s.len() && #[trigger] out[a] == s[j] by {
                if a < rest.len() {
                    let j = choose|j: int| 0 <= j < init.len() && #[trigger] rest[a] == init[j];
                    assert(out[a] == s[j]);
                } else {
                    assert(out[a] == s[s.len() - 1]);
                }
            }
            assert forall|a: int, b: int| 0 <= a < b < keys_of(out).len() implies key_less(
                keys_of(out)[a],
                keys_of(out)[b],
            ) by {
                if b == out.len() - 1 {
                    let j = choose|j: int| 0 <= j < init.len() && #[trigger] rest[a] == init[j];
                    assert(keys_of(s)[j] == keys_of(out)[a]);
                    assert(keys_of(s)[s.len() - 1] == keys_of(out)[b]);
                } else {
                    assert(keys_of(out)[a] == keys_of(rest)[a]);
                    assert(keys_of(out)[b] == keys_of(rest)[b]);
                }
            }
        } else {
            assert forall|a: int| 0 <= a < rest.len() implies exists|j: int|
                0 <= j < s.len() && #[trigger] rest[a] == s[j] by {
                let j = choose|j: int| 0 <= j < init.len() && #[trigger] rest[a] == init[j];
                assert(rest[a] == s[j]);
            }
        }
    }
}

/// The expiry pass splits the entries in two.
proof fn lemma_split_len(s: Seq<(String, Retained)>, now_ms: u64)
    ensures
        fresh_entries(s, now_ms).len() + expired_entries(s, now_ms).len() == s.len(),
    decreases s.len(),
{
    if s.len() > 0 {
        lemma_split_len(s.drop_last(), now_ms);
    }
}

impl ChatStore {
    /// The store holds its chats in key order.
    pub open spec fn well_formed(&self) -> bool {
        self.retained.well_formed()
    }

    /// An empty store.
    pub fn new() -> (store: Self)
        ensures
            store.well_formed(),
            store.retained.entries@.len() == 0,
            store.evicted == 0,
    {
        ChatStore { retained: KeyedMap::new(), evicted: 0 }
    }

    /// How many chats are retained.
    pub fn len(&self) -> (n: usize)
        ensures
            n == self.retained.entries@.len(),
    {
        self.retained.len()
    }

    /// Drops one chat, whatever its limits say; the caller owns the reason.
    pub fn remove(&mut self, key: &str)
        requires
            old(self).well_formed(),
        ensures
            final(self).well_formed(),
            final(self).retained.as_map() == old(self).retained.as_map().remove(key@),
            final(self).evicted == old(self).evicted,
    {
        self.retained.remove(key);
    }

    /// A view attached to a chat: the chat is created on first sight, under its storage session
    /// key, and is watched and touched now.
    pub fn attach(&mut self, key: &str, session_key: &str, now_ms: u64)
        requires
            old(self).well_formed(),
        ensures
            final(self).well_formed(),
            final(self).retained.as_map().dom() == old(self).retained.as_map().dom().insert(key@),
            final(self).retained.as_map()[key@].listeners == 1,
            final(self).retained.as_map()[key@].touched_at_ms == now_ms,
            old(self).retained.as_map().contains_key(key@) ==> final(self).retained.as_map()[key@].session_key
                == old(self).retained.as_map()[key@].session_key && final(self).retained.as_map()[key@].oversized
                == old(self).retained.as_map()[key@].oversized,
            !old(self).retained.as_map().contains_key(key@) ==> final(self).retained.as_map()[key@].session_key@
                == session_key@ && !final(self).retained.as_map()[key@].oversized,
            forall|k: Seq<char>|
                k != key@ && old(self).retained.as_map().contains_key(k) ==> #[trigger] final(self).retained.as_map()[k] == old(self).retained.as_map()[k],
            final(self).evicted == old(self).evicted,
    {
        let updated = match self.retained.get(key) {
            Some(r) => Retained {
                session_key: r.session_key.clone(),
                listeners: 1,
                touched_at_ms: now_ms,
                oversized: r.oversized,
            },
            None => Retained {
                session_key: String::from_str(session_key),
                listeners: 1,
                touched_at_ms: now_ms,
                oversized: false,
            },
        };
        self.retained.put(key, updated);
    }

    /// The attached view went away: the chat is watched by nobody from now, and touched now.
    pub fn detach(&mut self, key: &str, now_ms: u64)
        requires
            old(self).well_formed(),
        ensures
            final(self).well_formed(),
            final(self).retained.as_map().dom() == old(self).retained.as_map().dom(),
            old(self).retained.as_map().contains_key(key@) ==> final(self).retained.as_map()[key@].listeners
                == 0 && final(self).retained.as_map()[key@].touched_at_ms == now_ms && final(self).retained.as_map()[key@].session_key == old(self).retained.as_map()[key@].session_key,
            forall|k: Seq<char>|
                k != key@ && old(self).retained.as_map().contains_key(k) ==> #[trigger] final(self).retained.as_map()[k] == old(self).retained.as_map()[k],
            final(self).evicted == old(self).evicted,
    {
        let updated = match self.retained.get(key) {
            Some(r) => Retained {
                session_key: r.session_key.clone(),
                listeners: 0,
                touched_at_ms: now_ms,
                oversized: r.oversized,
            },
            None => return,
        };
        self.retained.put(key, updated);
        proof {
            assert(self.retained.as_map().dom() =~= old(self).retained.as_map().dom());
        }
    }

    /// Drops what the limits no longer keep and names what it dropped, as `(retention key, storage
    /// session key)` pairs: every expired chat in key order, then the cap's in the order they went.
    ///
    /// A chat with a view is never dropped, whatever its size or age; past the cap it is the chats
    /// nobody watches that go, least recently touched first.
    pub fn prune(&mut self, now_ms: u64) -> (dropped: Vec<(String, String)>)
        requires
            old(self).well_formed(),
            old(self).evicted + old(self).retained.entries@.len() <= u64::MAX,
        ensures
            final(self).well_formed(),
            final(self).retained.entries@ == pruned_entries(old(self).retained.entries@, now_ms),
            pairs_view(dropped@) == key_pairs(dropped_entries(old(self).retained.entries@, now_ms)),
            final(self).evicted == old(self).evicted + dropped@.len(),
    {
        let ghost start = self.retained.entries@;
        let mut kept: Vec<(String, Retained)> = Vec::new();
        let mut dropped: Vec<(String, String)> = Vec::new();
        let mut i: usize = 0;
        while i < self.retained.entries.len()
            invariant
                0 <= i <= start.len(),
                self.retained.entries@ == start,
                self.retained.well_formed(),
                kept@ == fresh_entries(start.take(i as int), now_ms),
                pairs_view(dropped@) == key_pairs(expired_entries(start.take(i as int), now_ms)),
                self.evicted + dropped@.len() == old(self).evicted + expired_entries(
                    start.take(i as int),
                    now_ms,
                ).len(),
                old(self).evicted + start.len() <= u64::MAX,
                self.evicted == old(self).evicted,
                expired_entries(start.take(i as int), now_ms).len() <= i,
            decreases start.len() - i,
        {
            proof {
                assert(start.take(i as int + 1).drop_last() == start.take(i as int));
                assert(start.take(i as int + 1).last() == start[i as int]);
            }
            let entry = &self.retained.entries[i];
            if entry.1.listeners == 0 && ((now_ms >= entry.1.touched_at_ms && now_ms
                - entry.1.touched_at_ms >= IDLE_RETENTION_MS) || entry.1.oversized) {
                let ghost before = dropped@;
                dropped.push((entry.0.clone(), entry.1.session_key.clone()));
                proof {
                    let x = start[i as int];
                    let e = expired_entries(start.take(i as int), now_ms);
                    assert(pairs_view(dropped@) =~= pairs_view(before).push((x.0@, x.1.session_key@)));
                    assert(key_pairs(e.push(x)) =~= key_pairs(e).push((x.0@, x.1.session_key@)));
                    assert(expired(start[i as int].1, now_ms));
                    assert(expired_entries(start.take(i as int + 1), now_ms) == expired_entries(
                        start.take(i as int),
                        now_ms,
                    ).push(start[i as int]));
                    assert(pairs_view(dropped@) =~= key_pairs(
                        expired_entries(start.take(i as int + 1), now_ms),
                    ));
                }
            } else {
                let copy = Retained {
                    session_key: entry.1.session_key.clone(),
                    listeners: entry.1.listeners,
                    touched_at_ms: entry.1.touched_at_ms,
                    oversized: entry.1.oversized,
                };
                kept.push((entry.0.clone(), copy));
                proof {
                    assert(!expired(start[i as int].1, now_ms));
                    assert(kept@ =~= fresh_entries(start.take(i as int + 1), now_ms));
                }
            }
            i = i + 1;
        }
        proof {
            assert(start.take(start.len() as int) == start);
            lemma_fresh_ordered(start, now_ms);
            lemma_split_len(start, now_ms);
        }
        let ghost fresh = kept@;
        self.evicted = self.evicted + dropped.len() as u64;
        self.retained = KeyedMap { entries: kept };
        let ghost first_dropped = dropped@;
        let ghost n0 = first_dropped.len();
        proof {
            assert(dropped@.skip(n0 as int) =~= Seq::<(String, String)>::empty());
            assert(pairs_view(Seq::<(String, String)>::empty()) =~= Seq::<(Seq<char>, Seq<char>)>::empty());
        }
        let mut done = false;
        while !done && self.retained.entries.len() > MAX_RETAINED_SESSIONS
            invariant
                self.retained.well_formed(),
                cap_evictions(fresh).0 == cap_evictions(self.retained.entries@).0,
                key_pairs(cap_evictions(fresh).1) == pairs_view(dropped@.skip(n0 as int))
                    + key_pairs(cap_evictions(self.retained.entries@).1),
                n0 <= dropped@.len(),
                dropped@.take(n0 as int) == first_dropped,
                done ==> lru_index(self.retained.entries@) is None,
                self.evicted + self.retained.entries@.len() <= u64::MAX,
                self.evicted == old(self).evicted + dropped@.len(),
            decreases self.retained.entries@.len() + if done {
                0int
            } else {
                1int
            },
        {
            match find_lru(&self.retained.entries) {
                Some(at) => {
                    let ghost cur = self.retained.entries@;
                    let ghost before = dropped@;
                    let (key, retained) = self.retained.remove_at(at);
                    dropped.push((key, retained.session_key));
                    self.evicted = self.evicted + 1;
                    proof {
                        let x = cur[at as int];
                        let rest = cap_evictions(cur.remove(at as int));
                        assert(cap_evictions(cur) == (rest.0, seq![x].add(rest.1)));
                        assert(key_pairs(seq![x].add(rest.1)) =~= seq![(x.0@, x.1.session_key@)].add(
                            key_pairs(rest.1),
                        ));
                        assert(dropped@.skip(n0 as int) =~= before.skip(n0 as int).push(
                            (x.0, x.1.session_key),
                        ));
                        assert(pairs_view(dropped@.skip(n0 as int)) =~= pairs_view(
                            before.skip(n0 as int),
                        ).push((x.0@, x.1.session_key@)));
                        assert(dropped@.take(n0 as int) =~= before.take(n0 as int));
                    }
                },
                None => {
                    done = true;
                },
            }
        }
        proof {
            let cur = self.retained.entries@;
            assert(cap_evictions(cur) == (cur, Seq::<(String, Retained)>::empty()));
            assert(key_pairs(Seq::<(String, Retained)>::empty()) =~= Seq::<(Seq<char>, Seq<char>)>::empty());
            assert(dropped@ =~= first_dropped + dropped@.skip(n0 as int));
            assert(pairs_view(dropped@) =~= pairs_view(first_dropped) + pairs_view(dropped@.skip(n0 as int)));
            let ex = expired_entries(start, now_ms);
            let cp = cap_evictions(fresh).1;
            assert(key_pairs(ex + cp) =~= key_pairs(ex) + key_pairs(cp));
        }
        dropped
    }
}

} // verus!

verus! {

/// What survives the expiry pass is exactly what was there and had not expired.
proof fn lemma_fresh_contains(s: Seq<(String, Retained)>, now_ms: u64, e: (String, Retained))
    ensures
        fresh_entries(s, now_ms).contains(e) <==> s.contains(e) && !expired(e.1, now_ms),
    decreases s.len(),
{
    if s.len() > 0 {
        let init = s.drop_last();
        lemma_fresh_contains(init, now_ms, e);
        assert(s =~= init.push(s.last()));
        if s.contains(e) && e != s.last() {
            let j = choose|j: int| 0 <= j < s.len() && s[j] == e;
            assert(init[j] == e);
        }
        if init.contains(e) {
            let j = choose|j: int| 0 <= j < init.len() && init[j] == e;
            assert(s[j] == e);
        }
        let rest = fresh_entries(init, now_ms);
        if !expired(s.last().1, now_ms) {
            assert(rest.push(s.last())[rest.len() as int] == s.last());
            if rest.push(s.last()).contains(e) && e != s.last() {
                let j = choose|j: int| 0 <= j < rest.len() + 1 && rest.push(s.last())[j] == e;
                assert(rest[j] == e);
            }
            if rest.contains(e) {
                let j = choose|j: int| 0 <= j < rest.len() && rest[j] == e;
                assert(rest.push(s.last())[j] == e);
            }
        }
    }
}

/// The cap pass only removes; it never removes a chat with a view; and it stops under the cap or
/// when every chat left has a view.
proof fn lemma_cap(s: Seq<(String, Retained)>)
    ensures
        forall|e: (String, Retained)| cap_evictions(s).0.contains(e) ==> s.contains(e),
        forall|e: (String, Retained)|
            s.contains(e) && e.1.listeners > 0 ==> cap_evictions(s).0.contains(e),
        cap_evictions(s).0.len() <= MAX_RETAINED_SESSIONS || forall|i: int|
            0 <= i < cap_evictions(s).0.len() ==> #[trigger] cap_evictions(s).0[i].1.listeners > 0,
    decreases s.len(),
{
    if s.len() > MAX_RETAINED_SESSIONS {
        match lru_index(s) {
            Some(i) => {
                let c = choose|c: int| is_lru(s, c);
                assert(is_lru(s, i));
                let t = s.remove(i);
                lemma_cap(t);
                assert forall|e: (String, Retained)| cap_evictions(s).0.contains(e) implies s.contains(
                    e,
                ) by {
                    assert(t.contains(e));
                    let j = choose|j: int| 0 <= j < t.len() && t[j] == e;
                    if j < i {
                        assert(s[j] == e);
                    } else {
                        assert(s[j + 1] == e);
                    }
                }
                assert forall|e: (String, Retained)|
                    s.contains(e) && e.1.listeners > 0 implies cap_evictions(s).0.contains(e) by {
                    let j = choose|j: int| 0 <= j < s.len() && s[j] == e;
                    assert(j != i);
                    if j < i {
                        assert(t[j] == e);
                    } else {
                        assert(t[j - 1] == e);
                    }
                    assert(t.contains(e));
                }
            },
            None => {
                assert forall|i: int| 0 <= i < s.len() implies #[trigger] s[i].1.listeners > 0 by {
                    if s[i].1.listeners == 0 {
                        lemma_lru_exists(s, i);
                    }
                }
            },
        }
    }
}

/// Where a chat nobody watches exists, a least recently touched one does.
proof fn lemma_lru_exists(s: Seq<(String, Retained)>, k: int)
    requires
        0 <= k < s.len(),
        s[k].1.listeners == 0,
    ensures
        exists|i: int| is_lru(s, i),
    decreases s.len() - k,
{
    let better = exists|j: int|
        0 <= j < s.len() && s[j].1.listeners == 0 && (s[j].1.touched_at_ms < s[k].1.touched_at_ms
            || (s[j].1.touched_at_ms == s[k].1.touched_at_ms && j < k));
    if better {
        let j = choose|j: int|
            0 <= j < s.len() && s[j].1.listeners == 0 && (s[j].1.touched_at_ms
                < s[k].1.touched_at_ms || (s[j].1.touched_at_ms == s[k].1.touched_at_ms && j < k));
        lemma_lru_exists_rank(s, j, k);
    } else {
        assert(is_lru(s, k));
    }
}

/// Descent by (touched, index), which strictly falls, so some chat is least.
proof fn lemma_lru_exists_rank(s: Seq<(String, Retained)>, j: int, k: int)
    requires
        0 <= j < s.len(),
        0 <= k < s.len(),
        s[j].1.listeners == 0,
        s[j].1.touched_at_ms < s[k].1.touched_at_ms || (s[j].1.touched_at_ms
            == s[k].1.touched_at_ms && j < k),
    ensures
        exists|i: int| is_lru(s, i),
    decreases s[j].1.touched_at_ms, j,
{
    let better = exists|m: int|
        0 <= m < s.len() && s[m].1.listeners == 0 && (s[m].1.touched_at_ms < s[j].1.touched_at_ms
            || (s[m].1.touched_at_ms == s[j].1.touched_at_ms && m < j));
    if better {
        let m = choose|m: int|
            0 <= m < s.len() && s[m].1.listeners == 0 && (s[m].1.touched_at_ms
                < s[j].1.touched_at_ms || (s[m].1.touched_at_ms == s[j].1.touched_at_ms && m < j));
        lemma_lru_exists_rank(s, m, j);
    } else {
        assert(is_lru(s, j));
    }
}

/// A prune never drops a chat a view is attached to; what it keeps of the chats nobody watches
/// is neither idle past five minutes nor oversized; and what it keeps is within the cap unless
/// every chat kept has a view.
pub proof fn law_prune_spares_watched_chats(s: Seq<(String, Retained)>, now_ms: u64)
    ensures
        forall|e: (String, Retained)|
            s.contains(e) && e.1.listeners > 0 ==> pruned_entries(s, now_ms).contains(e),
        forall|e: (String, Retained)|
            pruned_entries(s, now_ms).contains(e) ==> s.contains(e) && !expired(e.1, now_ms),
        pruned_entries(s, now_ms).len() <= MAX_RETAINED_SESSIONS || forall|i: int|
            0 <= i < pruned_entries(s, now_ms).len() ==> #[trigger] pruned_entries(
                s,
                now_ms,
            )[i].1.listeners > 0,
{
    let f = fresh_entries(s, now_ms);
    lemma_cap(f);
    assert forall|e: (String, Retained)|
        s.contains(e) && e.1.listeners > 0 implies pruned_entries(s, now_ms).contains(e) by {
        lemma_fresh_contains(s, now_ms, e);
    }
    assert forall|e: (String, Retained)| pruned_entries(s, now_ms).contains(e) implies s.contains(e)
        && !expired(e.1, now_ms) by {
        lemma_fresh_contains(s, now_ms, e);
    }
}

/// The expiry pass splits the entries: what it keeps and what it drops are, together, what was
/// there.
proof fn lemma_split_multiset(s: Seq<(String, Retained)>, now_ms: u64)
    ensures
        fresh_entries(s, now_ms).to_multiset().add(expired_entries(s, now_ms).to_multiset())
            =~= s.to_multiset(),
    decreases s.len(),
{
    broadcast use vstd::multiset::group_multiset_axioms, vstd::seq_lib::group_to_multiset_ensures;

    if s.len() == 0 {
        assert(fresh_entries(s, now_ms) =~= Seq::<(String, Retained)>::empty());
        assert(expired_entries(s, now_ms) =~= Seq::<(String, Retained)>::empty());
        assert(s.to_multiset() =~= vstd::multiset::Multiset::empty());
    } else {
        let init = s.drop_last();
        lemma_split_multiset(init, now_ms);
        assert(s =~= init.push(s.last()));
        let f = fresh_entries(init, now_ms);
        let x = expired_entries(init, now_ms);
        if expired(s.last().1, now_ms) {
            assert(x.push(s.last()).to_multiset() =~= x.to_multiset().insert(s.last()));
        } else {
            assert(f.push(s.last()).to_multiset() =~= f.to_multiset().insert(s.last()));
        }
    }
}

/// The cap pass splits the entries: what it keeps and what it drops are, together, what was
/// there.
proof fn lemma_cap_multiset(s: Seq<(String, Retained)>)
    ensures
        cap_evictions(s).0.to_multiset().add(cap_evictions(s).1.to_multiset()) =~= s.to_multiset(),
    decreases s.len(),
{
    broadcast use vstd::multiset::group_multiset_axioms, vstd::seq_lib::group_to_multiset_ensures;

    if s.len() > MAX_RETAINED_SESSIONS {
        match lru_index(s) {
            Some(i) => {
                let c = choose|c: int| is_lru(s, c);
                assert(is_lru(s, i));
                let t = s.remove(i);
                lemma_cap_multiset(t);
                let next = cap_evictions(t);
                vstd::seq_lib::lemma_multiset_commutative(seq![s[i]], next.1);
                assert(seq![s[i]].to_multiset() =~= vstd::multiset::Multiset::empty().insert(s[i])) by {
                    assert(Seq::<(String, Retained)>::empty().push(s[i]) =~= seq![s[i]]);
                    assert(Seq::<(String, Retained)>::empty().to_multiset() =~= vstd::multiset::Multiset::empty());
                }
                let x = s[i];
                assert(cap_evictions(s) == (next.0, seq![x].add(next.1)));
                assert(seq![x].add(next.1).to_multiset() =~= next.1.to_multiset().insert(x));
                assert(t.to_multiset() == s.to_multiset().remove(x));
                assert(s.to_multiset().count(x) > 0);
                assert(s.to_multiset() =~= t.to_multiset().insert(x));
                assert(next.0.to_multiset().add(next.1.to_multiset().insert(x)) =~= next.0.to_multiset().add(
                    next.1.to_multiset(),
                ).insert(x));
            },
            None => {
                assert(Seq::<(String, Retained)>::empty().to_multiset() =~= vstd::multiset::Multiset::empty());
            },
        }
    } else {
        assert(Seq::<(String, Retained)>::empty().to_multiset() =~= vstd::multiset::Multiset::empty());
    }
}

/// A prune loses nothing and invents nothing: the chats it keeps and the chats it drops are,
/// together, exactly the chats there were.
pub proof fn law_prune_keeps_and_drops_exactly_the_chats(s: Seq<(String, Retained)>, now_ms: u64)
    ensures
        pruned_entries(s, now_ms).to_multiset().add(dropped_entries(s, now_ms).to_multiset())
            =~= s.to_multiset(),
{
    broadcast use vstd::multiset::group_multiset_axioms;

    let f = fresh_entries(s, now_ms);
    lemma_split_multiset(s, now_ms);
    lemma_cap_multiset(f);
    vstd::seq_lib::lemma_multiset_commutative(expired_entries(s, now_ms), cap_evictions(f).1);
}

} // verus!
