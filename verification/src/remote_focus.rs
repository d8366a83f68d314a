//! The store's answer to a remote row's click: what it counts, and the marker that keeps the old
//! runtime's own copy of the same open from opening the row a second time.
//!
//! A marker lives two seconds. At most eight are held, the oldest going first, and one per row.

use vstd::prelude::*;

use crate::app_model::SidebarRemoteFocusCounters;
use crate::text::same_text;

verus! {

broadcast use vstd::string::group_string_axioms;

/// How long the old runtime's copy of an open is expected, in milliseconds.
pub const REMOTE_OPEN_ECHO_EXPIRY_MS: u64 = 2000;
/// Most opens whose copy is expected at once.
pub const MAX_EXPECTED_REMOTE_OPENS: usize = 8;
/// Most remote focus records one run writes.
pub const MAX_REMOTE_FOCUS_RECORDS: u32 = 200;

/// A session on a remote machine.
#[derive(Clone, Debug, PartialEq, Eq)]
pub struct RemoteSessionRef {
    pub machine_id: String,
    pub project_id: String,
    pub session_id: String,
}

/// The view of a remote session.
pub open spec fn remote_view(s: RemoteSessionRef) -> (Seq<char>, Seq<char>, Seq<char>) {
    (s.machine_id@, s.project_id@, s.session_id@)
}

/// The view of the expected opens: each session and when it was opened.
pub open spec fn expected_view(e: Seq<(RemoteSessionRef, u64)>) -> Seq<
    ((Seq<char>, Seq<char>, Seq<char>), u64),
> {
    e.map_values(|x: (RemoteSessionRef, u64)| (remote_view(x.0), x.1))
}

/// The counters, the markers and the log budget.
pub struct SidebarRemoteFocusHost {
    pub counters: SidebarRemoteFocusCounters,
    /// Rows the store has opened and whose copy from the old runtime is still expected.
    pub expected_opens: Vec<(RemoteSessionRef, u64)>,
    pub records: u32,
}

/// The expected opens of every other session.
pub open spec fn without_remote(
    e: Seq<((Seq<char>, Seq<char>, Seq<char>), u64)>,
    session: (Seq<char>, Seq<char>, Seq<char>),
) -> Seq<((Seq<char>, Seq<char>, Seq<char>), u64)> {
    e.filter(|x: ((Seq<char>, Seq<char>, Seq<char>), u64)| x.0 != session)
}

/// The expected opens without `session`'s, then the oldest dropped when eight are left, then
/// `session`'s at `now_ms` at the end.
pub open spec fn expect_of(
    e: Seq<((Seq<char>, Seq<char>, Seq<char>), u64)>,
    session: (Seq<char>, Seq<char>, Seq<char>),
    now_ms: u64,
) -> Seq<((Seq<char>, Seq<char>, Seq<char>), u64)> {
    let kept = without_remote(e, session);
    let trimmed = if kept.len() >= MAX_EXPECTED_REMOTE_OPENS {
        kept.drop_first()
    } else {
        kept
    };
    trimmed.push((session, now_ms))
}

/// Whether an open made at `at` is still expected at `now_ms`.
pub open spec fn still_expected(at: u64, now_ms: u64) -> bool {
    now_ms < at || now_ms - at < REMOTE_OPEN_ECHO_EXPIRY_MS
}

/// The expected opens that have not expired at `now_ms`.
pub open spec fn unexpired(e: Seq<((Seq<char>, Seq<char>, Seq<char>), u64)>, now_ms: u64) -> Seq<
    ((Seq<char>, Seq<char>, Seq<char>), u64),
> {
    e.filter(|x: ((Seq<char>, Seq<char>, Seq<char>), u64)| still_expected(x.1, now_ms))
}

/// Whether `i` is the first expected open of `session`.
pub open spec fn first_expected(
    e: Seq<((Seq<char>, Seq<char>, Seq<char>), u64)>,
    session: (Seq<char>, Seq<char>, Seq<char>),
    i: int,
) -> bool {
    0 <= i < e.len() && e[i].0 == session && forall|j: int| 0 <= j < i ==> (#[trigger] e[j]).0 != session
}

/// A copy of a remote session.
fn copy_remote(s: &RemoteSessionRef) -> (copy: RemoteSessionRef)
    ensures
        copy == *s,
{
    RemoteSessionRef {
        machine_id: s.machine_id.clone(),
        project_id: s.project_id.clone(),
        session_id: s.session_id.clone(),
    }
}

/// Whether two remote sessions are the same.
fn same_remote(a: &RemoteSessionRef, b: &RemoteSessionRef) -> (same: bool)
    ensures
        same == (remote_view(*a) == remote_view(*b)),
{
    same_text(a.machine_id.as_str(), b.machine_id.as_str()) && same_text(
        a.project_id.as_str(),
        b.project_id.as_str(),
    ) && same_text(a.session_id.as_str(), b.session_id.as_str())
}

impl SidebarRemoteFocusHost {
    /// The store opened `session` at `now_ms`: its copy from the old runtime is expected now, one
    /// marker per row and eight at most, the oldest going first.
    pub fn expect(&mut self, session: RemoteSessionRef, now_ms: u64)
        ensures
            expected_view(final(self).expected_opens@) == expect_of(
                expected_view(old(self).expected_opens@),
                remote_view(session),
                now_ms,
            ),
            final(self).counters == old(self).counters,
            final(self).records == old(self).records,
            expected_view(old(self).expected_opens@).len() <= MAX_EXPECTED_REMOTE_OPENS
                ==> final(self).expected_opens@.len() <= MAX_EXPECTED_REMOTE_OPENS,
    {
        let ghost before = expected_view(self.expected_opens@);
        let ghost target = remote_view(session);
        let mut kept: Vec<(RemoteSessionRef, u64)> = Vec::new();
        let mut i: usize = 0;
        while i < self.expected_opens.len()
            invariant
                0 <= i <= self.expected_opens@.len(),
                *self == *old(self),
                before == expected_view(self.expected_opens@),
                target == remote_view(session),
                expected_view(kept@) == without_remote(before.take(i as int), target),
            decreases self.expected_opens@.len() - i,
        {
            proof {
                assert(before.take(i as int + 1).drop_last() =~= before.take(i as int));
                assert(before.take(i as int + 1).last() == before[i as int]);
                reveal_with_fuel(Seq::filter, 1);
            }
            if !same_remote(&self.expected_opens[i].0, &session) {
                let ghost was = kept@;
                let held = &self.expected_opens[i];
                kept.push((copy_remote(&held.0), held.1));
                proof {
                    assert(expected_view(kept@) =~= expected_view(was).push(before[i as int]));
                }
            }
            i = i + 1;
        }
        proof {
            assert(before.take(before.len() as int) =~= before);
        }
        if kept.len() >= MAX_EXPECTED_REMOTE_OPENS {
            let ghost was = kept@;
            kept.remove(0);
            proof {
                assert(expected_view(kept@) =~= expected_view(was).drop_first());
            }
        }
        let ghost trimmed = kept@;
        kept.push((session, now_ms));
        proof {
            assert(expected_view(kept@) =~= expected_view(trimmed).push((target, now_ms)));
        }
        self.expected_opens = kept;
    }

    /// Whether an open of `session` at `now_ms` is the old runtime's copy of one the store already
    /// performed. Expired markers are dropped first; a matching marker is taken, so a second
    /// request for the same row is the user asking again.
    pub fn take_expected(&mut self, session: &RemoteSessionRef, now_ms: u64) -> (copy: bool)
        ensures
            ({
                let live = unexpired(expected_view(old(self).expected_opens@), now_ms);
                &&& copy == exists|i: int| first_expected(live, remote_view(*session), i)
                &&& expected_view(final(self).expected_opens@) == if copy {
                    live.remove(choose|i: int| first_expected(live, remote_view(*session), i))
                } else {
                    live
                }
            }),
            final(self).counters == old(self).counters,
            final(self).records == old(self).records,
    {
        let ghost before = expected_view(self.expected_opens@);
        let mut live: Vec<(RemoteSessionRef, u64)> = Vec::new();
        let mut i: usize = 0;
        while i < self.expected_opens.len()
            invariant
                0 <= i <= self.expected_opens@.len(),
                *self == *old(self),
                before == expected_view(self.expected_opens@),
                expected_view(live@) == unexpired(before.take(i as int), now_ms),
            decreases self.expected_opens@.len() - i,
        {
            proof {
                assert(before.take(i as int + 1).drop_last() =~= before.take(i as int));
                assert(before.take(i as int + 1).last() == before[i as int]);
                reveal_with_fuel(Seq::filter, 1);
            }
            let at = self.expected_opens[i].1;
            if now_ms < at || now_ms - at < REMOTE_OPEN_ECHO_EXPIRY_MS {
                let ghost was = live@;
                live.push((copy_remote(&self.expected_opens[i].0), at));
                proof {
                    assert(expected_view(live@) =~= expected_view(was).push(before[i as int]));
                }
            }
            i = i + 1;
        }
        proof {
            assert(before.take(before.len() as int) =~= before);
        }
        let ghost view = expected_view(live@);
        let ghost target = remote_view(*session);
        proof {
            assert(view == unexpired(expected_view(old(self).expected_opens@), now_ms));
        }
        let mut k: usize = 0;
        while k < live.len()
            invariant
                0 <= k <= live@.len(),
                *self == *old(self),
                view == expected_view(live@),
                view == unexpired(expected_view(old(self).expected_opens@), now_ms),
                target == remote_view(*session),
                forall|j: int| 0 <= j < k ==> (#[trigger] view[j]).0 != target,
            decreases live@.len() - k,
        {
            if same_remote(&live[k].0, session) {
                proof {
                    assert(first_expected(view, target, k as int));
                    let c = choose|c: int| first_expected(view, target, c);
                    if c < k {
                        assert(view[c].0 != target);
                    } else if c > k {
                        assert(view[k as int].0 != target);
                    }
                    assert(c == k);
                }
                live.remove(k);
                proof {
                    assert(expected_view(live@) =~= view.remove(k as int));
                }
                self.expected_opens = live;
                return true;
            }
            proof {
                assert(view[k as int].0 != target);
            }
            k = k + 1;
        }
        proof {
            assert forall|c: int| !first_expected(view, target, c) by {
                if 0 <= c < view.len() {
                    assert(view[c].0 != target);
                }
            }
        }
        self.expected_opens = live;
        false
    }

    /// Counts what one answered click did: an open or a split, and each of its two options.
    pub fn note_plan(&mut self, split_right: bool, keep_view: bool, chat_interface: bool)
        requires
            old(self).counters.opens < u64::MAX,
            old(self).counters.splits < u64::MAX,
            old(self).counters.keep_view < u64::MAX,
            old(self).counters.chat_interface < u64::MAX,
        ensures
            final(self).counters.splits == old(self).counters.splits + if split_right {
                1int
            } else {
                0int
            },
            final(self).counters.opens == old(self).counters.opens + if split_right {
                0int
            } else {
                1int
            },
            final(self).counters.keep_view == old(self).counters.keep_view + if keep_view {
                1int
            } else {
                0int
            },
            final(self).counters.chat_interface == old(self).counters.chat_interface + if chat_interface {
                1int
            } else {
                0int
            },
            final(self).counters.duplicates_dropped == old(self).counters.duplicates_dropped,
            final(self).counters.declined_source == old(self).counters.declined_source,
            final(self).counters.handed_back == old(self).counters.handed_back,
            final(self).expected_opens == old(self).expected_opens,
    {
        if split_right {
            self.counters.splits = self.counters.splits + 1;
        } else {
            self.counters.opens = self.counters.opens + 1;
        }
        if keep_view {
            self.counters.keep_view = self.counters.keep_view + 1;
        }
        if chat_interface {
            self.counters.chat_interface = self.counters.chat_interface + 1;
        }
    }

    /// Whether one more remote focus record may be written, out of [`MAX_REMOTE_FOCUS_RECORDS`] a
    /// run and only while routine logging is on; it is counted when it may.
    pub fn record_budget(&mut self, logging_enabled: bool) -> (write: bool)
        ensures
            write == (old(self).records < MAX_REMOTE_FOCUS_RECORDS && logging_enabled),
            final(self).records == old(self).records + if write {
                1int
            } else {
                0int
            },
            final(self).counters == old(self).counters,
            final(self).expected_opens == old(self).expected_opens,
    {
        if self.records >= MAX_REMOTE_FOCUS_RECORDS || !logging_enabled {
            return false;
        }
        self.records = self.records + 1;
        true
    }

    /// Whether a remote open (`session`, `None` for an id that names no remote session) is the old
    /// runtime's copy of one the store already performed; a copy is counted as dropped.
    pub fn gx_store_remote_open_is_duplicate(&mut self, session: Option<&RemoteSessionRef>, now_ms: u64) -> (
        duplicate: bool)
        requires
            old(self).counters.duplicates_dropped < u64::MAX,
        ensures
            session is None ==> !duplicate && final(self).expected_opens == old(self).expected_opens
                && final(self).counters == old(self).counters,
            session matches Some(s) ==> ({
                let live = unexpired(expected_view(old(self).expected_opens@), now_ms);
                &&& duplicate == exists|i: int| first_expected(live, remote_view(*s), i)
                &&& final(self).counters.duplicates_dropped == old(self).counters.duplicates_dropped
                    + if duplicate {
                    1int
                } else {
                    0int
                }
            }),
    {
        let session = match session {
            Some(s) => s,
            None => return false,
        };
        if !self.take_expected(session, now_ms) {
            return false;
        }
        self.counters.duplicates_dropped = self.counters.duplicates_dropped + 1;
        true
    }
}

} // verus!
