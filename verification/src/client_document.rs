//! A client document's host: reading it from client storage once, writing it back with bounded
//! retries, and booking its pushes to gxserver.
//!
//! A failed read is retried every five seconds six times, then every thirty seconds, warning once
//! when the fast retries run out. A failed write of the newest document is retried up to three
//! times; a newer write replaces whatever was owed, so an older attempt never clears or retries
//! it. A push booking that was replaced fires nothing.

use vstd::prelude::*;

use crate::effects::Json;
use crate::records::opt_view;
use crate::text::same_text;

verus! {

broadcast use vstd::string::group_string_axioms;

/// How long a failed write waits before it is tried again, in milliseconds.
pub const STORAGE_RETRY_MS: u64 = 400;
/// How often a failed write of the newest document is tried again.
pub const MAX_STORAGE_RETRIES: u32 = 3;
/// How long a failed read waits before it is tried again, in milliseconds.
pub const READ_RETRY_MS: u64 = 5000;
/// How many fast read retries there are before they slow down.
pub const MAX_READ_RETRIES: u32 = 6;
/// How long a read waits once the fast retries are used up, in milliseconds.
pub const READ_RETRY_SLOW_MS: u64 = 30000;

/// What the host counted about one document.
#[derive(Clone, Copy, Debug, Default, PartialEq, Eq)]
pub struct StorageCounters {
    pub storage_writes: u64,
    pub storage_removes: u64,
    pub storage_attempts: u64,
    pub storage_failures: u64,
    pub storage_refusals: u64,
    pub read_failures: u64,
}

/// The document-independent state of one client document's host.
pub struct ClientDocumentHost {
    /// Whether the stored document has been read (or there is none to read).
    pub restored: bool,
    /// A read is on its way.
    pub restoring: bool,
    pub read_retries: u32,
    pub read_retry_scheduled: bool,
    /// The newest write not yet known to have landed: the raw text, or `None` for a removal.
    pub owed_write: Option<Option<String>>,
    pub write_retries: u32,
    /// The newest push booking; an older one fires nothing.
    pub booking: u64,
    pub counters: StorageCounters,
}

/// What asking for the stored document does.
#[derive(Clone, Copy, Debug, PartialEq, Eq)]
pub enum RestoreStep {
    /// The document is ready.
    Ready,
    /// A read or its retry is already on its way.
    Waiting,
    /// Start a read now.
    Read,
}

/// The outcome of one storage write: stored (or refused by a named bound), or failed.
pub enum WriteResult {
    Done(Option<&'static str>),
    Failed(&'static str),
}

/// The view of an owed write.
pub open spec fn owed_view(w: Option<Option<String>>) -> Option<Option<Seq<char>>> {
    match w {
        Some(raw) => Some(opt_view(raw)),
        None => None,
    }
}

impl ClientDocumentHost {
    /// A fresh host: ready from the start when the document has no stored key.
    pub fn new(has_storage_key: bool) -> (host: Self)
        ensures
            host.restored == !has_storage_key,
            !host.restoring && !host.read_retry_scheduled,
            host.read_retries == 0 && host.write_retries == 0 && host.booking == 0,
            host.owed_write is None,
    {
        ClientDocumentHost {
            restored: !has_storage_key,
            restoring: false,
            read_retries: 0,
            read_retry_scheduled: false,
            owed_write: None,
            write_retries: 0,
            booking: 0,
            counters: StorageCounters {
                storage_writes: 0,
                storage_removes: 0,
                storage_attempts: 0,
                storage_failures: 0,
                storage_refusals: 0,
                read_failures: 0,
            },
        }
    }

    /// Whether the document is ready; when it is not, and no read or retry is on its way, a read
    /// starts now.
    pub fn gx_document_restored(&mut self) -> (step: RestoreStep)
        ensures
            step == if old(self).restored {
                RestoreStep::Ready
            } else if old(self).restoring || old(self).read_retry_scheduled {
                RestoreStep::Waiting
            } else {
                RestoreStep::Read
            },
            final(self).restoring == (old(self).restoring || step == RestoreStep::Read),
            final(self).restored == old(self).restored,
            final(self).read_retries == old(self).read_retries,
            final(self).read_retry_scheduled == old(self).read_retry_scheduled,
            final(self).owed_write == old(self).owed_write,
    {
        if self.restored {
            return RestoreStep::Ready;
        }
        if self.restoring || self.read_retry_scheduled {
            return RestoreStep::Waiting;
        }
        self.restoring = true;
        RestoreStep::Read
    }

    /// The read came back: the document is restored whatever it held (an absent or damaged value
    /// is the empty document).
    pub fn gx_document_adopt_stored(&mut self)
        ensures
            final(self).restored,
            !final(self).restoring,
            final(self).owed_write == old(self).owed_write,
    {
        self.restoring = false;
        self.restored = true;
    }

    /// The read failed: it is counted, and a retry is booked unless one is. Gives the retry's
    /// delay and whether this is the moment the fast retries ran out, which is warned once.
    pub fn gx_document_schedule_read_retry(&mut self) -> (retry: Option<(u64, bool)>)
        requires
            old(self).read_retries < u32::MAX,
            old(self).counters.read_failures < u64::MAX,
        ensures
            final(self).counters.read_failures == old(self).counters.read_failures + 1,
            !final(self).restoring,
            old(self).read_retry_scheduled ==> retry is None && final(self).read_retries == old(self).read_retries,
            !old(self).read_retry_scheduled ==> {
                let exhausted = old(self).read_retries >= MAX_READ_RETRIES;
                &&& final(self).read_retries == old(self).read_retries + 1
                &&& final(self).read_retry_scheduled
                &&& retry == Some(
                    (
                        if exhausted {
                            READ_RETRY_SLOW_MS
                        } else {
                            READ_RETRY_MS
                        },
                        exhausted && old(self).read_retries == MAX_READ_RETRIES,
                    ),
                )
            },
            final(self).owed_write == old(self).owed_write,
    {
        self.restoring = false;
        self.counters.read_failures = self.counters.read_failures + 1;
        if self.read_retry_scheduled {
            return None;
        }
        let exhausted = self.read_retries >= MAX_READ_RETRIES;
        self.read_retries = self.read_retries + 1;
        self.read_retry_scheduled = true;
        let warn = exhausted && self.read_retries == MAX_READ_RETRIES + 1;
        let delay = if exhausted {
            READ_RETRY_SLOW_MS
        } else {
            READ_RETRY_MS
        };
        Some((delay, warn))
    }

    /// A booked read retry fired: the next ask reads again.
    pub fn read_retry_fired(&mut self)
        ensures
            !final(self).read_retry_scheduled,
            final(self).restored == old(self).restored,
            final(self).restoring == old(self).restoring,
    {
        self.read_retry_scheduled = false;
    }

    /// A write of `raw` (`None` removes) is owed now, replacing whatever was owed, and is
    /// attempted.
    pub fn gx_document_write_storage(&mut self, raw: Option<String>)
        requires
            old(self).counters.storage_attempts < u64::MAX,
        ensures
            owed_view(final(self).owed_write) == Some(opt_view(raw)),
            final(self).write_retries == 0,
            final(self).counters.storage_attempts == old(self).counters.storage_attempts + 1,
    {
        self.owed_write = Some(raw);
        self.write_retries = 0;
        self.counters.storage_attempts = self.counters.storage_attempts + 1;
    }

    /// What one attempted write of `attempted` came back with. An attempt that a newer write
    /// replaced neither clears nor retries what is owed. Gives whether the attempt is tried again
    /// in [`STORAGE_RETRY_MS`]: only a failed attempt of what is still owed, at most three times.
    pub fn gx_document_note_write(&mut self, attempted: &Option<String>, result: WriteResult) -> (
        retry: bool)
        requires
            old(self).counters.storage_failures < u64::MAX,
            old(self).counters.storage_writes < u64::MAX,
            old(self).counters.storage_removes < u64::MAX,
            old(self).counters.storage_refusals < u64::MAX,
            old(self).write_retries < u32::MAX,
        ensures
            ({
                let current = owed_view(old(self).owed_write) == Some(opt_view(*attempted));
                match result {
                    WriteResult::Done(refusal) => {
                        &&& !retry
                        &&& owed_view(final(self).owed_write) == if current {
                            None
                        } else {
                            owed_view(old(self).owed_write)
                        }
                        &&& final(self).write_retries == if current {
                            0
                        } else {
                            old(self).write_retries
                        }
                        &&& final(self).counters.storage_refusals == old(self).counters.storage_refusals + if refusal is Some {
                            1int
                        } else {
                            0int
                        }
                        &&& final(self).counters.storage_writes == old(self).counters.storage_writes
                            + if refusal is None && attempted is Some {
                            1int
                        } else {
                            0int
                        }
                        &&& final(self).counters.storage_removes == old(self).counters.storage_removes + if refusal is None && attempted is None {
                            1int
                        } else {
                            0int
                        }
                    },
                    WriteResult::Failed(_) => {
                        &&& retry == (current && old(self).write_retries < MAX_STORAGE_RETRIES)
                        &&& final(self).counters.storage_failures == old(self).counters.storage_failures + 1
                        &&& final(self).write_retries == old(self).write_retries + if current {
                            1int
                        } else {
                            0int
                        }
                        &&& final(self).owed_write == old(self).owed_write
                    },
                }
            }),
    {
        let current = match &self.owed_write {
            Some(owed) => match (owed, attempted) {
                (Some(a), Some(b)) => crate::text::same_text(a.as_str(), b.as_str()),
                (None, None) => true,
                _ => false,
            },
            None => false,
        };
        match result {
            WriteResult::Done(refusal) => {
                if current {
                    self.owed_write = None;
                    self.write_retries = 0;
                }
                match refusal {
                    Some(_) => {
                        self.counters.storage_refusals = self.counters.storage_refusals + 1;
                    },
                    None => {
                        if attempted.is_none() {
                            self.counters.storage_removes = self.counters.storage_removes + 1;
                        } else {
                            self.counters.storage_writes = self.counters.storage_writes + 1;
                        }
                    },
                }
                false
            },
            WriteResult::Failed(_) => {
                self.counters.storage_failures = self.counters.storage_failures + 1;
                let retry = current && self.write_retries < MAX_STORAGE_RETRIES;
                if current {
                    self.write_retries = self.write_retries + 1;
                }
                retry
            },
        }
    }

    /// Whether a booked retry of `raw` still runs: only when it is still what is owed.
    pub fn gx_document_book_storage_retry(&self, raw: &Option<String>) -> (runs: bool)
        ensures
            runs == (owed_view(self.owed_write) == Some(opt_view(*raw))),
    {
        match &self.owed_write {
            Some(owed) => match (owed, raw) {
                (Some(a), Some(b)) => crate::text::same_text(a.as_str(), b.as_str()),
                (None, None) => true,
                _ => false,
            },
            None => false,
        }
    }

    /// On quit, the owed write is taken to be written at once, if there is one.
    pub fn gx_document_flush_write(&mut self, has_storage_key: bool) -> (owed: Option<Option<String>>)
        requires
            old(self).counters.storage_attempts < u64::MAX,
        ensures
            !has_storage_key ==> owed is None && final(self).owed_write == old(self).owed_write,
            has_storage_key ==> owed == old(self).owed_write && final(self).owed_write is None,
            final(self).counters.storage_attempts == old(self).counters.storage_attempts + if has_storage_key
                && old(self).owed_write is Some {
                1int
            } else {
                0int
            },
    {
        if !has_storage_key {
            return None;
        }
        let owed = self.owed_write.take();
        if owed.is_some() {
            self.counters.storage_attempts = self.counters.storage_attempts + 1;
        }
        owed
    }

    /// Books a push: the new booking replaces any earlier one, which then fires nothing.
    pub fn gx_document_book_push(&mut self) -> (booking: u64)
        requires
            old(self).booking < u64::MAX,
        ensures
            booking == old(self).booking + 1,
            final(self).booking == booking,
    {
        self.booking = self.booking + 1;
        self.booking
    }

    /// Whether the push booked as `booking` fires: only the newest one does.
    pub fn push_booking_fires(&self, booking: u64) -> (fires: bool)
        ensures
            fires == (self.booking == booking),
    {
        self.booking == booking
    }
}

/// What the host counted of a document's traffic with the sidebar page and the daemon's echoes.
#[derive(Clone, Copy, Debug, Default, PartialEq, Eq)]
pub struct PageCounters {
    pub echoes_deferred: u64,
    pub deferred_recovered: u64,
    pub echoes_absent: u64,
    pub echoes_unparsable: u64,
    pub echoes_adopted: u64,
    pub echoes_equal: u64,
    pub echoes_refused: u64,
    pub echoes_pushed_back: u64,
    pub hand_backs: u64,
    pub hand_backs_dropped: u64,
    pub hand_offs_requested: u64,
}

/// What the sync guard made of a daemon echo.
#[derive(Clone, Copy, Debug, PartialEq, Eq, Structural)]
pub enum AdoptOutcome {
    NoEcho,
    Unparsable,
    Adopted,
    IgnoredEqual,
    IgnoredPending,
    ScheduledPush,
}

/// What settling with the page does once the stored document is read.
#[derive(Clone, Copy, Debug, PartialEq, Eq)]
pub enum SettleStep {
    /// The page holds an edit this app has not taken: it is asked to hand its document over.
    AskPage,
    /// The page is handed the held document.
    HandBack,
}

/// The host's link with the sidebar page, which no longer reads the daemon's copy itself: the echo
/// that arrived before the stored document was read, whether the page holds an edit this app had
/// to refuse, and the document the page was last told, by its text.
pub struct PageLink {
    pub deferred_echo: Option<Option<Json>>,
    pub page_holds_newer: bool,
    pub handed_back: Option<String>,
    pub counters: PageCounters,
}

/// What one counter holds after `outcome` is counted.
pub open spec fn adopt_counted(before: PageCounters, after: PageCounters, outcome: AdoptOutcome) -> bool {
    &&& after.echoes_absent == before.echoes_absent + (if outcome == AdoptOutcome::NoEcho {
        1int
    } else {
        0int
    })
    &&& after.echoes_unparsable == before.echoes_unparsable + (if outcome
        == AdoptOutcome::Unparsable {
        1int
    } else {
        0int
    })
    &&& after.echoes_adopted == before.echoes_adopted + (if outcome == AdoptOutcome::Adopted {
        1int
    } else {
        0int
    })
    &&& after.echoes_equal == before.echoes_equal + (if outcome == AdoptOutcome::IgnoredEqual {
        1int
    } else {
        0int
    })
    &&& after.echoes_refused == before.echoes_refused + (if outcome == AdoptOutcome::IgnoredPending {
        1int
    } else {
        0int
    })
    &&& after.echoes_pushed_back == before.echoes_pushed_back + (if outcome
        == AdoptOutcome::ScheduledPush {
        1int
    } else {
        0int
    })
    &&& after.echoes_deferred == before.echoes_deferred
    &&& after.hand_backs == before.hand_backs
}

/// Counters that counted nothing yet.
pub open spec fn zero_page_counters() -> PageCounters {
    PageCounters {
        echoes_deferred: 0,
        deferred_recovered: 0,
        echoes_absent: 0,
        echoes_unparsable: 0,
        echoes_adopted: 0,
        echoes_equal: 0,
        echoes_refused: 0,
        echoes_pushed_back: 0,
        hand_backs: 0,
        hand_backs_dropped: 0,
        hand_offs_requested: 0,
    }
}

impl PageLink {
    /// A link that has told the page nothing yet.
    pub fn new() -> (link: Self)
        ensures
            link.deferred_echo is None,
            !link.page_holds_newer,
            link.handed_back is None,
            link.counters == zero_page_counters(),
    {
        PageLink {
            deferred_echo: None,
            page_holds_newer: false,
            handed_back: None,
            counters: PageCounters {
                echoes_deferred: 0,
                deferred_recovered: 0,
                echoes_absent: 0,
                echoes_unparsable: 0,
                echoes_adopted: 0,
                echoes_equal: 0,
                echoes_refused: 0,
                echoes_pushed_back: 0,
                hand_backs: 0,
                hand_backs_dropped: 0,
                hand_offs_requested: 0,
            },
        }
    }

    /// Keeps an echo that arrived before the stored document was read, as it arrived: a later one
    /// replaces it, because the reconcile runs again for every frame that moves the document.
    pub fn defer_echo(&mut self, server_state: Option<Json>)
        requires
            old(self).counters.echoes_deferred < u64::MAX,
        ensures
            final(self).deferred_echo == Some(server_state),
            final(self).counters.echoes_deferred == old(self).counters.echoes_deferred + 1,
            final(self).page_holds_newer == old(self).page_holds_newer,
            final(self).handed_back == old(self).handed_back,
    {
        self.counters.echoes_deferred = self.counters.echoes_deferred + 1;
        self.deferred_echo = Some(server_state);
    }

    /// Counts what the sync guard made of an echo. Returns whether it is worth a warning: an echo
    /// that could not be read was dropped whole, and the document silently stopped following the
    /// daemon.
    pub fn count_adopt(&mut self, outcome: AdoptOutcome) -> (warn: bool)
        requires
            old(self).counters.echoes_absent < u64::MAX,
            old(self).counters.echoes_unparsable < u64::MAX,
            old(self).counters.echoes_adopted < u64::MAX,
            old(self).counters.echoes_equal < u64::MAX,
            old(self).counters.echoes_refused < u64::MAX,
            old(self).counters.echoes_pushed_back < u64::MAX,
        ensures
            adopt_counted(old(self).counters, final(self).counters, outcome),
            warn == (outcome == AdoptOutcome::Unparsable),
            final(self).deferred_echo == old(self).deferred_echo,
            final(self).handed_back == old(self).handed_back,
    {
        match outcome {
            AdoptOutcome::NoEcho => self.counters.echoes_absent = self.counters.echoes_absent + 1,
            AdoptOutcome::Unparsable => self.counters.echoes_unparsable = self.counters.echoes_unparsable
                + 1,
            AdoptOutcome::Adopted => self.counters.echoes_adopted = self.counters.echoes_adopted + 1,
            AdoptOutcome::IgnoredEqual => self.counters.echoes_equal = self.counters.echoes_equal + 1,
            AdoptOutcome::IgnoredPending => self.counters.echoes_refused = self.counters.echoes_refused
                + 1,
            AdoptOutcome::ScheduledPush => self.counters.echoes_pushed_back
                = self.counters.echoes_pushed_back + 1,
        }
        outcome == AdoptOutcome::Unparsable
    }

    /// Takes the echo a deferral owes, once the read has landed; it is judged then, as it arrived.
    pub fn take_deferred_echo(&mut self) -> (owed: Option<Option<Json>>)
        requires
            old(self).counters.deferred_recovered < u64::MAX,
        ensures
            owed == old(self).deferred_echo,
            final(self).deferred_echo is None,
            final(self).counters.deferred_recovered == old(self).counters.deferred_recovered + (if owed
                is Some {
                1int
            } else {
                0int
            }),
            final(self).page_holds_newer == old(self).page_holds_newer,
            final(self).handed_back == old(self).handed_back,
    {
        let owed = self.deferred_echo.take();
        if owed.is_some() {
            self.counters.deferred_recovered = self.counters.deferred_recovered + 1;
        }
        owed
    }

    /// How the page is settled with: asked for its document while it holds an edit this app could
    /// not take, else handed the held one.
    pub fn settle_step(&self) -> (step: SettleStep)
        ensures
            step == (if self.page_holds_newer {
                SettleStep::AskPage
            } else {
                SettleStep::HandBack
            }),
    {
        if self.page_holds_newer {
            SettleStep::AskPage
        } else {
            SettleStep::HandBack
        }
    }

    /// Whether the page is told the held document: never while it holds an edit this app had to
    /// refuse, which telling it would replace, and only when the document moved since it was last
    /// told.
    pub fn hand_back_due(&self, held: &str) -> (due: bool)
        ensures
            due == (!self.page_holds_newer && !(self.handed_back matches Some(h) && h@ == held@)),
    {
        if self.page_holds_newer {
            return false;
        }
        match &self.handed_back {
            Some(h) => !same_text(h.as_str(), held),
            None => true,
        }
    }

    /// Records a hand-back: the page counts as told only when the script was dispatched, so a page
    /// that was not there yet is told on the next change rather than never.
    pub fn note_hand_back(&mut self, held: String, sent: bool)
        requires
            old(self).counters.hand_backs < u64::MAX,
            old(self).counters.hand_backs_dropped < u64::MAX,
        ensures
            sent ==> final(self).handed_back == Some(held) && final(self).counters.hand_backs == old(self).counters.hand_backs + 1 && final(self).counters.hand_backs_dropped == old(self).counters.hand_backs_dropped,
            !sent ==> final(self).handed_back == old(self).handed_back && final(self).counters.hand_backs_dropped == old(self).counters.hand_backs_dropped + 1
                && final(self).counters.hand_backs == old(self).counters.hand_backs,
            final(self).page_holds_newer == old(self).page_holds_newer,
    {
        if sent {
            self.counters.hand_backs = self.counters.hand_backs + 1;
            self.handed_back = Some(held);
        } else {
            self.counters.hand_backs_dropped = self.counters.hand_backs_dropped + 1;
        }
    }

    /// Counts a request for the page's document, when the script was dispatched.
    pub fn note_hand_off_requested(&mut self, sent: bool)
        requires
            old(self).counters.hand_offs_requested < u64::MAX,
        ensures
            final(self).counters.hand_offs_requested == old(self).counters.hand_offs_requested + (if sent {
                1int
            } else {
                0int
            }),
            final(self).handed_back == old(self).handed_back,
            final(self).page_holds_newer == old(self).page_holds_newer,
    {
        if sent {
            self.counters.hand_offs_requested = self.counters.hand_offs_requested + 1;
        }
    }
}

/// Whether the store has to be handed the guard's document after an echo: only where the echo, as
/// the document it parses to, is not that document already. Writing it unconditionally would put
/// this app's round trip of the daemon's own document back, and every byte the sanitizer moves
/// would book another reconcile, for ever. Documents are compared by their text.
pub fn store_needs_held(echoed: Option<&str>, held: &str) -> (needs: bool)
    ensures
        needs == !(echoed matches Some(e) && e@ == held@),
{
    match echoed {
        Some(e) => !same_text(e, held),
        None => true,
    }
}

} // verus!
