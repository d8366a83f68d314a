//! The sidebar list's own decisions: when it is ready to draw, which list is drawn, which
//! selected rows survive a redraw, when its clock next wakes it, and the agent its launchers
//! treat as the default.

use vstd::prelude::*;

use crate::effects::Json;
use crate::keyed::KeyedMap;
use crate::sidebar_inputs::SessionSortMode;
use crate::json_fields::{as_text, as_u64, get, get_of, opt_deref, owned, string_view, text_of, u64_of};
use crate::text::same_text;

verus! {

broadcast use vstd::string::group_string_axioms;

/// How long the list waits for a missing leg before drawing without it, in milliseconds.
pub const RECOVERY_WAIT_MS: u64 = 8000;
/// The shortest wait a deadline timer is booked for, in milliseconds.
pub const MIN_DEADLINE_WAIT_MS: u64 = 50;
/// The longest stored agent id kept as the default launcher, in bytes.
pub const MAX_LAUNCHER_ID_BYTES: usize = 128;

/// The list's recovery from a leg that never arrived: when it started waiting, and which legs it
/// draws without.
#[derive(Clone, Copy, Debug, Default, PartialEq, Eq)]
pub struct SidebarReadyRecovery {
    pub started_at_ms: Option<u64>,
    pub hud: bool,
    pub state: bool,
}

/// The list is ready when it has the sidebar's own state and the HUD, each either read or given
/// up on.
pub open spec fn list_ready_of(r: SidebarReadyRecovery, state_restored: bool, hud_present: bool) -> bool {
    (state_restored || r.state) && (hud_present || r.hud)
}

impl SidebarReadyRecovery {
    /// Starts the wait at `now_ms`, once.
    pub fn start(&mut self, now_ms: u64)
        ensures
            final(self).started_at_ms == match old(self).started_at_ms {
                Some(at) => Some(at),
                None => Some(now_ms),
            },
            final(self).hud == old(self).hud,
            final(self).state == old(self).state,
    {
        if self.started_at_ms.is_none() {
            self.started_at_ms = Some(now_ms);
        }
    }

    /// How long the list has waited at `now_ms`, when it is waiting.
    pub fn waited(&self, now_ms: u64) -> (waited: Option<u64>)
        ensures
            waited == match self.started_at_ms {
                Some(at) => Some(if now_ms >= at {
                    (now_ms - at) as u64
                } else {
                    0
                }),
                None => None,
            },
    {
        match self.started_at_ms {
            Some(at) => Some(if now_ms >= at {
                now_ms - at
            } else {
                0
            }),
            None => None,
        }
    }

    /// Whether the sidebar list can be drawn: the sidebar's own state was read (`state_restored`)
    /// or given up on, and the HUD arrived (`hud_present`) or was given up on.
    pub fn gx_store_sidebar_list_ready(&self, state_restored: bool, hud_present: bool) -> (ready: bool)
        ensures
            ready == list_ready_of(*self, state_restored, hud_present),
    {
        (state_restored || self.state) && (hud_present || self.hud)
    }

    /// Gives up on the missing legs once the list has waited eight seconds without being ready.
    /// Gives `(hud missing, state missing, waited)` when it did; the list is ready afterwards.
    pub fn gx_store_check_sidebar_ready_recovery(
        &mut self,
        state_restored: bool,
        hud_present: bool,
        now_ms: u64,
    ) -> (recovered: Option<(bool, bool, u64)>)
        ensures
            recovered is Some <==> !list_ready_of(*old(self), state_restored, hud_present) && (old(
                self,
            ).started_at_ms matches Some(at) && (if now_ms >= at {
                now_ms - at
            } else {
                0
            }) >= RECOVERY_WAIT_MS),
            recovered matches Some((hud_missing, state_missing, _)) ==> hud_missing == !hud_present
                && state_missing == !state_restored && final(self).hud == (old(self).hud
                || !hud_present) && final(self).state == (old(self).state || !state_restored)
                && list_ready_of(*final(self), state_restored, hud_present),
            recovered is None ==> *final(self) == *old(self),
            final(self).started_at_ms == old(self).started_at_ms,
    {
        if self.gx_store_sidebar_list_ready(state_restored, hud_present) {
            return None;
        }
        let waited = match self.waited(now_ms) {
            Some(w) => w,
            None => return None,
        };
        if waited < RECOVERY_WAIT_MS {
            return None;
        }
        let hud_missing = !hud_present;
        let state_missing = !state_restored;
        self.hud = self.hud || hud_missing;
        self.state = self.state || state_missing;
        Some((hud_missing, state_missing, waited))
    }
}

/// Which list the renderer draws.
#[derive(Clone, Copy, Debug, PartialEq, Eq, Structural)]
pub enum SidebarListSource {
    /// The snapshot the old projection publishes.
    Projection,
    /// The list derived from the store.
    Store,
}

/// What `str::to_lowercase` gives for a text.
pub uninterp spec fn lowercase_of(s: Seq<char>) -> Seq<char>;

/// `s.to_lowercase()`.
#[verifier::external_body]
fn to_lowercase(s: &str) -> (lower: String)
    ensures
        lower@ == lowercase_of(s@),
{
    s.to_lowercase()
}

/// The list a configured value chooses: the store's for `store` in any case, the projection's
/// for anything else.
pub open spec fn list_source_of(chosen: Seq<char>) -> SidebarListSource {
    if lowercase_of(chosen) == "store"@ {
        SidebarListSource::Store
    } else {
        SidebarListSource::Projection
    }
}

/// Which list a configured value chooses.
pub fn sidebar_list_source_of(chosen: &str) -> (source: SidebarListSource)
    ensures
        source == list_source_of(chosen@),
{
    let lower = to_lowercase(chosen);
    if same_text(lower.as_str(), "store") {
        SidebarListSource::Store
    } else {
        SidebarListSource::Projection
    }
}

/// Which list the renderer draws: the projection's until the sidebar's own state is read, else
/// the one the configured value chooses.
pub fn gx_store_sidebar_list_source(state_restored: bool, chosen: &str) -> (source: SidebarListSource)
    ensures
        source == if state_restored {
            list_source_of(chosen@)
        } else {
            SidebarListSource::Projection
        },
{
    if !state_restored {
        return SidebarListSource::Projection;
    }
    sidebar_list_source_of(chosen)
}

/// Whether the store's own list is drawn: it is the chosen source and the store supports it.
pub fn gx_store_sidebar_draws_store_list(source: SidebarListSource, supported: bool) -> (draws: bool)
    ensures
        draws == (source == SidebarListSource::Store && supported),
{
    source == SidebarListSource::Store && supported
}

/// Whether the installed list carries the menus of the published projection `identity`.
pub fn gx_store_sidebar_list_carries_projection(installed: usize, identity: usize) -> (carries: bool)
    ensures
        carries == (installed == identity),
{
    installed == identity
}

/// Keeps the selected rows that are still drawn; `true` when some selection was dropped.
pub fn gx_store_prune_sidebar_selection(selected: &mut Vec<String>, drawn: &Vec<String>) -> (changed:
    bool)
    ensures
        final(selected)@.map_values(|s: String| s@) == old(selected)@.map_values(|s: String| s@).filter(
            |s: Seq<char>| drawn@.map_values(|d: String| d@).contains(s),
        ),
        changed == (final(selected)@.len() != old(selected)@.len()),
{
    let ghost drawn_view = drawn@.map_values(|d: String| d@);
    let ghost pred = |s: Seq<char>| drawn_view.contains(s);
    let ghost before = selected@.map_values(|s: String| s@);
    let mut kept: Vec<String> = Vec::new();
    let mut i: usize = 0;
    while i < selected.len()
        invariant
            0 <= i <= selected@.len(),
            before == selected@.map_values(|s: String| s@),
            drawn_view == drawn@.map_values(|d: String| d@),
            pred == (|s: Seq<char>| drawn_view.contains(s)),
            kept@.map_values(|s: String| s@) == before.take(i as int).filter(pred),
        decreases selected@.len() - i,
    {
        proof {
            assert(before.take(i as int + 1).drop_last() =~= before.take(i as int));
            reveal_with_fuel(Seq::filter, 1);
        }
        if crate::local_focus::contains_row(drawn, selected[i].as_str()) {
            let ghost was = kept@;
            kept.push(selected[i].clone());
            proof {
                assert(kept@.map_values(|s: String| s@) =~= was.map_values(|s: String| s@).push(
                    selected@[i as int]@,
                ));
            }
        }
        i = i + 1;
    }
    proof {
        assert(before.take(before.len() as int) =~= before);
        assert(kept@.map_values(|s: String| s@).len() == kept@.len());
    }
    let changed = kept.len() != selected.len();
    *selected = kept;
    changed
}

/// The next moment the list moves on its own: the earlier of the list's own deadline and, while
/// the store's list is drawn, its labels' deadline.
pub open spec fn next_deadline_of(list: Option<u64>, labels: Option<u64>) -> Option<u64> {
    match (list, labels) {
        (Some(a), Some(b)) => Some(if a <= b {
            a
        } else {
            b
        }),
        (Some(a), None) => Some(a),
        (None, b) => b,
    }
}

/// What booking the list's clock does.
#[derive(Clone, Copy, Debug, PartialEq, Eq)]
pub enum DeadlineBooking {
    /// Nothing moves on its own; the booking is cleared.
    Clear,
    /// A timer for an earlier or equal deadline already covers this one.
    Covered,
    /// Book a timer for `deadline`, sleeping `wait` milliseconds.
    Book { deadline: u64, wait: u64 },
}

/// Books one timer for the next moment a row moves on its own; `booked` is the deadline a timer is
/// already booked for. The wait is never shorter than [`MIN_DEADLINE_WAIT_MS`].
pub fn gx_store_book_sidebar_deadline(
    booked: &mut Option<u64>,
    list_deadline: Option<u64>,
    label_deadline: Option<u64>,
    draws_store_list: bool,
    now_ms: u64,
) -> (booking: DeadlineBooking)
    ensures
        ({
            let labels = if draws_store_list {
                label_deadline
            } else {
                None
            };
            match next_deadline_of(list_deadline, labels) {
                None => booking == DeadlineBooking::Clear && *final(booked) is None,
                Some(d) => if (*old(booked) matches Some(b) && b <= d) {
                    booking == DeadlineBooking::Covered && *final(booked) == *old(booked)
                } else {
                    &&& *final(booked) == Some(d)
                    &&& booking == DeadlineBooking::Book {
                        deadline: d,
                        wait: if d >= now_ms && d - now_ms >= MIN_DEADLINE_WAIT_MS {
                            (d - now_ms) as u64
                        } else {
                            MIN_DEADLINE_WAIT_MS
                        },
                    }
                },
            }
        }),
{
    let labels = if draws_store_list {
        label_deadline
    } else {
        None
    };
    let next = match (list_deadline, labels) {
        (Some(a), Some(b)) => Some(if a <= b {
            a
        } else {
            b
        }),
        (Some(a), None) => Some(a),
        (None, b) => b,
    };
    let deadline = match next {
        Some(d) => d,
        None => {
            *booked = None;
            return DeadlineBooking::Clear;
        },
    };
    if let Some(b) = *booked {
        if b <= deadline {
            return DeadlineBooking::Covered;
        }
    }
    *booked = Some(deadline);
    let wait = if deadline >= now_ms && deadline - now_ms >= MIN_DEADLINE_WAIT_MS {
        deadline - now_ms
    } else {
        MIN_DEADLINE_WAIT_MS
    };
    DeadlineBooking::Book { deadline, wait }
}

} // verus!

verus! {

/// The default launcher a stored value names: the value trimmed, when that is not empty and takes
/// at most 128 bytes.
pub open spec fn launcher_id_of(stored: Option<Seq<char>>) -> Option<Seq<char>> {
    match stored {
        Some(raw) => {
            let id = crate::text::trimmed(raw);
            if id.len() > 0 && vstd::utf8::encode_utf8(id).len() <= MAX_LAUNCHER_ID_BYTES {
                Some(id)
            } else {
                None
            }
        },
        None => None,
    }
}

/// The agent the launchers treat as the default, from what client storage holds (`stored`,
/// `None` when nothing is stored or it could not be read): trimmed, `None` when empty or longer
/// than 128 bytes.
pub fn read_primary_agent_launcher_id(stored: Option<&str>) -> (id: Option<String>)
    ensures
        crate::records::opt_view(id) == launcher_id_of(crate::chat_storage::opt_str(stored)),
{
    let raw = stored?;
    let id = crate::text::trim_text(raw);
    if id.as_str().unicode_len() > 0 && id.as_str().as_bytes().len() <= MAX_LAUNCHER_ID_BYTES {
        Some(id)
    } else {
        None
    }
}

/// What a host message on its way to the runtime does to the default launcher: a
/// `runSidebarAgent` message with an agent stores that agent as it came and makes its trimmed id
/// the default (none when the trimmed id is empty or over 128 bytes); any other message does
/// nothing.
pub fn gx_store_note_primary_launcher_host_message(
    message_type: Option<&str>,
    agent_id: Option<&str>,
) -> (note: Option<(String, Option<String>)>)
    ensures
        note is Some <==> (message_type matches Some(t) && t@ == "runSidebarAgent"@ && agent_id is Some),
        note matches Some((stored, default_id)) ==> stored@ == agent_id->0@
            && crate::records::opt_view(default_id) == launcher_id_of(Some(agent_id->0@)),
{
    let is_run = match message_type {
        Some(t) => same_text(t, "runSidebarAgent"),
        None => false,
    };
    if !is_run {
        return None;
    }
    let agent = agent_id?;
    Some((String::from_str(agent), read_primary_agent_launcher_id(Some(agent))))
}

/// How long this computer's daemon has been unavailable, which the list's empty state reads.
#[derive(Clone, Copy, Debug, Default, PartialEq, Eq)]
pub struct UnavailableSince {
    pub since_ms: Option<u64>,
    /// The daemon was seen available at least once.
    pub observed_available: bool,
}

impl UnavailableSince {
    /// The daemon's rows were `loaded` at `now_ms`, or not: a loaded daemon clears the clock and
    /// is remembered as seen; an unloaded one starts the clock once.
    pub fn note_machine_state(&mut self, loaded: bool, now_ms: u64)
        ensures
            loaded ==> final(self).since_ms is None && final(self).observed_available,
            !loaded ==> final(self).observed_available == old(self).observed_available
                && final(self).since_ms == match old(self).since_ms {
                Some(at) => Some(at),
                None => Some(now_ms),
            },
    {
        if loaded {
            self.since_ms = None;
            self.observed_available = true;
        } else if self.since_ms.is_none() {
            self.since_ms = Some(now_ms);
        }
    }
}

/// Whether an update of the list would find nothing to do: a list was built, nothing marked it,
/// the store changed nothing it draws, focus and settings read as they did, and no row's own clock
/// (`deadline`) has run out at `now_ms`.
pub fn nothing_moved(
    built: bool,
    dirty: bool,
    changes_empty: bool,
    same_focus: bool,
    same_settings: bool,
    deadline: Option<u64>,
    now_ms: u64,
) -> (idle: bool)
    ensures
        idle == (built && !dirty && changes_empty && same_focus && same_settings && !(
        deadline matches Some(d) && now_ms >= d)),
{
    let due = match deadline {
        Some(d) => now_ms >= d,
        None => false,
    };
    built && !dirty && changes_empty && same_focus && same_settings && !due
}

/// What the runtime's facts channel counted.
#[derive(Clone, Copy, Debug, Default, PartialEq, Eq)]
pub struct RuntimeFactsCounters {
    pub hud_posts: u64,
    pub row_posts: u64,
    pub reveal_posts: u64,
    pub unparsable: u64,
    pub reveals_held: u64,
    pub reveals_replayed: u64,
}

/// One post of the runtime's facts channel, as far as its kind and its reveal go.
#[derive(Clone, Debug, PartialEq, Eq)]
pub enum FactsPost {
    /// The payload is no JSON.
    Unparsable,
    /// A new sidebar HUD.
    Hud,
    /// New per-row facts.
    Rows,
    /// A reveal request, with its fields where they have the right type.
    Reveal { session_id: Option<String>, request_id: Option<u64> },
    /// Any other kind, or none.
    Other,
}

/// The facts channel's bookkeeping: what it counted, the two generations the list reads, and the
/// newest reveal request.
#[derive(Clone, Debug, Default, PartialEq, Eq)]
pub struct RuntimeFacts {
    pub hud_generation: u64,
    pub rows_generation: u64,
    pub newest_reveal: Option<(String, u64)>,
    pub counters: RuntimeFactsCounters,
}

/// What a post asks of the app once it is taken in.
#[derive(Clone, Debug, PartialEq, Eq)]
pub enum FactsOutcome {
    /// Nothing more: the post was not understood.
    Dropped,
    /// The list is brought up to date.
    Refresh,
    /// This reveal is noted, then the list is brought up to date.
    RevealThenRefresh { session_id: String, request_id: u64 },
}

impl RuntimeFacts {
    /// Takes one post in: a HUD or rows post bumps its generation, a reveal with both fields
    /// becomes the newest reveal, and anything not understood is counted as unparsable.
    pub fn receive_sidebar_runtime_facts(&mut self, post: FactsPost) -> (outcome: FactsOutcome)
        requires
            old(self).hud_generation < u64::MAX,
            old(self).rows_generation < u64::MAX,
            old(self).counters.hud_posts < u64::MAX,
            old(self).counters.row_posts < u64::MAX,
            old(self).counters.reveal_posts < u64::MAX,
            old(self).counters.unparsable < u64::MAX,
        ensures
            match post {
                FactsPost::Hud => outcome == FactsOutcome::Refresh && *final(self) == (RuntimeFacts {
                    hud_generation: (old(self).hud_generation + 1) as u64,
                    counters: RuntimeFactsCounters {
                        hud_posts: (old(self).counters.hud_posts + 1) as u64,
                        ..old(self).counters
                    },
                    ..*old(self)
                }),
                FactsPost::Rows => outcome == FactsOutcome::Refresh && *final(self) == (RuntimeFacts {
                    rows_generation: (old(self).rows_generation + 1) as u64,
                    counters: RuntimeFactsCounters {
                        row_posts: (old(self).counters.row_posts + 1) as u64,
                        ..old(self).counters
                    },
                    ..*old(self)
                }),
                FactsPost::Reveal { session_id: Some(s), request_id: Some(r) } => outcome
                    == FactsOutcome::RevealThenRefresh { session_id: s, request_id: r } && *final(self)
                    == (RuntimeFacts {
                    newest_reveal: Some((s, r)),
                    counters: RuntimeFactsCounters {
                        reveal_posts: (old(self).counters.reveal_posts + 1) as u64,
                        ..old(self).counters
                    },
                    ..*old(self)
                }),
                FactsPost::Reveal { .. } => outcome == FactsOutcome::Refresh && *final(self) == (
                RuntimeFacts {
                    counters: RuntimeFactsCounters {
                        unparsable: (old(self).counters.unparsable + 1) as u64,
                        ..old(self).counters
                    },
                    ..*old(self)
                }),
                _ => outcome == FactsOutcome::Dropped && *final(self) == (RuntimeFacts {
                    counters: RuntimeFactsCounters {
                        unparsable: (old(self).counters.unparsable + 1) as u64,
                        ..old(self).counters
                    },
                    ..*old(self)
                }),
            },
    {
        match post {
            FactsPost::Hud => {
                self.hud_generation = self.hud_generation + 1;
                self.counters.hud_posts = self.counters.hud_posts + 1;
                FactsOutcome::Refresh
            },
            FactsPost::Rows => {
                self.rows_generation = self.rows_generation + 1;
                self.counters.row_posts = self.counters.row_posts + 1;
                FactsOutcome::Refresh
            },
            FactsPost::Reveal { session_id, request_id } => match (session_id, request_id) {
                (Some(s), Some(r)) => {
                    self.newest_reveal = Some((s.clone(), r));
                    self.counters.reveal_posts = self.counters.reveal_posts + 1;
                    FactsOutcome::RevealThenRefresh { session_id: s, request_id: r }
                },
                _ => {
                    self.counters.unparsable = self.counters.unparsable + 1;
                    FactsOutcome::Refresh
                },
            },
            _ => {
                self.counters.unparsable = self.counters.unparsable + 1;
                FactsOutcome::Dropped
            },
        }
    }
}

/// What a post of the facts channel is, read from its JSON (`None` where the payload is no JSON):
/// its `kind`, and for a reveal its `sessionId` text and `requestId` number.
pub open spec fn facts_post_is(value: Option<Json>, post: FactsPost) -> bool {
    match value {
        None => post == FactsPost::Unparsable,
        Some(j) => {
            let kind = text_of(get_of(j, "kind"@));
            if kind == Some("hud"@) {
                post == FactsPost::Hud
            } else if kind == Some("rows"@) {
                post == FactsPost::Rows
            } else if kind == Some("reveal"@) {
                post matches FactsPost::Reveal { session_id, request_id } && string_view(session_id)
                    == text_of(get_of(j, "sessionId"@)) && request_id == u64_of(
                    get_of(j, "requestId"@),
                )
            } else {
                post == FactsPost::Other
            }
        },
    }
}

/// Reads one post of the runtime's facts channel by its kind.
pub fn facts_post(value: Option<&Json>) -> (post: FactsPost)
    ensures
        facts_post_is(opt_deref(value), post),
{
    let value = match value {
        Some(v) => v,
        None => return FactsPost::Unparsable,
    };
    match as_text(get(value, "kind")) {
        Some(kind) => if same_text(kind, "hud") {
            FactsPost::Hud
        } else if same_text(kind, "rows") {
            FactsPost::Rows
        } else if same_text(kind, "reveal") {
            FactsPost::Reveal {
                session_id: owned(as_text(get(value, "sessionId"))),
                request_id: as_u64(get(value, "requestId")),
            }
        } else {
            FactsPost::Other
        },
        None => FactsPost::Other,
    }
}

/// How long the sidebar settings read is reused, in milliseconds.
pub const SETTINGS_MAX_AGE_MS: u64 = 1000;

/// What the list's settings were last built from: the saved settings' content hash and the sort
/// mode, and when the settings file was last read.
pub struct SettingsCache {
    pub held: Option<(u64, SessionSortMode)>,
    pub read_at: Option<u64>,
}

/// Whether the settings are built again.
#[derive(Clone, Copy, Debug, PartialEq, Eq)]
pub enum SettingsStep {
    /// The held settings stand.
    Reuse,
    /// The settings file is read.
    Read,
}

/// How long ago `at` was, never negative.
pub open spec fn age_ms(now_ms: u64, at: u64) -> int {
    if now_ms >= at {
        now_ms - at
    } else {
        0
    }
}

impl SettingsCache {
    /// Whether the held settings were built for `sort_mode` from a read less than a second old.
    pub open spec fn reusable(&self, sort_mode: SessionSortMode, now_ms: u64) -> bool {
        match (self.held, self.read_at) {
            (Some((_, held_sort)), Some(at)) => held_sort == sort_mode && age_ms(now_ms, at)
                < SETTINGS_MAX_AGE_MS,
            _ => false,
        }
    }

    /// Whether the held settings stand without reading the file: read less than a second ago, for
    /// the same sort mode.
    pub fn settings_step(&self, sort_mode: SessionSortMode, now_ms: u64) -> (step: SettingsStep)
        ensures
            step == (if self.reusable(sort_mode, now_ms) {
                SettingsStep::Reuse
            } else {
                SettingsStep::Read
            }),
    {
        match (self.held, self.read_at) {
            (Some((_, held_sort)), Some(at)) => {
                let age = if now_ms >= at {
                    now_ms - at
                } else {
                    0
                };
                if held_sort == sort_mode && age < SETTINGS_MAX_AGE_MS {
                    SettingsStep::Reuse
                } else {
                    SettingsStep::Read
                }
            },
            _ => SettingsStep::Read,
        }
    }

    /// Takes in a read of the settings file: the held settings stand when the saved content and
    /// the sort mode are the ones they were built from; otherwise they are built again and held
    /// under this content.
    pub fn after_read(&mut self, saved_hash: u64, sort_mode: SessionSortMode, now_ms: u64) -> (step:
        SettingsStep)
        ensures
            final(self).read_at == Some(now_ms),
            step == (if old(self).held == Some((saved_hash, sort_mode)) {
                SettingsStep::Reuse
            } else {
                SettingsStep::Read
            }),
            final(self).held == Some((saved_hash, sort_mode)),
    {
        self.read_at = Some(now_ms);
        let same = match self.held {
            Some((hash, held_sort)) => hash == saved_hash && held_sort == sort_mode,
            None => false,
        };
        self.held = Some((saved_hash, sort_mode));
        if same {
            SettingsStep::Reuse
        } else {
            SettingsStep::Read
        }
    }
}

/// One armed timer of a session as a chat's working row draws it: its id and its label.
pub open spec fn actions_view(a: Seq<(String, String)>) -> Seq<(Seq<char>, Seq<char>)> {
    a.map_values(|x: (String, String)| (x.0@, x.1@))
}

/// Whether the armed timers moved: another number of sessions, or a session whose timers differ
/// from what the open chats were last handed.
pub open spec fn armed_changed_of(
    armed: Seq<(String, Vec<(String, String)>)>,
    current: KeyedMap<Vec<(String, String)>>,
) -> bool {
    armed.len() != current.entries@.len() || exists|i: int|
        0 <= i < armed.len() && !(current.as_map().contains_key(#[trigger] armed[i].0@)
            && actions_view(current.as_map()[armed[i].0@]@) == actions_view(armed[i].1@))
}

/// Whether two lists of armed timers read the same.
fn same_actions(a: &Vec<(String, String)>, b: &Vec<(String, String)>) -> (same: bool)
    ensures
        same == (actions_view(a@) == actions_view(b@)),
{
    if a.len() != b.len() {
        proof {
            assert(actions_view(a@).len() != actions_view(b@).len());
        }
        return false;
    }
    let mut i: usize = 0;
    while i < a.len()
        invariant
            0 <= i <= a@.len(),
            a@.len() == b@.len(),
            forall|j: int| 0 <= j < i ==> actions_view(a@)[j] == actions_view(b@)[j],
        decreases a@.len() - i,
    {
        if !same_text(a[i].0.as_str(), b[i].0.as_str()) || !same_text(a[i].1.as_str(), b[i].1.as_str()) {
            proof {
                assert(actions_view(a@)[i as int] != actions_view(b@)[i as int]);
            }
            return false;
        }
        i = i + 1;
    }
    proof {
        assert(actions_view(a@) =~= actions_view(b@));
    }
    true
}

/// Whether the armed timers moved since the open chats were last handed them.
pub fn armed_actions_changed(
    armed: &Vec<(String, Vec<(String, String)>)>,
    current: &KeyedMap<Vec<(String, String)>>,
) -> (changed: bool)
    requires
        current.well_formed(),
    ensures
        changed == armed_changed_of(armed@, *current),
{
    if armed.len() != current.len() {
        return true;
    }
    let mut i: usize = 0;
    while i < armed.len()
        invariant
            0 <= i <= armed@.len(),
            current.well_formed(),
            forall|j: int|
                0 <= j < i ==> current.as_map().contains_key(#[trigger] armed@[j].0@) && actions_view(
                    current.as_map()[armed@[j].0@]@,
                ) == actions_view(armed@[j].1@),
        decreases armed@.len() - i,
    {
        match current.get(armed[i].0.as_str()) {
            Some(held) => {
                if !same_actions(held, &armed[i].1) {
                    return true;
                }
            },
            None => return true,
        }
        i = i + 1;
    }
    false
}

} // verus!
