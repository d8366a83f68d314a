//! What follows a local selection once the user stops moving: the old runtime is told once, and
//! the heavy work of showing a tab runs for the tab the user landed on.
//!
//! Two deadlines drive it. The tell goes out 120 ms after the last selection or attention
//! acknowledge. Heavy work waits while selections keep arriving less than 250 ms apart, until
//! none has come for 80 ms. One task serves both deadlines; it sleeps until the nearer one, never
//! for less than a millisecond, and ends when neither is pending.

use vstd::prelude::*;

use crate::local_focus::{
    FocusEchoes, SessionRef, copy_session, expect_echo_of, same_session,
    session_view, texts_view,
};
use crate::text::same_text;

verus! {

broadcast use vstd::string::group_string_axioms;

/// The old runtime is told this long after the last local selection or acknowledge.
pub const TELL_DELAY_MS: u64 = 120;
/// Heavy work waits until the selection has not moved for this long.
pub const SETTLE_DELAY_MS: u64 = 80;
/// A selection this long after the previous one starts a new gesture.
pub const BURST_GAP_MS: u64 = 250;
/// Most remembered sessions one tell carries.
pub const MAX_REMEMBERED_PER_TELL: usize = 16;

/// A local selection the old runtime has not been told about yet.
#[derive(Clone, Debug, PartialEq, Eq)]
pub struct PendingTell {
    pub key: SessionRef,
    pub local_was_sleeping: bool,
    pub local_runtime_missing: bool,
}

/// The last selection the old runtime was told, and the stamp it was told with.
#[derive(Clone, Debug, PartialEq, Eq)]
pub struct ToldSelection {
    pub key: SessionRef,
    pub stamp: u64,
}

/// The burst clock and what waits for the next tell.
pub struct SelectionBurst {
    pub last_selection_ms: Option<u64>,
    /// Set while heavy per-selection work is held back.
    pub settle_due_ms: Option<u64>,
    pub tell_due_ms: Option<u64>,
    pub task_running: bool,
    pub steps: u32,
    pub chat_reconcile_wanted: bool,
    pub pending_tell: Option<PendingTell>,
    pub pending_attention: Vec<SessionRef>,
    /// The newest remembered session per project from local selections no tell covered yet.
    pub pending_remembered: Vec<SessionRef>,
    pub last_tell: Option<ToldSelection>,
    pub settles: u64,
    pub tells: u64,
    pub attention_acknowledges: u64,
}

/// What one tell tells the old runtime.
#[derive(Clone, Debug, PartialEq, Eq)]
pub struct TellMessage {
    pub stamp: u64,
    pub key: SessionRef,
    pub visible_session_ids: Vec<String>,
    pub local_was_sleeping: bool,
    pub local_runtime_missing: bool,
    pub remembered: Vec<SessionRef>,
}

/// What a flush of the tell does.
pub enum TellFlush {
    /// Nothing was pending; nothing is sent and nothing is written.
    Nothing,
    /// Something was pending but there is no sidebar to tell; the focus file is still written.
    NoSidebar,
    /// Acknowledge these sessions' attention and send this tell, after writing the focus file.
    Send { acknowledged: Vec<SessionRef>, tell: Option<TellMessage> },
}

/// The sessions whose attention is acknowledged: those still in front, in order.
pub open spec fn acknowledged_of(keys: Seq<SessionRef>, in_front: Seq<bool>) -> Seq<SessionRef>
    decreases keys.len(),
{
    if keys.len() == 0 || in_front.len() < keys.len() {
        Seq::empty()
    } else {
        let rest = acknowledged_of(keys.drop_last(), in_front.take(keys.len() - 1));
        if in_front[keys.len() - 1] {
            rest.push(keys.last())
        } else {
            rest
        }
    }
}

/// The remembered sessions a tell carries, before the cap: those of other projects than the
/// told one whose ids the bridge allows, in order.
pub open spec fn remembered_of(rem: Seq<SessionRef>, allowed: Seq<bool>, project: Seq<char>) -> Seq<
    SessionRef,
>
    decreases rem.len(),
{
    if rem.len() == 0 || allowed.len() < rem.len() {
        Seq::empty()
    } else {
        let rest = remembered_of(rem.drop_last(), allowed.take(rem.len() - 1), project);
        if allowed[rem.len() - 1] && rem.last().project_id@ != project {
            rest.push(rem.last())
        } else {
            rest
        }
    }
}

/// The visible sessions a tell carries: the sidebar's, with the told session added when absent.
pub open spec fn tell_visible_of(visible: Seq<Seq<char>>, session: Seq<char>) -> Seq<Seq<char>> {
    if visible.contains(session) {
        visible
    } else {
        visible.push(session)
    }
}

/// How long to sleep until `due`, never less than a millisecond.
pub open spec fn wait_until(due: u64, now_ms: u64) -> u64 {
    if due > now_ms + 1 {
        (due - now_ms) as u64
    } else {
        1
    }
}

/// The nearer of the two deadlines.
pub open spec fn next_due_of(settle: Option<u64>, tell: Option<u64>) -> Option<u64> {
    match (settle, tell) {
        (Some(s), Some(t)) => Some(if s <= t {
            s
        } else {
            t
        }),
        (Some(s), None) => Some(s),
        (None, t) => t,
    }
}

impl SelectionBurst {
    /// Whether heavy per-selection work is held back right now.
    pub fn is_settling(&self) -> (settling: bool)
        ensures
            settling == self.settle_due_ms is Some,
    {
        self.settle_due_ms.is_some()
    }

    /// Chat surfaces are reconciled when the selection settles.
    pub fn defer_chat_reconcile(&mut self)
        ensures
            final(self).chat_reconcile_wanted,
            final(self).settle_due_ms == old(self).settle_due_ms,
            final(self).tell_due_ms == old(self).tell_due_ms,
            final(self).steps == old(self).steps,
    {
        self.chat_reconcile_wanted = true;
    }

    /// Books a local selection into the burst clock at `now_ms`; `moved` is false when the same
    /// session was selected again, which never starts or prolongs a settle. A selection less than
    /// 250 ms after the previous one holds heavy work back until 80 ms from now. The tell is due
    /// 120 ms from now either way. Gives whether the burst task has to be started.
    pub fn gx_store_note_local_selection(&mut self, moved: bool, now_ms: u64) -> (start_task: bool)
        requires
            now_ms <= u64::MAX - TELL_DELAY_MS,
            old(self).steps < u32::MAX,
        ensures
            start_task == !old(self).task_running,
            final(self).task_running,
            final(self).tell_due_ms == Some((now_ms + TELL_DELAY_MS) as u64),
            ({
                let in_burst = moved && match old(self).last_selection_ms {
                    Some(p) => now_ms < p || now_ms - p < BURST_GAP_MS,
                    None => false,
                };
                &&& final(self).last_selection_ms == if moved {
                    Some(now_ms)
                } else {
                    old(self).last_selection_ms
                }
                &&& final(self).settle_due_ms == if in_burst {
                    Some((now_ms + SETTLE_DELAY_MS) as u64)
                } else {
                    old(self).settle_due_ms
                }
                &&& final(self).steps == if in_burst {
                    old(self).steps + 1
                } else if moved && old(self).settle_due_ms is None {
                    1
                } else {
                    old(self).steps as int
                }
            }),
            final(self).chat_reconcile_wanted == old(self).chat_reconcile_wanted,
            final(self).pending_tell == old(self).pending_tell,
            final(self).pending_attention == old(self).pending_attention,
            final(self).pending_remembered == old(self).pending_remembered,
            final(self).last_tell == old(self).last_tell,
            final(self).settles == old(self).settles,
            final(self).tells == old(self).tells,
            final(self).attention_acknowledges == old(self).attention_acknowledges,
    {
        if moved {
            let in_burst = match self.last_selection_ms {
                Some(previous) => now_ms < previous || now_ms - previous < BURST_GAP_MS,
                None => false,
            };
            self.last_selection_ms = Some(now_ms);
            if in_burst {
                self.steps = self.steps + 1;
                self.settle_due_ms = Some(now_ms + SETTLE_DELAY_MS);
            } else if self.settle_due_ms.is_none() {
                self.steps = 1;
            }
        }
        self.tell_due_ms = Some(now_ms + TELL_DELAY_MS);
        let start_task = !self.task_running;
        self.task_running = true;
        start_task
    }

    /// The selection has been stable: the held-back work runs now. Gives the steps the burst took
    /// and whether chat surfaces are to be reconciled, and clears both.
    pub fn gx_store_selection_settled(&mut self) -> (taken: (u32, bool))
        requires
            old(self).settles < u64::MAX,
        ensures
            taken == (old(self).steps, old(self).chat_reconcile_wanted),
            final(self).settle_due_ms is None,
            final(self).settles == old(self).settles + 1,
            final(self).steps == 0,
            !final(self).chat_reconcile_wanted,
            final(self).tell_due_ms == old(self).tell_due_ms,
            final(self).task_running == old(self).task_running,
            final(self).last_selection_ms == old(self).last_selection_ms,
    {
        self.settle_due_ms = None;
        self.settles = self.settles + 1;
        let steps = self.steps;
        self.steps = 0;
        let chat_reconcile = self.chat_reconcile_wanted;
        self.chat_reconcile_wanted = false;
        (steps, chat_reconcile)
    }

    /// Which of the two deadlines has passed at `now_ms`: `(settle, tell)`.
    pub fn due_burst_work(&self, now_ms: u64) -> (due: (bool, bool))
        ensures
            due.0 == (self.settle_due_ms matches Some(d) && d <= now_ms),
            due.1 == (self.tell_due_ms matches Some(d) && d <= now_ms),
    {
        let settle = match self.settle_due_ms {
            Some(d) => d <= now_ms,
            None => false,
        };
        let tell = match self.tell_due_ms {
            Some(d) => d <= now_ms,
            None => false,
        };
        (settle, tell)
    }

    /// How long the burst task sleeps after a turn: until the nearer deadline, never less than a
    /// millisecond; `None` when neither is pending, which ends the task.
    pub fn gx_store_run_due_burst_work(&mut self, now_ms: u64) -> (wait: Option<u64>)
        ensures
            match next_due_of(old(self).settle_due_ms, old(self).tell_due_ms) {
                Some(due) => wait == Some(wait_until(due, now_ms)) && final(self).task_running
                    == old(self).task_running,
                None => wait is None && !final(self).task_running,
            },
            wait matches Some(w) ==> w >= 1,
            final(self).settle_due_ms == old(self).settle_due_ms,
            final(self).tell_due_ms == old(self).tell_due_ms,
            final(self).steps == old(self).steps,
    {
        let next = match (self.settle_due_ms, self.tell_due_ms) {
            (Some(s), Some(t)) => Some(if s <= t {
                s
            } else {
                t
            }),
            (Some(s), None) => Some(s),
            (None, t) => t,
        };
        match next {
            Some(due) => Some(if due > now_ms && due - now_ms > 1 {
                due - now_ms
            } else {
                1
            }),
            None => {
                self.task_running = false;
                None
            },
        }
    }
}

} // verus!

verus! {

/// Whether `key` is among `keys`.
fn holds_session(keys: &Vec<SessionRef>, key: &SessionRef) -> (found: bool)
    ensures
        found == keys@.map_values(|k: SessionRef| session_view(k)).contains(session_view(*key)),
{
    let ghost views = keys@.map_values(|k: SessionRef| session_view(k));
    let mut i: usize = 0;
    while i < keys.len()
        invariant
            0 <= i <= keys@.len(),
            views == keys@.map_values(|k: SessionRef| session_view(k)),
            forall|j: int| 0 <= j < i ==> session_view(#[trigger] keys@[j]) != session_view(*key),
        decreases keys@.len() - i,
    {
        if same_session(&keys[i], key) {
            proof {
                assert(views[i as int] == session_view(*key));
            }
            return true;
        }
        i = i + 1;
    }
    proof {
        if views.contains(session_view(*key)) {
            let j = choose|j: int| 0 <= j < views.len() && views[j] == session_view(*key);
            assert(session_view(keys@[j]) == session_view(*key));
        }
    }
    false
}

/// The view of a list of sessions.
pub open spec fn sessions_view(s: Seq<SessionRef>) -> Seq<(Seq<char>, Seq<char>)> {
    s.map_values(|k: SessionRef| session_view(k))
}

impl SelectionBurst {
    /// A local selection of `key` waits for the next tell. Flags an earlier selection of the same
    /// session raised still hold, since the tab has not been attached or woken in between.
    pub fn note_pending_tell(&mut self, key: &SessionRef, local_was_sleeping: bool, local_runtime_missing: bool)
        ensures
            final(self).pending_tell matches Some(p) && p.key == *key && ({
                let (sleeping, missing) = match old(self).pending_tell {
                    Some(q) if session_view(q.key) == session_view(*key) => (
                        q.local_was_sleeping || local_was_sleeping,
                        q.local_runtime_missing || local_runtime_missing,
                    ),
                    _ => (local_was_sleeping, local_runtime_missing),
                };
                p.local_was_sleeping == sleeping && p.local_runtime_missing == missing
            }),
            final(self).tell_due_ms == old(self).tell_due_ms,
            final(self).settle_due_ms == old(self).settle_due_ms,
            final(self).pending_attention == old(self).pending_attention,
            final(self).pending_remembered == old(self).pending_remembered,
    {
        let (sleeping, missing) = match &self.pending_tell {
            Some(pending) => if same_session(&pending.key, key) {
                (
                    pending.local_was_sleeping || local_was_sleeping,
                    pending.local_runtime_missing || local_runtime_missing,
                )
            } else {
                (local_was_sleeping, local_runtime_missing)
            },
            None => (local_was_sleeping, local_runtime_missing),
        };
        self.pending_tell = Some(
            PendingTell {
                key: copy_session(key),
                local_was_sleeping: sleeping,
                local_runtime_missing: missing,
            },
        );
    }

    /// The attention of a session the user is looking at is acknowledged with the next tell, once
    /// per session; the tell is booked when none is. Gives whether the burst task has to start.
    pub fn gx_store_queue_attention_acknowledge(&mut self, key: SessionRef, now_ms: u64) -> (
        start_task: bool)
        requires
            now_ms <= u64::MAX - TELL_DELAY_MS,
        ensures
            start_task == !old(self).task_running,
            final(self).task_running,
            sessions_view(final(self).pending_attention@) == if sessions_view(
                old(self).pending_attention@,
            ).contains(session_view(key)) {
                sessions_view(old(self).pending_attention@)
            } else {
                sessions_view(old(self).pending_attention@).push(session_view(key))
            },
            final(self).tell_due_ms == match old(self).tell_due_ms {
                Some(d) => Some(d),
                None => Some((now_ms + TELL_DELAY_MS) as u64),
            },
            final(self).settle_due_ms == old(self).settle_due_ms,
            final(self).pending_tell == old(self).pending_tell,
    {
        if !holds_session(&self.pending_attention, &key) {
            let ghost before = self.pending_attention@;
            let ghost k = key;
            self.pending_attention.push(key);
            proof {
                assert(sessions_view(self.pending_attention@) =~= sessions_view(before).push(
                    session_view(k),
                ));
            }
        }
        if self.tell_due_ms.is_none() {
            self.tell_due_ms = Some(now_ms + TELL_DELAY_MS);
        }
        let start_task = !self.task_running;
        self.task_running = true;
        start_task
    }

    /// Keeps the newest remembered session per project.
    pub fn remember(&mut self, session: SessionRef)
        ensures
            sessions_view(final(self).pending_remembered@) == sessions_view(
                old(self).pending_remembered@.filter(
                    |r: SessionRef| r.project_id@ != session.project_id@,
                ),
            ).push(session_view(session)),
            final(self).pending_tell == old(self).pending_tell,
            final(self).pending_attention == old(self).pending_attention,
    {
        let ghost pred = |r: SessionRef| r.project_id@ != session.project_id@;
        let mut kept: Vec<SessionRef> = Vec::new();
        let mut i: usize = 0;
        while i < self.pending_remembered.len()
            invariant
                0 <= i <= self.pending_remembered@.len(),
                pred == (|r: SessionRef| r.project_id@ != session.project_id@),
                kept@ == self.pending_remembered@.take(i as int).filter(pred),
            decreases self.pending_remembered@.len() - i,
        {
            proof {
                let next = self.pending_remembered@.take(i as int + 1);
                assert(next.drop_last() =~= self.pending_remembered@.take(i as int));
                reveal_with_fuel(Seq::filter, 1);
            }
            if !same_text(self.pending_remembered[i].project_id.as_str(), session.project_id.as_str()) {
                kept.push(copy_session(&self.pending_remembered[i]));
            }
            i = i + 1;
        }
        proof {
            assert(self.pending_remembered@.take(self.pending_remembered@.len() as int)
                =~= self.pending_remembered@);
        }
        let ghost before = kept@;
        let ghost s = session;
        kept.push(session);
        self.pending_remembered = kept;
        proof {
            assert(sessions_view(self.pending_remembered@) =~= sessions_view(before).push(
                session_view(s),
            ));
        }
    }
}

} // verus!

verus! {

/// At most [`MAX_REMEMBERED_PER_TELL`] of `s`, the first ones.
pub open spec fn capped(s: Seq<SessionRef>) -> Seq<SessionRef> {
    if s.len() <= MAX_REMEMBERED_PER_TELL {
        s
    } else {
        s.take(MAX_REMEMBERED_PER_TELL as int)
    }
}

/// Whether `text` is among `texts`.
fn holds_text(texts: &Vec<String>, text: &str) -> (found: bool)
    ensures
        found == texts_view(texts@).contains(text@),
{
    crate::local_focus::contains_row(texts, text)
}

impl SelectionBurst {
    /// Tells the old runtime the newest local selection and the pending attention acknowledges.
    ///
    /// Nothing pending is nothing to say. With something pending but no sidebar, the remembered
    /// sessions are dropped. Otherwise the acknowledges go out for the sessions still in front
    /// (`in_front`, one flag per pending acknowledge, in order), and the pending selection is told
    /// with `stamp`: the sidebar's visible sessions (`visible_session_ids`) with its own added,
    /// its flags, and up to sixteen remembered sessions of other projects whose ids the bridge
    /// allows (`remembered_allowed`, one flag per remembered session). A tell that carries a flag
    /// expects the old runtime's focus request echoing it.
    pub fn gx_store_flush_old_runtime_tell(
        &mut self,
        echoes: &mut FocusEchoes,
        sidebar_present: bool,
        in_front: &Vec<bool>,
        visible_session_ids: Vec<String>,
        remembered_allowed: &Vec<bool>,
        stamp: u64,
    ) -> (flush: TellFlush)
        requires
            in_front@.len() == old(self).pending_attention@.len(),
            remembered_allowed@.len() == old(self).pending_remembered@.len(),
            old(self).tells < u64::MAX,
            old(self).attention_acknowledges + old(self).pending_attention@.len() <= u64::MAX,
        ensures
            final(self).tell_due_ms is None,
            final(self).pending_tell is None,
            final(self).pending_attention@.len() == 0,
            final(self).settle_due_ms == old(self).settle_due_ms,
            final(self).task_running == old(self).task_running,
            old(self).pending_tell is None && old(self).pending_attention@.len() == 0 ==> {
                &&& flush is Nothing
                &&& final(self).pending_remembered == old(self).pending_remembered
                &&& final(self).tells == old(self).tells
                &&& final(self).attention_acknowledges == old(self).attention_acknowledges
                &&& *final(echoes) == *old(echoes)
            },
            !(old(self).pending_tell is None && old(self).pending_attention@.len() == 0)
                && !sidebar_present ==> {
                &&& flush is NoSidebar
                &&& final(self).pending_remembered@.len() == 0
                &&& final(self).tells == old(self).tells
                &&& *final(echoes) == *old(echoes)
            },
            !(old(self).pending_tell is None && old(self).pending_attention@.len() == 0)
                && sidebar_present ==> (flush matches TellFlush::Send { acknowledged, tell } && {
                let acks = acknowledged_of(old(self).pending_attention@, in_front@);
                &&& sessions_view(acknowledged@) == sessions_view(acks)
                &&& final(self).attention_acknowledges == old(self).attention_acknowledges
                    + acks.len()
                &&& match old(self).pending_tell {
                    None => {
                        &&& tell is None
                        &&& final(self).pending_remembered == old(self).pending_remembered
                        &&& final(self).tells == old(self).tells
                        &&& final(self).last_tell == old(self).last_tell
                        &&& *final(echoes) == *old(echoes)
                    },
                    Some(p) => (tell matches Some(m) && {
                        &&& m.stamp == stamp
                        &&& m.key == p.key
                        &&& texts_view(m.visible_session_ids@) == tell_visible_of(
                            texts_view(visible_session_ids@),
                            p.key.session_id@,
                        )
                        &&& m.local_was_sleeping == p.local_was_sleeping
                        &&& m.local_runtime_missing == p.local_runtime_missing
                        &&& sessions_view(m.remembered@) == sessions_view(
                            capped(
                                remembered_of(
                                    old(self).pending_remembered@,
                                    remembered_allowed@,
                                    p.key.project_id@,
                                ),
                            ),
                        )
                        &&& final(self).pending_remembered@.len() == 0
                        &&& final(self).tells == old(self).tells + 1
                        &&& final(self).last_tell == Some(ToldSelection { key: p.key, stamp })
                        &&& final(echoes).expected_echoes@ == if p.local_was_sleeping
                            || p.local_runtime_missing {
                            expect_echo_of(old(echoes).expected_echoes@, p.key, stamp)
                        } else {
                            old(echoes).expected_echoes@
                        }
                        &&& final(echoes).confirmed_stamp == old(echoes).confirmed_stamp
                        &&& final(echoes).stale_project_switch == old(echoes).stale_project_switch
                    }),
                }
            }),
    {
        self.tell_due_ms = None;
        let pending_tell = self.pending_tell.take();
        let mut attention: Vec<SessionRef> = Vec::new();
        std::mem::swap(&mut attention, &mut self.pending_attention);
        if pending_tell.is_none() && attention.len() == 0 {
            return TellFlush::Nothing;
        }
        if !sidebar_present {
            self.pending_remembered = Vec::new();
            return TellFlush::NoSidebar;
        }
        let mut acknowledged: Vec<SessionRef> = Vec::new();
        let mut i: usize = 0;
        while i < attention.len()
            invariant
                0 <= i <= attention@.len(),
                in_front@.len() == attention@.len(),
                acknowledged@ == acknowledged_of(attention@.take(i as int), in_front@.take(i as int)),
                acknowledged@.len() <= i,
            decreases attention@.len() - i,
        {
            proof {
                assert(attention@.take(i as int + 1).drop_last() =~= attention@.take(i as int));
                assert(in_front@.take(i as int + 1).take(i as int) =~= in_front@.take(i as int));
            }
            if in_front[i] {
                acknowledged.push(copy_session(&attention[i]));
            }
            i = i + 1;
        }
        proof {
            assert(attention@.take(attention@.len() as int) =~= attention@);
            assert(in_front@.take(in_front@.len() as int) =~= in_front@);
        }
        self.attention_acknowledges = self.attention_acknowledges + acknowledged.len() as u64;
        let tell = match pending_tell {
            None => None,
            Some(p) => {
                let mut visible = visible_session_ids;
                if !holds_text(&visible, p.key.session_id.as_str()) {
                    let ghost before = visible@;
                    visible.push(p.key.session_id.clone());
                    proof {
                        assert(texts_view(visible@) =~= texts_view(before).push(p.key.session_id@));
                    }
                }
                let mut remembered_all: Vec<SessionRef> = Vec::new();
                std::mem::swap(&mut remembered_all, &mut self.pending_remembered);
                let mut remembered: Vec<SessionRef> = Vec::new();
                let mut j: usize = 0;
                while j < remembered_all.len()
                    invariant
                        0 <= j <= remembered_all@.len(),
                        remembered_allowed@.len() == remembered_all@.len(),
                        sessions_view(remembered@) == sessions_view(
                            capped(
                                remembered_of(
                                    remembered_all@.take(j as int),
                                    remembered_allowed@.take(j as int),
                                    p.key.project_id@,
                                ),
                            ),
                        ),
                    decreases remembered_all@.len() - j,
                {
                    let ghost before = remembered@;
                    let ghost all_before = remembered_of(
                        remembered_all@.take(j as int),
                        remembered_allowed@.take(j as int),
                        p.key.project_id@,
                    );
                    proof {
                        assert(remembered_all@.take(j as int + 1).drop_last() =~= remembered_all@.take(j as int));
                        assert(remembered_allowed@.take(j as int + 1).take(j as int) =~= remembered_allowed@.take(j as int));
                    }
                    let candidate = &remembered_all[j];
                    if remembered_allowed[j] && !same_text(
                        candidate.project_id.as_str(),
                        p.key.project_id.as_str(),
                    ) {
                        if remembered.len() < MAX_REMEMBERED_PER_TELL {
                            remembered.push(copy_session(candidate));
                            proof {
                                assert(sessions_view(remembered@) =~= sessions_view(before).push(
                                    session_view(*candidate),
                                ));
                                let all_after = all_before.push(*candidate);
                                assert(capped(all_after) =~= capped(all_before).push(*candidate));
                                assert(sessions_view(capped(all_before).push(*candidate)) =~= sessions_view(
                                    capped(all_before),
                                ).push(session_view(*candidate)));
                            }
                        } else {
                            proof {
                                let all_after = all_before.push(*candidate);
                                assert(sessions_view(remembered@).len() == remembered@.len());
                                assert(sessions_view(capped(all_before)).len() == capped(all_before).len());
                                assert(all_before.len() >= MAX_REMEMBERED_PER_TELL);
                                assert(capped(all_after) =~= capped(all_before));
                            }
                        }
                    }
                    j = j + 1;
                }
                proof {
                    assert(remembered_all@.take(remembered_all@.len() as int) =~= remembered_all@);
                    assert(remembered_allowed@.take(remembered_allowed@.len() as int) =~= remembered_allowed@);
                }
                self.tells = self.tells + 1;
                if p.local_was_sleeping || p.local_runtime_missing {
                    echoes.expect_focus_echo(copy_session(&p.key), stamp);
                }
                self.last_tell = Some(ToldSelection { key: copy_session(&p.key), stamp });
                Some(
                    TellMessage {
                        stamp,
                        key: p.key,
                        visible_session_ids: visible,
                        local_was_sleeping: p.local_was_sleeping,
                        local_runtime_missing: p.local_runtime_missing,
                        remembered,
                    },
                )
            },
        };
        TellFlush::Send { acknowledged, tell }
    }
}

} // verus!
