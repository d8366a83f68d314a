//! The sidebar actions the store answers itself (sleep and wake, close, a Project Group's rename,
//! colour and ungroup): whether it answers a payload at all, what it counts, and what the answer's
//! follow-ups leave for the list and the focus.
//!
//! The order is the point: the daemon call goes first and only an accepted answer changes what a
//! row shows; a close hides the row at once and puts it back when the daemon never confirms.

use vstd::prelude::*;

use crate::text::same_text;

verus! {

broadcast use vstd::string::group_string_axioms;

/// How long a sleep, wake or close call may take before it reads as no answer, in milliseconds.
pub const LIFECYCLE_RPC_TIMEOUT_MS: u64 = 60000;

/// What this app run did with the lifecycle actions the store owns.
#[derive(Clone, Copy, Debug, Default, PartialEq, Eq)]
pub struct SidebarLifecycleCounters {
    pub sleeps: u64,
    pub wakes: u64,
    pub accepted: u64,
    pub declined: u64,
    pub failed: u64,
    pub already_agreed: u64,
    pub focus_follow_ups: u64,
    pub declined_source: u64,
    pub closes: u64,
    pub closes_accepted: u64,
    pub closes_restored: u64,
}

/// Which lifecycle call a request makes.
#[derive(Clone, Copy, Debug, PartialEq, Eq)]
pub enum LifecycleCall {
    Sleep,
    Wake,
}

/// What the daemon answered a sleep or a wake.
#[derive(Clone, Copy, Debug, PartialEq, Eq)]
pub enum LifecycleAnswer {
    Accepted,
    Declined,
    Failed,
}

/// Whether the store answers a payload it owns: only while the renderer draws the store's list;
/// otherwise the payload stays on its old path and is counted as declined.
pub fn store_answers(owned: bool, draws_store_list: bool, declined_source: &mut u64) -> (answers: bool)
    requires
        *old(declined_source) < u64::MAX,
    ensures
        answers == (owned && draws_store_list),
        *final(declined_source) == *old(declined_source) + (if owned && !draws_store_list {
            1int
        } else {
            0int
        }),
{
    if !owned {
        return false;
    }
    if !draws_store_list {
        *declined_source = *declined_source + 1;
        return false;
    }
    true
}

/// A close that spent the whole timeout and came back failed never answered at all.
pub fn never_answered(failed: bool, elapsed_ms: u64) -> (never: bool)
    ensures
        never == (failed && elapsed_ms >= LIFECYCLE_RPC_TIMEOUT_MS),
{
    failed && elapsed_ms >= LIFECYCLE_RPC_TIMEOUT_MS
}

impl SidebarLifecycleCounters {
    /// Counts a sleep or a wake the store makes.
    pub fn note_call(&mut self, call: LifecycleCall)
        requires
            old(self).sleeps < u64::MAX,
            old(self).wakes < u64::MAX,
        ensures
            final(self).sleeps == old(self).sleeps + (if call == LifecycleCall::Sleep {
                1int
            } else {
                0int
            }),
            final(self).wakes == old(self).wakes + (if call == LifecycleCall::Wake {
                1int
            } else {
                0int
            }),
            final(self).accepted == old(self).accepted,
            final(self).closes == old(self).closes,
    {
        match call {
            LifecycleCall::Sleep => self.sleeps = self.sleeps + 1,
            LifecycleCall::Wake => self.wakes = self.wakes + 1,
        }
    }

    /// Counts the daemon's answer to a sleep or a wake.
    pub fn note_answer(&mut self, answer: LifecycleAnswer)
        requires
            old(self).accepted < u64::MAX,
            old(self).declined < u64::MAX,
            old(self).failed < u64::MAX,
        ensures
            final(self).accepted == old(self).accepted + (if answer == LifecycleAnswer::Accepted {
                1int
            } else {
                0int
            }),
            final(self).declined == old(self).declined + (if answer == LifecycleAnswer::Declined {
                1int
            } else {
                0int
            }),
            final(self).failed == old(self).failed + (if answer == LifecycleAnswer::Failed {
                1int
            } else {
                0int
            }),
            final(self).sleeps == old(self).sleeps,
            final(self).wakes == old(self).wakes,
    {
        match answer {
            LifecycleAnswer::Accepted => self.accepted = self.accepted + 1,
            LifecycleAnswer::Declined => self.declined = self.declined + 1,
            LifecycleAnswer::Failed => self.failed = self.failed + 1,
        }
    }

    /// Counts a close the store makes.
    pub fn note_close(&mut self)
        requires
            old(self).closes < u64::MAX,
        ensures
            final(self).closes == old(self).closes + 1,
            final(self).closes_accepted == old(self).closes_accepted,
            final(self).closes_restored == old(self).closes_restored,
    {
        self.closes = self.closes + 1;
    }

    /// Counts a close's answer: confirmed, or the row put back.
    pub fn note_close_answer(&mut self, accepted: bool)
        requires
            old(self).closes_accepted < u64::MAX,
            old(self).closes_restored < u64::MAX,
        ensures
            final(self).closes_accepted == old(self).closes_accepted + (if accepted {
                1int
            } else {
                0int
            }),
            final(self).closes_restored == old(self).closes_restored + (if accepted {
                0int
            } else {
                1int
            }),
            final(self).closes == old(self).closes,
    {
        if accepted {
            self.closes_accepted = self.closes_accepted + 1;
        } else {
            self.closes_restored = self.closes_restored + 1;
        }
    }
}

/// What an answer's follow-ups leave: whether any moved the store, so the list is rebuilt once
/// after all of them, and the session the last focus follow-up names.
pub struct FollowUpPass<S> {
    pub moved: bool,
    pub focus_target: Option<S>,
}

impl<S> FollowUpPass<S> {
    /// A pass that saw no follow-up yet.
    pub fn new() -> (pass: Self)
        ensures
            !pass.moved,
            pass.focus_target is None,
    {
        FollowUpPass { moved: false, focus_target: None }
    }

    /// A hide or an unhide was applied to the store; `changed` says whether it moved anything.
    pub fn note_visibility(&mut self, changed: bool)
        ensures
            final(self).moved == (old(self).moved || changed),
            final(self).focus_target == old(self).focus_target,
    {
        if changed {
            self.moved = true;
        }
    }

    /// A patch was applied to the store. One that changed nothing found the daemon row already
    /// saying what the call asked for, and is counted as such.
    pub fn note_patch(&mut self, changed: bool, counters: &mut SidebarLifecycleCounters)
        requires
            old(counters).already_agreed < u64::MAX,
        ensures
            final(self).moved == (old(self).moved || changed),
            final(self).focus_target == old(self).focus_target,
            final(counters).already_agreed == old(counters).already_agreed + (if changed {
                0int
            } else {
                1int
            }),
            final(counters).focus_follow_ups == old(counters).focus_follow_ups,
    {
        if changed {
            self.moved = true;
        } else {
            counters.already_agreed = counters.already_agreed + 1;
        }
    }

    /// A focus follow-up: the last one names the session focused once the pass is over.
    pub fn note_focus(&mut self, session: S, counters: &mut SidebarLifecycleCounters)
        requires
            old(counters).focus_follow_ups < u64::MAX,
        ensures
            final(self).focus_target == Some(session),
            final(self).moved == old(self).moved,
            final(counters).focus_follow_ups == old(counters).focus_follow_ups + 1,
            final(counters).already_agreed == old(counters).already_agreed,
    {
        counters.focus_follow_ups = counters.focus_follow_ups + 1;
        self.focus_target = Some(session);
    }
}

/// What this app run did with a Project Group's Rename, colour and Ungroup.
#[derive(Clone, Copy, Debug, Default, PartialEq, Eq)]
pub struct CollectionMenuCounters {
    pub renames: u64,
    pub colors: u64,
    pub ungroups: u64,
    /// Payloads whose group names nothing the document holds, which write nothing at all.
    pub refusals: u64,
    /// Payloads the store owns but did not answer because the renderer is not drawing its list.
    pub declined_source: u64,
    /// Payloads left to the old runtime: a remote machine's tab, or the stored document not read.
    pub hand_offs: u64,
}

/// Whether the store answers a Project Group edit it owns and the list it draws: only for this
/// computer's tab, and only once the stored document has been read, since an edit on top of a
/// document not yet read would drop every other group.
pub fn collection_edit_answered_here(
    counters: &mut CollectionMenuCounters,
    draws_store_list: bool,
    local_machine: bool,
    restored: bool,
) -> (answers: bool)
    requires
        old(counters).declined_source < u64::MAX,
        old(counters).hand_offs < u64::MAX,
    ensures
        answers == (draws_store_list && local_machine && restored),
        final(counters).declined_source == old(counters).declined_source + (if !draws_store_list {
            1int
        } else {
            0int
        }),
        final(counters).hand_offs == old(counters).hand_offs + (if draws_store_list && !(local_machine
            && restored) {
            1int
        } else {
            0int
        }),
        final(counters).renames == old(counters).renames,
        final(counters).refusals == old(counters).refusals,
{
    if !draws_store_list {
        counters.declined_source = counters.declined_source + 1;
        return false;
    }
    if !local_machine || !restored {
        counters.hand_offs = counters.hand_offs + 1;
        return false;
    }
    true
}

/// Counts a planned edit by its action (`rename`, `ungroup`, anything else a colour), or a
/// refusal when the plan found no group.
pub fn note_collection_edit(counters: &mut CollectionMenuCounters, action: &str, planned: bool)
    requires
        old(counters).renames < u64::MAX,
        old(counters).colors < u64::MAX,
        old(counters).ungroups < u64::MAX,
        old(counters).refusals < u64::MAX,
    ensures
        !planned ==> final(counters).refusals == old(counters).refusals + 1 && final(counters).renames
            == old(counters).renames && final(counters).ungroups == old(counters).ungroups && final(counters).colors == old(counters).colors,
        planned ==> final(counters).refusals == old(counters).refusals && final(counters).renames
            == old(counters).renames + (if action@ == "rename"@ {
            1int
        } else {
            0int
        }) && final(counters).ungroups == old(counters).ungroups + (if action@ == "ungroup"@ {
            1int
        } else {
            0int
        }) && final(counters).colors == old(counters).colors + (if action@ != "rename"@ && action@
            != "ungroup"@ {
            1int
        } else {
            0int
        }),
{
    if !planned {
        counters.refusals = counters.refusals + 1;
        return;
    }
    proof {
        reveal_strlit("rename");
        reveal_strlit("ungroup");
        assert("rename"@.len() == 6);
        assert("ungroup"@.len() == 7);
    }
    if same_text(action, "rename") {
        counters.renames = counters.renames + 1;
    } else if same_text(action, "ungroup") {
        counters.ungroups = counters.ungroups + 1;
    } else {
        counters.colors = counters.colors + 1;
    }
}

} // verus!
