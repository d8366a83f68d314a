//! Shell layout persistence as "mark dirty": a change only marks the layout, and one task writes
//! it at most once an interval while something changed.
//!
//! A mark sends the task at most one wake per interval; the task waits the interval, writes once
//! if the layout is still dirty, and goes back to waiting. A layout marked before the task existed
//! is written by its first turn.

use vstd::prelude::*;

verus! {

/// How long the task waits after a wake before it writes, in milliseconds.
pub const LAYOUT_PERSIST_INTERVAL_MS: u64 = 250;

/// The persistence's bookkeeping.
pub struct LayoutPersist {
    /// The layout changed since it was last written.
    pub dirty: bool,
    /// A wake is on its way to the task; more would only queue.
    pub wake_sent: bool,
    /// The writing task runs.
    pub task_started: bool,
    pub marks: u64,
    pub serializations: u64,
}

impl LayoutPersist {
    /// Once the task runs, a dirty layout always has a wake on its way, so it is written within an
    /// interval.
    pub open spec fn well_formed(&self) -> bool {
        self.task_started && self.dirty ==> self.wake_sent
    }

    /// Nothing marked, no task yet.
    pub fn new() -> (persist: Self)
        ensures
            persist.well_formed(),
            !persist.dirty && !persist.wake_sent && !persist.task_started,
            persist.marks == 0 && persist.serializations == 0,
    {
        LayoutPersist {
            dirty: false,
            wake_sent: false,
            task_started: false,
            marks: 0,
            serializations: 0,
        }
    }

    /// The layout changed. Returns whether a wake goes to the task now: only when the task runs
    /// and none is on its way.
    pub fn mark_dirty(&mut self) -> (send_wake: bool)
        requires
            old(self).well_formed(),
            old(self).marks < u64::MAX,
        ensures
            final(self).well_formed(),
            final(self).dirty,
            final(self).marks == old(self).marks + 1,
            send_wake == (old(self).task_started && !old(self).wake_sent),
            final(self).wake_sent == (old(self).wake_sent || send_wake),
            final(self).task_started == old(self).task_started,
            final(self).serializations == old(self).serializations,
    {
        self.marks = self.marks + 1;
        self.dirty = true;
        if self.task_started && !self.wake_sent {
            self.wake_sent = true;
            true
        } else {
            false
        }
    }

    /// Starts the task, once. Returns `None` when it already runs, else whether its first turn is
    /// woken at once for a layout marked before it existed.
    pub fn start_task(&mut self) -> (started: Option<bool>)
        requires
            old(self).well_formed(),
        ensures
            final(self).well_formed(),
            final(self).task_started,
            old(self).task_started ==> started is None && final(self).wake_sent == old(self).wake_sent,
            !old(self).task_started ==> started == Some(old(self).dirty),
            final(self).dirty == old(self).dirty,
            final(self).marks == old(self).marks,
            final(self).serializations == old(self).serializations,
    {
        if self.task_started {
            return None;
        }
        self.task_started = true;
        if self.dirty {
            self.wake_sent = true;
        }
        Some(self.dirty)
    }

    /// One turn of the task, an interval after a wake. Returns whether the layout is written now:
    /// exactly when it is still dirty.
    pub fn task_turn(&mut self) -> (write: bool)
        requires
            old(self).well_formed(),
            old(self).task_started,
            old(self).serializations < u64::MAX,
        ensures
            final(self).well_formed(),
            write == old(self).dirty,
            !final(self).dirty,
            !final(self).wake_sent,
            final(self).serializations == old(self).serializations + (if write {
                1int
            } else {
                0int
            }),
            final(self).marks == old(self).marks,
            final(self).task_started,
    {
        self.wake_sent = false;
        if self.dirty {
            self.dirty = false;
            self.serializations = self.serializations + 1;
            true
        } else {
            false
        }
    }

    /// `(marks, serializations)` since the app started.
    pub fn counters(&self) -> (counts: (u64, u64))
        ensures
            counts == (self.marks, self.serializations),
    {
        (self.marks, self.serializations)
    }
}

} // verus!
