//! The retained transcript cache: what a reopened chat draws before its snapshot arrives.
//!
//! The cache store keeps at most 24 records, and the host prunes it itself before writing a new
//! key rather than let writes be refused: it keeps the newest records by their own `savedAt` and
//! deletes the rest. A record already on disk with a newer `savedAt` wins over a write, so two
//! writers racing cannot roll the cached transcript backwards.

use vstd::prelude::*;

verus! {

/// The most records the cache store keeps.
pub const MAX_SNAPSHOT_ENTRIES: usize = 24;

/// Whether record `j` sorts before record `i`, newest first: a newer stamp, or the same stamp and
/// listed earlier.
pub open spec fn sorts_before(s: Seq<(i64, String)>, j: int, i: int) -> bool {
    s[j].0 > s[i].0 || (s[j].0 == s[i].0 && j < i)
}

/// How many of the first `n` records sort before record `i`.
pub open spec fn rank_upto(s: Seq<(i64, String)>, i: int, n: int) -> int
    decreases n,
{
    if n <= 0 {
        0
    } else {
        rank_upto(s, i, n - 1) + if sorts_before(s, n - 1, i) {
            1int
        } else {
            0int
        }
    }
}

/// Where record `i` lands when the records are sorted newest first.
pub open spec fn rank(s: Seq<(i64, String)>, i: int) -> int {
    rank_upto(s, i, s.len() as int)
}

/// The suffixes of the records past the newest `keep`, in their listed order.
pub open spec fn victims_upto(s: Seq<(i64, String)>, keep: int, n: int) -> Seq<Seq<char>>
    decreases n,
{
    if n <= 0 {
        Seq::empty()
    } else {
        let rest = victims_upto(s, keep, n - 1);
        if rank(s, n - 1) >= keep {
            rest.push(s[n - 1].1@)
        } else {
            rest
        }
    }
}

/// Which records a prune to `keep` deletes: those past the newest `keep`, none when there are
/// `keep` or fewer. Each record is `(stamp, suffix)`, the stamp ordered the way its `savedAt` is.
pub fn prune_victims(records: &Vec<(i64, String)>, keep: usize) -> (victims: Vec<String>)
    ensures
        victims@.map_values(|v: String| v@) == victims_upto(records@, keep as int, records@.len() as int),
{
    let mut victims: Vec<String> = Vec::new();
    let mut i: usize = 0;
    while i < records.len()
        invariant
            0 <= i <= records@.len(),
            victims@.map_values(|v: String| v@) == victims_upto(records@, keep as int, i as int),
        decreases records@.len() - i,
    {
        let mut before: usize = 0;
        let mut j: usize = 0;
        while j < records.len()
            invariant
                0 <= j <= records@.len(),
                0 <= i < records@.len(),
                before == rank_upto(records@, i as int, j as int),
                before <= j,
            decreases records@.len() - j,
        {
            if records[j].0 > records[i].0 || (records[j].0 == records[i].0 && j < i) {
                before = before + 1;
            }
            j = j + 1;
        }
        if before >= keep {
            let ghost was = victims@;
            victims.push(records[i].1.clone());
            proof {
                assert(victims@.map_values(|v: String| v@) =~= was.map_values(|v: String| v@).push(
                    records@[i as int].1@,
                ));
            }
        }
        i = i + 1;
    }
    victims
}

/// Counting over a pointwise larger predicate gives at least as much, and one more for a place
/// only the larger one holds at.
proof fn lemma_rank_grows(s: Seq<(i64, String)>, v: int, k: int, n: int)
    requires
        0 <= v < s.len(),
        0 <= k < s.len(),
        s[v].0 > s[k].0,
        0 <= n <= s.len(),
    ensures
        rank_upto(s, k, n) >= rank_upto(s, v, n) + if v < n {
            1int
        } else {
            0int
        },
    decreases n,
{
    if n > 0 {
        lemma_rank_grows(s, v, k, n - 1);
        if sorts_before(s, n - 1, v) {
            assert(sorts_before(s, n - 1, k));
        }
        if n - 1 == v {
            assert(sorts_before(s, v, k));
            assert(!sorts_before(s, v, v));
        }
    }
}

/// A prune keeps the newest records: no record it keeps is older than one it deletes.
pub proof fn law_prune_keeps_the_newest(s: Seq<(i64, String)>, keep: int, v: int, k: int)
    requires
        0 <= v < s.len(),
        0 <= k < s.len(),
        rank(s, v) >= keep,
        rank(s, k) < keep,
    ensures
        s[v].0 <= s[k].0,
{
    if s[v].0 > s[k].0 {
        lemma_rank_grows(s, v, k, s.len() as int);
    }
}

/// What one cache write does.
#[derive(Clone, Copy, Debug, PartialEq, Eq)]
pub enum SnapshotWrite {
    /// The value is gone: the record is deleted.
    Delete,
    /// The record on disk is newer: nothing is written.
    KeepNewer,
    /// The record is new: the store is pruned to make room for it, then it is written.
    PruneThenWrite,
    /// The record replaces an older one.
    Write,
}

/// Decides one cache write: a `None` value deletes; a stored record with a newer `savedAt` than
/// the value's wins; a key with no record yet prunes the store to 23 first.
pub fn snapshot_write(value_present: bool, stored_present: bool, stored_is_newer: bool) -> (write:
    SnapshotWrite)
    ensures
        write == if !value_present {
            SnapshotWrite::Delete
        } else if stored_is_newer {
            SnapshotWrite::KeepNewer
        } else if !stored_present {
            SnapshotWrite::PruneThenWrite
        } else {
            SnapshotWrite::Write
        },
{
    if !value_present {
        SnapshotWrite::Delete
    } else if stored_is_newer {
        SnapshotWrite::KeepNewer
    } else if !stored_present {
        SnapshotWrite::PruneThenWrite
    } else {
        SnapshotWrite::Write
    }
}

/// A stored record as a snapshot read hands it over: verbatim, and an empty record reads as none.
pub fn stored_snapshot(raw: Option<String>) -> (snapshot: Option<String>)
    ensures
        snapshot == match raw {
            Some(r) => if r@.len() > 0 {
                Some(r)
            } else {
                None::<String>
            },
            None => None::<String>,
        },
{
    match raw {
        Some(r) => if r.as_str().unicode_len() > 0 {
            Some(r)
        } else {
            None
        },
        None => None,
    }
}

} // verus!
