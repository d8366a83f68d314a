//! The store's diagnostics budgets and the short names a sidebar difference is recorded under.
//!
//! Every line holds ids, counts, enum names and field names, never a title, a path or content.
//! Warnings are written always, but at most forty a run, and each kind of storage warning at most
//! three times, so a daemon that keeps failing cannot fill the disk through this path.

use vstd::prelude::*;

verus! {

broadcast use vstd::string::group_string_axioms;

/// Unconditional warning lines one app run may write.
pub const MAX_WARNING_LINES: u32 = 40;
/// Lines each kind of sidebar storage warning may write.
pub const MAX_STORAGE_WARNINGS: u32 = 3;
/// Most names one record carries.
pub const MAX_IDS_PER_RECORD: usize = 24;

/// One differing field of a sidebar row: its name and which side carries a value.
#[derive(Clone, Debug, PartialEq, Eq)]
pub struct FieldDiff {
    pub name: String,
    pub old_has_value: bool,
    pub store_has_value: bool,
}

/// The name a differing field is recorded under: the name alone when both sides carry a value or
/// neither does, `name=old` or `name=store` when only one side does.
pub open spec fn encode_field_of(f: FieldDiff) -> Seq<char> {
    if f.old_has_value && !f.store_has_value {
        f.name@ + "=old"@
    } else if !f.old_has_value && f.store_has_value {
        f.name@ + "=store"@
    } else {
        f.name@
    }
}

/// One short string per differing field.
pub fn encode_field(field: &FieldDiff) -> (encoded: String)
    ensures
        encoded@ == encode_field_of(*field),
{
    let mut encoded = field.name.clone();
    if field.old_has_value && !field.store_has_value {
        encoded.append("=old");
    } else if !field.old_has_value && field.store_has_value {
        encoded.append("=store");
    }
    encoded
}

/// A sidebar difference, as far as its record's field names go: the top level's fields, and
/// each group's and each session's, by id.
#[derive(Clone, Debug, PartialEq, Eq)]
pub struct SidebarMismatch {
    pub top_level: Vec<FieldDiff>,
    pub groups: Vec<(String, Vec<FieldDiff>)>,
    pub sessions: Vec<(String, Vec<FieldDiff>)>,
}

/// Every differing field of a record in order: the top level's, then each group's, then each
/// session's.
pub open spec fn all_fields(m: SidebarMismatch) -> Seq<FieldDiff> {
    m.top_level@ + flatten_fields(m.groups@) + flatten_fields(m.sessions@)
}

/// The fields of each entry, end to end.
pub open spec fn flatten_fields(entries: Seq<(String, Vec<FieldDiff>)>) -> Seq<FieldDiff>
    decreases entries.len(),
{
    if entries.len() == 0 {
        Seq::empty()
    } else {
        flatten_fields(entries.drop_last()) + entries.last().1@
    }
}

/// The encoded names of `fields` in order, each once, where it first appears.
pub open spec fn distinct_names(fields: Seq<FieldDiff>) -> Seq<Seq<char>>
    decreases fields.len(),
{
    if fields.len() == 0 {
        Seq::empty()
    } else {
        let rest = distinct_names(fields.drop_last());
        let name = encode_field_of(fields.last());
        if rest.contains(name) {
            rest
        } else {
            rest.push(name)
        }
    }
}

/// The distinct names, at most [`MAX_IDS_PER_RECORD`] of them.
pub open spec fn distinct_fields_of(m: SidebarMismatch) -> Seq<Seq<char>> {
    let all = distinct_names(all_fields(m));
    if all.len() <= MAX_IDS_PER_RECORD {
        all
    } else {
        all.take(MAX_IDS_PER_RECORD as int)
    }
}

/// Whether `name` is among `names`.
fn holds_name(names: &Vec<String>, name: &str) -> (found: bool)
    ensures
        found == names@.map_values(|n: String| n@).contains(name@),
{
    crate::local_focus::contains_row(names, name)
}

/// Adds the encoded names of `fields` to `distinct`, each once.
fn add_distinct(distinct: &mut Vec<String>, fields: &Vec<FieldDiff>, Ghost(before): Ghost<Seq<FieldDiff>>)
    requires
        old(distinct)@.map_values(|n: String| n@) == distinct_names(before),
    ensures
        final(distinct)@.map_values(|n: String| n@) == distinct_names(before + fields@),
{
    let mut i: usize = 0;
    proof {
        assert(before + fields@.take(0) =~= before);
    }
    while i < fields.len()
        invariant
            0 <= i <= fields@.len(),
            distinct@.map_values(|n: String| n@) == distinct_names(before + fields@.take(i as int)),
        decreases fields@.len() - i,
    {
        let encoded = encode_field(&fields[i]);
        proof {
            let next = before + fields@.take(i as int + 1);
            assert(next.drop_last() =~= before + fields@.take(i as int));
            assert(next.last() == fields@[i as int]);
        }
        if !holds_name(distinct, encoded.as_str()) {
            let ghost was = distinct@;
            distinct.push(encoded);
            proof {
                assert(distinct@.map_values(|n: String| n@) =~= was.map_values(|n: String| n@).push(
                    encode_field_of(fields@[i as int]),
                ));
            }
        }
        i = i + 1;
    }
    proof {
        assert(fields@.take(fields@.len() as int) =~= fields@);
    }
}

/// Every differing field of the whole record, once, in the order met, at most
/// [`MAX_IDS_PER_RECORD`] of them.
pub fn distinct_fields(mismatch: &SidebarMismatch) -> (distinct: Vec<String>)
    ensures
        distinct@.map_values(|n: String| n@) == distinct_fields_of(*mismatch),
{
    let mut distinct: Vec<String> = Vec::new();
    proof {
        assert(distinct@.map_values(|n: String| n@) =~= distinct_names(Seq::<FieldDiff>::empty()));
    }
    add_distinct(&mut distinct, &mismatch.top_level, Ghost(Seq::empty()));
    proof {
        assert(Seq::<FieldDiff>::empty() + mismatch.top_level@ =~= mismatch.top_level@);
    }
    let ghost so_far = mismatch.top_level@;
    let mut g: usize = 0;
    while g < mismatch.groups.len()
        invariant
            0 <= g <= mismatch.groups@.len(),
            distinct@.map_values(|n: String| n@) == distinct_names(
                mismatch.top_level@ + flatten_fields(mismatch.groups@.take(g as int)),
            ),
        decreases mismatch.groups@.len() - g,
    {
        let ghost prefix = mismatch.top_level@ + flatten_fields(mismatch.groups@.take(g as int));
        add_distinct(&mut distinct, &mismatch.groups[g].1, Ghost(prefix));
        proof {
            assert(mismatch.groups@.take(g as int + 1).drop_last() =~= mismatch.groups@.take(g as int));
            assert(prefix + mismatch.groups@[g as int].1@ =~= mismatch.top_level@ + flatten_fields(
                mismatch.groups@.take(g as int + 1),
            ));
        }
        g = g + 1;
    }
    proof {
        assert(mismatch.groups@.take(mismatch.groups@.len() as int) =~= mismatch.groups@);
    }
    let mut s: usize = 0;
    while s < mismatch.sessions.len()
        invariant
            0 <= s <= mismatch.sessions@.len(),
            distinct@.map_values(|n: String| n@) == distinct_names(
                mismatch.top_level@ + flatten_fields(mismatch.groups@) + flatten_fields(
                    mismatch.sessions@.take(s as int),
                ),
            ),
        decreases mismatch.sessions@.len() - s,
    {
        let ghost prefix = mismatch.top_level@ + flatten_fields(mismatch.groups@) + flatten_fields(
            mismatch.sessions@.take(s as int),
        );
        add_distinct(&mut distinct, &mismatch.sessions[s].1, Ghost(prefix));
        proof {
            assert(mismatch.sessions@.take(s as int + 1).drop_last() =~= mismatch.sessions@.take(s as int));
            assert(prefix + mismatch.sessions@[s as int].1@ =~= mismatch.top_level@ + flatten_fields(
                mismatch.groups@,
            ) + flatten_fields(mismatch.sessions@.take(s as int + 1)));
        }
        s = s + 1;
    }
    proof {
        assert(mismatch.sessions@.take(mismatch.sessions@.len() as int) =~= mismatch.sessions@);
    }
    if distinct.len() > MAX_IDS_PER_RECORD {
        distinct.truncate(MAX_IDS_PER_RECORD);
        proof {
            assert(distinct@.map_values(|n: String| n@) =~= distinct_names(all_fields(*mismatch)).take(
                MAX_IDS_PER_RECORD as int,
            ));
        }
    }
    distinct
}

/// How many lines of each budgeted kind this run has written.
#[derive(Clone, Copy, Debug, Default, PartialEq, Eq)]
pub struct GxStoreDiagnostics {
    pub warning_lines: u32,
    pub sidebar_refusal_warnings: u32,
    pub sidebar_storage_warnings: u32,
    pub project_doc_edit_records: u32,
}

/// The budgets are never overdrawn.
pub open spec fn budget_within(b: GxStoreDiagnostics) -> bool {
    b.warning_lines <= MAX_WARNING_LINES && b.sidebar_refusal_warnings <= MAX_STORAGE_WARNINGS
        && b.sidebar_storage_warnings <= MAX_STORAGE_WARNINGS
}

impl GxStoreDiagnostics {
    /// Whether one more unconditional warning line may be written; it is counted when it may.
    pub fn warning(&mut self) -> (write: bool)
        ensures
            write == (old(self).warning_lines < MAX_WARNING_LINES),
            final(self).warning_lines == old(self).warning_lines + if write {
                1int
            } else {
                0int
            },
            final(self).sidebar_refusal_warnings == old(self).sidebar_refusal_warnings,
            final(self).sidebar_storage_warnings == old(self).sidebar_storage_warnings,
            final(self).project_doc_edit_records == old(self).project_doc_edit_records,
            budget_within(*old(self)) ==> budget_within(*final(self)),
    {
        if self.warning_lines >= MAX_WARNING_LINES {
            return false;
        }
        self.warning_lines = self.warning_lines + 1;
        true
    }

    /// A sidebar storage warning: at most three a run, each also a warning line.
    fn sidebar_storage_warning(&mut self) -> (write: bool)
        ensures
            write == (old(self).sidebar_storage_warnings < MAX_STORAGE_WARNINGS
                && old(self).warning_lines < MAX_WARNING_LINES),
            final(self).sidebar_storage_warnings == old(self).sidebar_storage_warnings + if old(
                self,
            ).sidebar_storage_warnings < MAX_STORAGE_WARNINGS {
                1int
            } else {
                0int
            },
            final(self).warning_lines == old(self).warning_lines + if write {
                1int
            } else {
                0int
            },
            final(self).sidebar_refusal_warnings == old(self).sidebar_refusal_warnings,
            final(self).project_doc_edit_records == old(self).project_doc_edit_records,
            budget_within(*old(self)) ==> budget_within(*final(self)),
    {
        if self.sidebar_storage_warnings >= MAX_STORAGE_WARNINGS {
            return false;
        }
        self.sidebar_storage_warnings = self.sidebar_storage_warnings + 1;
        self.warning()
    }

    /// The sidebar's own state could not be read: whether its warning line is written.
    pub fn sidebar_ui_read_failed(&mut self) -> (write: bool)
        ensures
            write == (old(self).sidebar_storage_warnings < MAX_STORAGE_WARNINGS
                && old(self).warning_lines < MAX_WARNING_LINES),
            final(self).sidebar_storage_warnings == old(self).sidebar_storage_warnings + if old(
                self,
            ).sidebar_storage_warnings < MAX_STORAGE_WARNINGS {
                1int
            } else {
                0int
            },
            final(self).warning_lines == old(self).warning_lines + if write {
                1int
            } else {
                0int
            },
            final(self).sidebar_refusal_warnings == old(self).sidebar_refusal_warnings,
            final(self).project_doc_edit_records == old(self).project_doc_edit_records,
            budget_within(*old(self)) ==> budget_within(*final(self)),
    {
        self.sidebar_storage_warning()
    }

    /// A write of the sidebar's own state failed: whether its warning line is written.
    pub fn sidebar_ui_write_failed(&mut self) -> (write: bool)
        ensures
            write == (old(self).sidebar_storage_warnings < MAX_STORAGE_WARNINGS
                && old(self).warning_lines < MAX_WARNING_LINES),
            final(self).sidebar_storage_warnings == old(self).sidebar_storage_warnings + if old(
                self,
            ).sidebar_storage_warnings < MAX_STORAGE_WARNINGS {
                1int
            } else {
                0int
            },
            final(self).warning_lines == old(self).warning_lines + if write {
                1int
            } else {
                0int
            },
            final(self).sidebar_refusal_warnings == old(self).sidebar_refusal_warnings,
            final(self).project_doc_edit_records == old(self).project_doc_edit_records,
            budget_within(*old(self)) ==> budget_within(*final(self)),
    {
        self.sidebar_storage_warning()
    }

    /// A storage bound refused a value: whether its warning line is written. Refusals have their
    /// own three lines, so they cannot use up the ones a real failure needs.
    pub fn sidebar_ui_write_refused(&mut self) -> (write: bool)
        ensures
            write == (old(self).sidebar_refusal_warnings < MAX_STORAGE_WARNINGS
                && old(self).warning_lines < MAX_WARNING_LINES),
            final(self).sidebar_refusal_warnings == old(self).sidebar_refusal_warnings + if old(
                self,
            ).sidebar_refusal_warnings < MAX_STORAGE_WARNINGS {
                1int
            } else {
                0int
            },
            final(self).warning_lines == old(self).warning_lines + if write {
                1int
            } else {
                0int
            },
            final(self).sidebar_storage_warnings == old(self).sidebar_storage_warnings,
            final(self).project_doc_edit_records == old(self).project_doc_edit_records,
            budget_within(*old(self)) ==> budget_within(*final(self)),
    {
        if self.sidebar_refusal_warnings >= MAX_STORAGE_WARNINGS {
            return false;
        }
        self.sidebar_refusal_warnings = self.sidebar_refusal_warnings + 1;
        self.warning()
    }

    /// Whether one more project-doc edit record may be written, out of `max_records` a run and
    /// only while routine logging is on; it is counted when it may.
    pub fn project_doc_edit_budget(&mut self, max_records: u32, logging_enabled: bool) -> (write: bool)
        ensures
            write == (old(self).project_doc_edit_records < max_records && logging_enabled),
            final(self).project_doc_edit_records == old(self).project_doc_edit_records + if write {
                1int
            } else {
                0int
            },
            final(self).warning_lines == old(self).warning_lines,
    {
        if self.project_doc_edit_records >= max_records || !logging_enabled {
            return false;
        }
        self.project_doc_edit_records = self.project_doc_edit_records + 1;
        true
    }
}

/// Whether the chat host's summary is written: Show debug UI controls is on (`debugging_mode`)
/// and the chat's own diagnostic scenario is enabled (`scenario_enabled`).
pub fn enabled(debugging_mode: bool, scenario_enabled: bool) -> (on: bool)
    ensures
        on == (debugging_mode && scenario_enabled),
{
    debugging_mode && scenario_enabled
}

/// Whether the store's routine lines are written: debug controls on and the sidebar refresh
/// scenario enabled.
pub fn routine_logging_enabled(debugging_mode: bool, scenario_enabled: bool) -> (on: bool)
    ensures
        on == (debugging_mode && scenario_enabled),
{
    debugging_mode && scenario_enabled
}

/// Whether the runtime trace is written: debug controls on and the runtime trace scenario
/// enabled.
pub fn runtime_trace_enabled(debugging_mode: bool, scenario_enabled: bool) -> (on: bool)
    ensures
        on == (debugging_mode && scenario_enabled),
{
    debugging_mode && scenario_enabled
}

/// A summary is written at most this often, in milliseconds.
pub const SUMMARY_INTERVAL_MS: u64 = 60000;
/// Most distinct difference records one run writes.
pub const MAX_DISTINCT_MISMATCH_RECORDS: usize = 200;

/// When a periodic summary was last considered.
#[derive(Clone, Copy, Debug, Default, PartialEq, Eq)]
pub struct SummaryClock {
    pub considered_at_ms: Option<u64>,
}

/// Whether a summary was considered less than a minute before `now_ms`.
pub open spec fn considered_recently(at: Option<u64>, now_ms: u64) -> bool {
    match at {
        Some(t) => now_ms < t || now_ms - t < SUMMARY_INTERVAL_MS,
        None => false,
    }
}

impl SummaryClock {
    /// Whether a summary is written now: never when the totals are what the last one wrote
    /// (`unchanged`) or one was considered within the minute; a summary that gets past those is
    /// timed from `now_ms` and written only while routine logging is on.
    pub fn summary_due(&mut self, unchanged: bool, now_ms: u64, logging_enabled: bool) -> (write: bool)
        ensures
            write == (!unchanged && !considered_recently(old(self).considered_at_ms, now_ms)
                && logging_enabled),
            final(self).considered_at_ms == if !unchanged && !considered_recently(
                old(self).considered_at_ms,
                now_ms,
            ) {
                Some(now_ms)
            } else {
                old(self).considered_at_ms
            },
    {
        let recent = match self.considered_at_ms {
            Some(t) => now_ms < t || now_ms - t < SUMMARY_INTERVAL_MS,
            None => false,
        };
        if unchanged || recent {
            return false;
        }
        self.considered_at_ms = Some(now_ms);
        logging_enabled
    }
}

/// The shapes of the difference records written so far, each once.
#[derive(Clone, Debug, Default, PartialEq, Eq)]
pub struct DistinctRecords {
    pub logged: Vec<u64>,
}

impl DistinctRecords {
    /// Whether the record of shape `signature` is written: only a shape not written before,
    /// while fewer than [`MAX_DISTINCT_MISMATCH_RECORDS`] were, and while routine logging is on.
    /// A written shape is remembered.
    pub fn take_record(&mut self, signature: u64, logging_enabled: bool) -> (write: bool)
        ensures
            write == (!old(self).logged@.contains(signature) && old(self).logged@.len()
                < MAX_DISTINCT_MISMATCH_RECORDS && logging_enabled),
            final(self).logged@ == if write {
                old(self).logged@.push(signature)
            } else {
                old(self).logged@
            },
            old(self).logged@.len() <= MAX_DISTINCT_MISMATCH_RECORDS ==> final(self).logged@.len()
                <= MAX_DISTINCT_MISMATCH_RECORDS,
    {
        let mut i: usize = 0;
        while i < self.logged.len()
            invariant
                0 <= i <= self.logged@.len(),
                forall|j: int| 0 <= j < i ==> self.logged@[j] != signature,
            decreases self.logged@.len() - i,
        {
            if self.logged[i] == signature {
                proof {
                    assert(self.logged@[i as int] == signature);
                }
                return false;
            }
            i = i + 1;
        }
        if self.logged.len() >= MAX_DISTINCT_MISMATCH_RECORDS || !logging_enabled {
            return false;
        }
        self.logged.push(signature);
        true
    }
}

} // verus!
