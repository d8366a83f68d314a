//! Local focus: what a tab selection, a next or previous tab step and a sidebar row click change
//! at once, and how the old runtime's focus payloads and focus requests are admitted afterwards.
//!
//! The store's stamp orders a local selection against anything the old runtime says later, so
//! nothing is matched by time: a payload with an older stamp than the newest local selection is
//! stale, and an echo of a selection the app made itself loses once the user has moved on.

use vstd::prelude::*;

use crate::text::{chars_of, matches_at, same_text, starts_with_text};

verus! {

broadcast use vstd::string::group_string_axioms;

/// Sidebar row ids of local sessions start with this.
pub open spec fn local_row_prefix() -> Seq<char> {
    "combined-session:"@
}

/// At most this many expected echoes are remembered at once.
pub const MAX_EXPECTED_FOCUS_ECHOES: usize = 8;

/// A local workspace session: its project and its session id.
#[derive(Clone, Debug, PartialEq, Eq)]
pub struct SessionRef {
    pub project_id: String,
    pub session_id: String,
}

/// The view of a session.
pub open spec fn session_view(s: SessionRef) -> (Seq<char>, Seq<char>) {
    (s.project_id@, s.session_id@)
}

/// A plain focus request the old runtime is about to send for a selection the app already made,
/// and the stamp of that selection.
#[derive(Clone, Debug, PartialEq, Eq)]
pub struct ExpectedFocusEcho {
    pub key: SessionRef,
    pub stamp: u64,
}

/// What happened since the app started.
#[derive(Clone, Copy, Debug, Default, PartialEq, Eq)]
pub struct LocalFocusCounters {
    pub local_selections: u64,
    pub unplaced_selections: u64,
    pub tells: u64,
    pub attention_acknowledges: u64,
    pub stale_payloads: u64,
    pub stale_focus_requests_dropped: u64,
    pub settles: u64,
    pub disputed_empty_tab_lists: u64,
}

/// A copy of two sessions being the same one.
pub fn same_session(a: &SessionRef, b: &SessionRef) -> (same: bool)
    ensures
        same == (session_view(*a) == session_view(*b)),
{
    same_text(a.project_id.as_str(), b.project_id.as_str()) && same_text(
        a.session_id.as_str(),
        b.session_id.as_str(),
    )
}

/// A session, copied.
pub fn copy_session(s: &SessionRef) -> (copy: SessionRef)
    ensures
        copy == *s,
{
    SessionRef { project_id: s.project_id.clone(), session_id: s.session_id.clone() }
}

/// The echoes after one is expected for `key` at `stamp`: any earlier one for the same session
/// goes, the oldest goes when the list is full, and the new one is last.
pub open spec fn expect_echo_of(
    echoes: Seq<ExpectedFocusEcho>,
    key: SessionRef,
    stamp: u64,
) -> Seq<ExpectedFocusEcho> {
    let kept = echoes.filter(|e: ExpectedFocusEcho| session_view(e.key) != session_view(key));
    let trimmed = if kept.len() >= MAX_EXPECTED_FOCUS_ECHOES {
        kept.drop_first()
    } else {
        kept
    };
    trimmed.push(ExpectedFocusEcho { key, stamp })
}

/// At most [`MAX_EXPECTED_FOCUS_ECHOES`] echoes, and at most one per session.
pub open spec fn echoes_bounded(echoes: Seq<ExpectedFocusEcho>) -> bool {
    &&& echoes.len() <= MAX_EXPECTED_FOCUS_ECHOES
    &&& forall|i: int, j: int|
        0 <= i < j < echoes.len() ==> session_view(#[trigger] echoes[i].key) != session_view(
            #[trigger] echoes[j].key,
        )
}

/// Keeps the echoes of other sessions than `key`, in order.
fn without_session(echoes: &Vec<ExpectedFocusEcho>, key: &SessionRef) -> (kept: Vec<
    ExpectedFocusEcho,
>)
    ensures
        kept@ == echoes@.filter(|e: ExpectedFocusEcho| session_view(e.key) != session_view(*key)),
{
    let ghost pred = |e: ExpectedFocusEcho| session_view(e.key) != session_view(*key);
    let mut kept: Vec<ExpectedFocusEcho> = Vec::new();
    let mut i: usize = 0;
    while i < echoes.len()
        invariant
            0 <= i <= echoes@.len(),
            pred == (|e: ExpectedFocusEcho| session_view(e.key) != session_view(*key)),
            kept@ == echoes@.take(i as int).filter(pred),
        decreases echoes@.len() - i,
    {
        proof {
            let next = echoes@.take(i as int + 1);
            assert(next.drop_last() =~= echoes@.take(i as int));
            reveal_with_fuel(Seq::filter, 1);
            assert(next.filter(pred) == if pred(next.last()) {
                next.drop_last().filter(pred).push(next.last())
            } else {
                next.drop_last().filter(pred)
            });
        }
        if !same_session(&echoes[i].key, key) {
            kept.push(ExpectedFocusEcho { key: copy_session(&echoes[i].key), stamp: echoes[i].stamp });
        }
        i = i + 1;
    }
    proof {
        assert(echoes@.take(echoes@.len() as int) =~= echoes@);
    }
    kept
}

/// The echoes still awaited once the old runtime has echoed `stamp`: those of that stamp or newer.
pub open spec fn echoes_from(echoes: Seq<ExpectedFocusEcho>, stamp: u64) -> Seq<ExpectedFocusEcho> {
    echoes.filter(|e: ExpectedFocusEcho| e.stamp >= stamp)
}

} // verus!

verus! {

/// The row highlight the sidebar compares against: the store's focused row and visible rows, and
/// whether the old runtime's accepted focus is something that is not a local session.
#[derive(Clone, Debug, PartialEq, Eq)]
pub struct RowFocus {
    pub foreign_focus: bool,
    pub focused_row_id: Option<String>,
    pub visible_row_ids: Vec<String>,
    /// `foreign_focus` as of the last refresh, so a flip alone also counts as a change.
    pub cached_foreign_focus: bool,
}

/// The view of an optional string.
pub open spec fn opt_view(s: Option<String>) -> Option<Seq<char>> {
    match s {
        Some(t) => Some(t@),
        None => None,
    }
}

/// The view of a list of strings.
pub open spec fn texts_view(s: Seq<String>) -> Seq<Seq<char>> {
    s.map_values(|t: String| t@)
}

/// Whether `row_id` is among `rows`.
pub fn contains_row(rows: &Vec<String>, row_id: &str) -> (found: bool)
    ensures
        found == texts_view(rows@).contains(row_id@),
{
    let mut i: usize = 0;
    while i < rows.len()
        invariant
            0 <= i <= rows@.len(),
            forall|j: int| 0 <= j < i ==> #[trigger] rows@[j]@ != row_id@,
        decreases rows@.len() - i,
    {
        if same_text(rows[i].as_str(), row_id) {
            proof {
                assert(texts_view(rows@)[i as int] == row_id@);
            }
            return true;
        }
        i = i + 1;
    }
    proof {
        if texts_view(rows@).contains(row_id@) {
            let j = choose|j: int| 0 <= j < texts_view(rows@).len() && texts_view(rows@)[j] == row_id@;
            assert(rows@[j]@ == row_id@);
        }
    }
    false
}

/// How a sidebar row draws: `(focused, visible)`.
pub open spec fn row_focus_of(
    rows: RowFocus,
    row_id: Seq<char>,
    is_browser: bool,
    snapshot_focused: bool,
    snapshot_visible: bool,
) -> (bool, bool) {
    if is_browser {
        (snapshot_focused, snapshot_visible)
    } else if !starts_with_text(row_id, local_row_prefix()) {
        (snapshot_focused && rows.foreign_focus, snapshot_visible)
    } else if rows.foreign_focus {
        (false, snapshot_visible)
    } else {
        (
            opt_view(rows.focused_row_id) == Some(row_id),
            texts_view(rows.visible_row_ids@).contains(row_id),
        )
    }
}

impl RowFocus {
    /// Whether a native sidebar row draws focused and with the visible fill.
    ///
    /// A local session row reads the store. A browser row keeps the snapshot's flags. Any other
    /// row reads the snapshot's focus only while the old runtime's accepted focus is such a row,
    /// so a local selection never shows two focused rows while the old runtime catches up.
    pub fn row_focus(
        &self,
        row_id: &str,
        is_browser: bool,
        snapshot_focused: bool,
        snapshot_visible: bool,
    ) -> (drawn: (bool, bool))
        ensures
            drawn == row_focus_of(*self, row_id@, is_browser, snapshot_focused, snapshot_visible),
    {
        if is_browser {
            return (snapshot_focused, snapshot_visible);
        }
        let chars = chars_of(row_id);
        if !matches_at(&chars, &chars_of("combined-session:"), 0) {
            return (snapshot_focused && self.foreign_focus, snapshot_visible);
        }
        if self.foreign_focus {
            return (false, snapshot_visible);
        }
        let focused = match &self.focused_row_id {
            Some(id) => same_text(id.as_str(), row_id),
            None => false,
        };
        (focused, contains_row(&self.visible_row_ids, row_id))
    }

    /// Takes the store's focused and visible rows; `true` when the highlight changed.
    pub fn refresh_row_focus_cache(&mut self, focused: Option<String>, visible: Vec<String>) -> (
        changed: bool)
        ensures
            changed == (opt_view(old(self).focused_row_id) != opt_view(focused) || texts_view(
                old(self).visible_row_ids@,
            ) != texts_view(visible@) || old(self).cached_foreign_focus != old(
                self,
            ).foreign_focus),
            final(self).foreign_focus == old(self).foreign_focus,
            final(self).cached_foreign_focus == old(self).foreign_focus,
            final(self).focused_row_id == focused,
            final(self).visible_row_ids == visible,
    {
        let same_focused = match (&self.focused_row_id, &focused) {
            (Some(a), Some(b)) => same_text(a.as_str(), b.as_str()),
            (None, None) => true,
            _ => false,
        };
        let same_visible = same_rows(&self.visible_row_ids, &visible);
        let changed = !same_focused || !same_visible || self.cached_foreign_focus
            != self.foreign_focus;
        self.cached_foreign_focus = self.foreign_focus;
        self.focused_row_id = focused;
        self.visible_row_ids = visible;
        changed
    }
}

/// Whether two lists of rows are the same rows in the same order.
pub fn same_rows(a: &Vec<String>, b: &Vec<String>) -> (same: bool)
    ensures
        same == (texts_view(a@) == texts_view(b@)),
{
    if a.len() != b.len() {
        proof {
            assert(texts_view(a@).len() != texts_view(b@).len());
        }
        return false;
    }
    let mut i: usize = 0;
    while i < a.len()
        invariant
            0 <= i <= a@.len(),
            a@.len() == b@.len(),
            forall|j: int| 0 <= j < i ==> #[trigger] a@[j]@ == b@[j]@,
        decreases a@.len() - i,
    {
        if !same_text(a[i].as_str(), b[i].as_str()) {
            proof {
                assert(texts_view(a@)[i as int] != texts_view(b@)[i as int]);
            }
            return false;
        }
        i = i + 1;
    }
    proof {
        assert(texts_view(a@) =~= texts_view(b@));
    }
    true
}

/// Whether an empty tab list is in dispute, and how often one was.
#[derive(Clone, Debug, PartialEq, Eq)]
pub struct TabListDispute {
    /// The project whose empty tab list the store did not confirm, judged again when the store's
    /// tab lists change.
    pub disputed_empty_tab_list: Option<String>,
    pub disputed_empty_tab_lists: u64,
}

impl TabListDispute {
    /// Whether the tab list of a focus payload may be reconciled into the workspace now. A list
    /// with rows always may; an empty one for a project needs the store's agreement
    /// (`store_confirms`); a refused one is remembered and counted once per project in a row.
    pub fn allows_tab_reconcile(
        &mut self,
        project_id: Option<&str>,
        tab_count: usize,
        store_confirms: bool,
    ) -> (allowed: bool)
        requires
            old(self).disputed_empty_tab_lists < u64::MAX,
        ensures
            allowed == (tab_count > 0 || project_id is None || store_confirms),
            tab_count > 0 || (project_id is Some && store_confirms) ==> final(self).disputed_empty_tab_list is None
                && final(self).disputed_empty_tab_lists == old(self).disputed_empty_tab_lists,
            tab_count == 0 && project_id is None ==> *final(self) == *old(self),
            !allowed ==> opt_view(final(self).disputed_empty_tab_list) == Some(project_id->0@),
            !allowed ==> final(self).disputed_empty_tab_lists == old(self).disputed_empty_tab_lists
                + if opt_view(old(self).disputed_empty_tab_list) == Some(project_id->0@) {
                0int
            } else {
                1int
            },
    {
        if tab_count > 0 {
            self.disputed_empty_tab_list = None;
            return true;
        }
        let Some(project_id) = project_id else {
            return true;
        };
        if store_confirms {
            self.disputed_empty_tab_list = None;
            return true;
        }
        let already = match &self.disputed_empty_tab_list {
            Some(held) => same_text(held.as_str(), project_id),
            None => false,
        };
        if !already {
            self.disputed_empty_tab_list = Some(String::from_str(project_id));
            self.disputed_empty_tab_lists = self.disputed_empty_tab_lists + 1;
        }
        false
    }
}

} // verus!

verus! {

/// What a filter keeps came from the list, and a list with one echo per session filters to one.
proof fn lemma_filter_echoes(s: Seq<ExpectedFocusEcho>, pred: spec_fn(ExpectedFocusEcho) -> bool)
    ensures
        forall|i: int| 0 <= i < s.filter(pred).len() ==> s.contains(#[trigger] s.filter(pred)[i]),
        (forall|i: int, j: int|
            0 <= i < j < s.len() ==> session_view(#[trigger] s[i].key) != session_view(
                #[trigger] s[j].key,
            )) ==> (forall|i: int, j: int|
            0 <= i < j < s.filter(pred).len() ==> session_view(#[trigger] s.filter(pred)[i].key)
                != session_view(#[trigger] s.filter(pred)[j].key)),
        s.filter(pred).len() <= s.len(),
    decreases s.len(),
{
    reveal_with_fuel(Seq::filter, 1);
    s.lemma_filter_len(pred);
    if s.len() > 0 {
        let init = s.drop_last();
        lemma_filter_echoes(init, pred);
        let f = init.filter(pred);
        assert(s.filter(pred) == if pred(s.last()) {
            f.push(s.last())
        } else {
            f
        });
        assert forall|i: int| 0 <= i < s.filter(pred).len() implies s.contains(
            #[trigger] s.filter(pred)[i],
        ) by {
            if i < f.len() {
                assert(init.contains(f[i]));
                let k = choose|k: int| 0 <= k < init.len() && init[k] == f[i];
                assert(s[k] == f[i]);
            } else {
                assert(s[s.len() - 1] == s.last());
            }
        }
        if forall|i: int, j: int|
            0 <= i < j < s.len() ==> session_view(#[trigger] s[i].key) != session_view(
                #[trigger] s[j].key,
            ) {
            assert forall|i: int, j: int| 0 <= i < j < init.len() implies session_view(
                #[trigger] init[i].key,
            ) != session_view(#[trigger] init[j].key) by {
                assert(init[i] == s[i] && init[j] == s[j]);
            }
            assert forall|i: int, j: int| 0 <= i < j < s.filter(pred).len() implies session_view(
                #[trigger] s.filter(pred)[i].key,
            ) != session_view(#[trigger] s.filter(pred)[j].key) by {
                if j >= f.len() {
                    assert(init.contains(f[i]));
                    let k = choose|k: int| 0 <= k < init.len() && init[k] == f[i];
                    assert(s[k] == f[i]);
                    assert(s[s.len() - 1] == s.filter(pred)[j]);
                } else {
                    assert(s.filter(pred)[i] == f[i] && s.filter(pred)[j] == f[j]);
                }
            }
        }
    }
}

/// The old runtime's stamps as seen here, and the echoes it still owes.
#[derive(Clone, Debug, PartialEq, Eq)]
pub struct FocusEchoes {
    /// The newest stamp the old runtime echoed in a focus payload.
    pub confirmed_stamp: u64,
    /// A stale focus payload asked for this other project; the focus request riding with it
    /// loses too.
    pub stale_project_switch: Option<String>,
    pub expected_echoes: Vec<ExpectedFocusEcho>,
    pub stale_payloads: u64,
    pub stale_focus_requests_dropped: u64,
}

impl FocusEchoes {
    /// The old runtime will send a plain focus request for `key`, an echo of the selection with
    /// this stamp. One echo per session is remembered, eight at most, the oldest going first.
    pub fn expect_focus_echo(&mut self, key: SessionRef, stamp: u64)
        ensures
            final(self).expected_echoes@ == expect_echo_of(old(self).expected_echoes@, key, stamp),
            final(self).confirmed_stamp == old(self).confirmed_stamp,
            final(self).stale_project_switch == old(self).stale_project_switch,
            final(self).stale_payloads == old(self).stale_payloads,
            final(self).stale_focus_requests_dropped == old(self).stale_focus_requests_dropped,
            echoes_bounded(old(self).expected_echoes@) ==> echoes_bounded(
                final(self).expected_echoes@,
            ),
    {
        let ghost before = self.expected_echoes@;
        let ghost pred = |e: ExpectedFocusEcho| session_view(e.key) != session_view(key);
        let mut kept = without_session(&self.expected_echoes, &key);
        proof {
            lemma_filter_echoes(before, pred);
            assert(kept@ == before.filter(pred));
        }
        if kept.len() >= MAX_EXPECTED_FOCUS_ECHOES {
            kept.remove(0);
        }
        let ghost trimmed = kept@;
        kept.push(ExpectedFocusEcho { key, stamp });
        self.expected_echoes = kept;
        proof {
            assert(self.expected_echoes@ =~= expect_echo_of(before, key, stamp));
            let f = before.filter(pred);
            assert forall|i: int| 0 <= i < trimmed.len() implies session_view(
                #[trigger] trimmed[i].key,
            ) != session_view(key) by {
                if f.len() >= MAX_EXPECTED_FOCUS_ECHOES {
                    assert(trimmed[i] == f[i + 1]);
                    before.lemma_filter_pred(pred, i + 1);
                } else {
                    assert(trimmed[i] == f[i]);
                    before.lemma_filter_pred(pred, i);
                }
            }
            if echoes_bounded(before) {
                let out = self.expected_echoes@;
                assert forall|i: int, j: int| 0 <= i < j < out.len() implies session_view(
                    #[trigger] out[i].key,
                ) != session_view(#[trigger] out[j].key) by {
                    if j == out.len() - 1 {
                        assert(out[i] == trimmed[i]);
                    } else if f.len() >= MAX_EXPECTED_FOCUS_ECHOES {
                        assert(out[i] == f[i + 1] && out[j] == f[j + 1]);
                    } else {
                        assert(out[i] == f[i] && out[j] == f[j]);
                    }
                }
            }
        }
    }

    /// The old runtime echoed `stamp`: it has handled every message sent before the tell that
    /// carried it, so an echo older than it has arrived already or never will.
    pub fn forget_echoes_older_than(&mut self, stamp: u64)
        ensures
            final(self).expected_echoes@ == echoes_from(old(self).expected_echoes@, stamp),
            final(self).confirmed_stamp == old(self).confirmed_stamp,
            final(self).stale_project_switch == old(self).stale_project_switch,
            final(self).stale_payloads == old(self).stale_payloads,
            final(self).stale_focus_requests_dropped == old(self).stale_focus_requests_dropped,
    {
        let ghost pred = |e: ExpectedFocusEcho| e.stamp >= stamp;
        let mut kept: Vec<ExpectedFocusEcho> = Vec::new();
        let mut i: usize = 0;
        while i < self.expected_echoes.len()
            invariant
                0 <= i <= self.expected_echoes@.len(),
                pred == (|e: ExpectedFocusEcho| e.stamp >= stamp),
                kept@ == self.expected_echoes@.take(i as int).filter(pred),
            decreases self.expected_echoes@.len() - i,
        {
            proof {
                let next = self.expected_echoes@.take(i as int + 1);
                assert(next.drop_last() =~= self.expected_echoes@.take(i as int));
                reveal_with_fuel(Seq::filter, 1);
            }
            if self.expected_echoes[i].stamp >= stamp {
                let e = &self.expected_echoes[i];
                kept.push(ExpectedFocusEcho { key: copy_session(&e.key), stamp: e.stamp });
            }
            i = i + 1;
        }
        proof {
            assert(self.expected_echoes@.take(self.expected_echoes@.len() as int)
                =~= self.expected_echoes@);
        }
        self.expected_echoes = kept;
    }
}

} // verus!

verus! {

/// The focus a payload names: the active project, the focused session and the visible sessions.
#[derive(Clone, Debug, PartialEq, Eq)]
pub struct FocusIds {
    pub active_project_id: Option<String>,
    pub focused_session_id: Option<String>,
    pub visible_session_ids: Vec<String>,
}

/// The view of a focus.
pub open spec fn focus_view(f: FocusIds) -> (Option<Seq<char>>, Option<Seq<char>>, Seq<Seq<char>>) {
    (opt_view(f.active_project_id), opt_view(f.focused_session_id), texts_view(f.visible_session_ids@))
}

/// What a focus payload's stamp decided.
#[derive(Clone, Copy, Debug, PartialEq, Eq)]
pub enum Admission {
    /// The payload is as new as the newest local selection and is taken as it is.
    Current,
    /// The payload is older than the newest local selection: its focus was replaced by what the
    /// app holds. `other_project` when it named another project, whose tab list must not be
    /// taken either.
    Stale { other_project: bool },
}

/// An optional string, copied.
pub fn copy_opt(s: &Option<String>) -> (copy: Option<String>)
    ensures
        copy == *s,
{
    match s {
        Some(t) => Some(t.clone()),
        None => None,
    }
}

/// Two optional strings holding the same text, or both absent.
pub fn same_opt(a: &Option<String>, b: &Option<String>) -> (same: bool)
    ensures
        same == (opt_view(*a) == opt_view(*b)),
{
    match (a, b) {
        (Some(x), Some(y)) => same_text(x.as_str(), y.as_str()),
        (None, None) => true,
        _ => false,
    }
}

/// A list of strings, copied.
pub fn copy_texts(s: &Vec<String>) -> (copy: Vec<String>)
    ensures
        copy@ == s@,
{
    let mut copy: Vec<String> = Vec::new();
    let mut i: usize = 0;
    while i < s.len()
        invariant
            0 <= i <= s@.len(),
            copy@ == s@.take(i as int),
        decreases s@.len() - i,
    {
        copy.push(s[i].clone());
        i = i + 1;
        proof {
            assert(copy@ =~= s@.take(i as int));
        }
    }
    proof {
        assert(s@.take(s@.len() as int) =~= s@);
    }
    copy
}

/// `i` is the first echo expected for the session `(project, session)`.
pub open spec fn is_first_echo(
    echoes: Seq<ExpectedFocusEcho>,
    project: Seq<char>,
    session: Seq<char>,
    i: int,
) -> bool {
    &&& 0 <= i < echoes.len()
    &&& session_view(echoes[i].key) == (project, session)
    &&& forall|j: int| 0 <= j < i ==> session_view(#[trigger] echoes[j].key) != (project, session)
}

/// Only one echo is the first for a session.
proof fn lemma_first_echo_unique(
    echoes: Seq<ExpectedFocusEcho>,
    project: Seq<char>,
    session: Seq<char>,
    a: int,
    b: int,
)
    requires
        is_first_echo(echoes, project, session, a),
        is_first_echo(echoes, project, session, b),
    ensures
        a == b,
{
    if a < b {
        assert(session_view(echoes[a].key) != (project, session));
    } else if b < a {
        assert(session_view(echoes[b].key) != (project, session));
    }
}

/// The first echo expected for the session `(project, session)`.
fn first_echo(echoes: &Vec<ExpectedFocusEcho>, project: &str, session: &str) -> (found: Option<
    usize,
>)
    ensures
        match found {
            Some(i) => is_first_echo(echoes@, project@, session@, i as int),
            None => forall|c: int| !is_first_echo(echoes@, project@, session@, c),
        },
{
    let mut i: usize = 0;
    while i < echoes.len()
        invariant
            0 <= i <= echoes@.len(),
            forall|j: int|
                0 <= j < i ==> session_view(#[trigger] echoes@[j].key) != (project@, session@),
        decreases echoes@.len() - i,
    {
        let key = &echoes[i].key;
        if same_text(key.project_id.as_str(), project) && same_text(key.session_id.as_str(), session) {
            return Some(i);
        }
        i = i + 1;
    }
    proof {
        assert forall|c: int| !is_first_echo(echoes@, project@, session@, c) by {
            if 0 <= c < echoes@.len() {
                assert(session_view(echoes@[c].key) != (project@, session@));
            }
        }
    }
    None
}

/// A focus request of the old runtime, as far as its admission reads it.
#[derive(Clone, Debug, PartialEq, Eq)]
pub struct FocusRequest {
    pub project_id: String,
    pub session_id: String,
    pub startup_restore: bool,
    pub force_remount: bool,
    pub keep_view: bool,
    /// It places the session as a tab, with no target session to place it by.
    pub placement_is_tab: bool,
    pub has_placement_target: bool,
    /// It prefers the terminal interface.
    pub prefers_terminal: bool,
}

/// A plain request: a tab placement with no target, no remount, no restore, no kept view, and the
/// terminal interface. Only such a request can be the echo of a selection made here.
pub open spec fn plain_request(r: FocusRequest) -> bool {
    r.placement_is_tab && !r.has_placement_target && !r.force_remount && !r.startup_restore
        && !r.keep_view && r.prefers_terminal
}

impl FocusEchoes {
    /// The old runtime published its focus with the stamp it was last told. One at least as new as
    /// the newest local selection is taken as it is, confirms its stamp and forgets the echoes it
    /// settles. An older one is counted as stale and its focus is replaced by `current`, what the
    /// app already holds; when it named another project, that project is remembered so the focus
    /// request riding with it loses too.
    pub fn gx_store_admit_old_runtime_focus_state(
        &mut self,
        next: &mut FocusIds,
        current: &FocusIds,
        focus_stamp: Option<u64>,
        local_stamp: u64,
    ) -> (admission: Admission)
        requires
            old(self).stale_payloads < u64::MAX,
        ensures
            ({
                let observed = match focus_stamp {
                    Some(s) => s,
                    None => 0,
                };
                if observed >= local_stamp {
                    &&& admission == Admission::Current
                    &&& *final(next) == *old(next)
                    &&& final(self).confirmed_stamp == observed
                    &&& final(self).stale_project_switch is None
                    &&& final(self).expected_echoes@ == echoes_from(
                        old(self).expected_echoes@,
                        observed,
                    )
                    &&& final(self).stale_payloads == old(self).stale_payloads
                } else {
                    let other = opt_view(old(next).active_project_id) != opt_view(
                        current.active_project_id,
                    );
                    &&& admission == Admission::Stale { other_project: other }
                    &&& focus_view(*final(next)) == focus_view(*current)
                    &&& final(self).stale_payloads == old(self).stale_payloads + 1
                    &&& final(self).confirmed_stamp == old(self).confirmed_stamp
                    &&& final(self).expected_echoes == old(self).expected_echoes
                    &&& final(self).stale_project_switch == if other {
                        old(next).active_project_id
                    } else {
                        old(self).stale_project_switch
                    }
                }
            }),
            final(self).stale_focus_requests_dropped == old(self).stale_focus_requests_dropped,
    {
        let observed = match focus_stamp {
            Some(s) => s,
            None => 0,
        };
        if observed >= local_stamp {
            self.confirmed_stamp = observed;
            self.stale_project_switch = None;
            self.forget_echoes_older_than(observed);
            return Admission::Current;
        }
        self.stale_payloads = self.stale_payloads + 1;
        let other_project = !same_opt(&next.active_project_id, &current.active_project_id);
        if other_project {
            self.stale_project_switch = copy_opt(&next.active_project_id);
        }
        next.active_project_id = copy_opt(&current.active_project_id);
        next.focused_session_id = copy_opt(&current.focused_session_id);
        next.visible_session_ids = copy_texts(&current.visible_session_ids);
        Admission::Stale { other_project }
    }

    /// Whether a focus request from the old runtime lost to a newer local selection.
    ///
    /// The request that rides with a project switch whose payload was dropped as stale loses with
    /// it, unless the workspace is on that project. A plain request that only echoes a selection
    /// made here loses when the store's stamp moved past the echo's and the session is no longer
    /// the focused one (`focused`, the store's focused local session); the echo is used up either
    /// way. Every other request passes.
    pub fn gx_store_focus_request_lost_to_local_selection(
        &mut self,
        request: &FocusRequest,
        workspace_project_id: Option<&str>,
        focused: Option<&SessionRef>,
        local_stamp: u64,
    ) -> (lost: bool)
        requires
            old(self).stale_focus_requests_dropped < u64::MAX,
        ensures
            ({
                let project = request.project_id@;
                let session = request.session_id@;
                let switch_hit = !request.startup_restore && !request.force_remount && opt_view(
                    old(self).stale_project_switch,
                ) == Some(project);
                let lost_with_switch = switch_hit && match workspace_project_id {
                    Some(w) => w@ != project,
                    None => true,
                };
                let echo = plain_request(*request) && exists|i: int|
                    is_first_echo(old(self).expected_echoes@, project, session, i);
                let i = choose|i: int| is_first_echo(old(self).expected_echoes@, project, session, i);
                let still_focused = match focused {
                    Some(f) => session_view(*f) == (project, session),
                    None => false,
                };
                let lost_echo = echo && local_stamp > old(self).expected_echoes@[i].stamp
                    && !still_focused;
                &&& lost == (lost_with_switch || lost_echo)
                &&& final(self).stale_project_switch == if switch_hit {
                    None
                } else {
                    old(self).stale_project_switch
                }
                &&& final(self).expected_echoes@ == if echo {
                    old(self).expected_echoes@.remove(i)
                } else {
                    old(self).expected_echoes@
                }
                &&& final(self).stale_focus_requests_dropped == old(
                    self,
                ).stale_focus_requests_dropped + if lost {
                    1int
                } else {
                    0int
                }
            }),
            final(self).confirmed_stamp == old(self).confirmed_stamp,
            final(self).stale_payloads == old(self).stale_payloads,
    {
        let project_id = request.project_id.as_str();
        let session_id = request.session_id.as_str();
        let mut lost = false;
        let switch_hit = !request.startup_restore && !request.force_remount && match &self.stale_project_switch {
            Some(p) => same_text(p.as_str(), project_id),
            None => false,
        };
        if switch_hit {
            self.stale_project_switch = None;
            lost = match workspace_project_id {
                Some(w) => !same_text(w, project_id),
                None => true,
            };
        }
        let plain = request.placement_is_tab && !request.has_placement_target
            && !request.force_remount && !request.startup_restore && !request.keep_view
            && request.prefers_terminal;
        if plain {
            match first_echo(&self.expected_echoes, project_id, session_id) {
                Some(at) => {
                    proof {
                        let c = choose|c: int|
                            is_first_echo(self.expected_echoes@, project_id@, session_id@, c);
                        lemma_first_echo_unique(self.expected_echoes@, project_id@, session_id@, c, at as int);
                    }
                    let echo = self.expected_echoes.remove(at);
                    let still_focused = match focused {
                        Some(f) => same_text(f.project_id.as_str(), project_id) && same_text(
                            f.session_id.as_str(),
                            session_id,
                        ),
                        None => false,
                    };
                    lost = lost || (local_stamp > echo.stamp && !still_focused);
                },
                None => {},
            }
        }
        if lost {
            self.stale_focus_requests_dropped = self.stale_focus_requests_dropped + 1;
        }
        lost
    }
}

/// The session a workspace pane's shell session maps to: the first mapping that names it.
pub open spec fn mapped_session_of(mappings: Seq<(SessionRef, u64)>, shell: u64) -> Option<(Seq<char>, Seq<char>)>
    decreases mappings.len(),
{
    if mappings.len() == 0 {
        None
    } else if mappings[0].1 == shell {
        Some(session_view(mappings[0].0))
    } else {
        mapped_session_of(mappings.drop_first(), shell)
    }
}

/// `keys` with `k` added at the end, unless it is there already.
pub open spec fn with_unique(keys: Seq<(Seq<char>, Seq<char>)>, k: (Seq<char>, Seq<char>)) -> Seq<
    (Seq<char>, Seq<char>),
> {
    if keys.contains(k) {
        keys
    } else {
        keys.push(k)
    }
}

/// The sessions of the rendered panes, in pane order, each once; panes whose shell session maps
/// to no session are left out.
pub open spec fn pane_sessions_of(shells: Seq<u64>, mappings: Seq<(SessionRef, u64)>) -> Seq<
    (Seq<char>, Seq<char>),
>
    decreases shells.len(),
{
    if shells.len() == 0 {
        Seq::empty()
    } else {
        let rest = pane_sessions_of(shells.drop_last(), mappings);
        match mapped_session_of(mappings, shells.last()) {
            Some(k) => with_unique(rest, k),
            None => rest,
        }
    }
}

/// The exact visible set of a local selection: the sessions of the rendered panes, then the
/// selected session, each once.
pub open spec fn visible_sessions_of(
    shells: Seq<u64>,
    mappings: Seq<(SessionRef, u64)>,
    selected: SessionRef,
) -> Seq<(Seq<char>, Seq<char>)> {
    with_unique(pane_sessions_of(shells, mappings), session_view(selected))
}

/// The session a shell session maps to.
fn mapped_session(mappings: &Vec<(SessionRef, u64)>, shell: u64) -> (found: Option<&SessionRef>)
    ensures
        match found {
            Some(k) => mapped_session_of(mappings@, shell) == Some(session_view(*k)),
            None => mapped_session_of(mappings@, shell) is None,
        },
{
    let mut i: usize = 0;
    proof {
        assert(mappings@.subrange(0, mappings@.len() as int) =~= mappings@);
    }
    while i < mappings.len()
        invariant
            0 <= i <= mappings@.len(),
            mapped_session_of(mappings@, shell) == mapped_session_of(
                mappings@.subrange(i as int, mappings@.len() as int),
                shell,
            ),
        decreases mappings@.len() - i,
    {
        proof {
            let rest = mappings@.subrange(i as int, mappings@.len() as int);
            assert(rest.drop_first() =~= mappings@.subrange(i + 1, mappings@.len() as int));
            assert(rest[0] == mappings@[i as int]);
        }
        if mappings[i].1 == shell {
            return Some(&mappings[i].0);
        }
        i = i + 1;
    }
    None
}

/// Adds `k` at the end of `keys` unless it is there already.
fn push_unique(keys: &mut Vec<SessionRef>, k: &SessionRef)
    ensures
        final(keys)@.map_values(|s: SessionRef| session_view(s)) == with_unique(
            old(keys)@.map_values(|s: SessionRef| session_view(s)),
            session_view(*k),
        ),
{
    let ghost before = keys@.map_values(|s: SessionRef| session_view(s));
    let mut i: usize = 0;
    while i < keys.len()
        invariant
            0 <= i <= keys@.len(),
            keys@.map_values(|s: SessionRef| session_view(s)) == before,
            forall|j: int| 0 <= j < i ==> before[j] != session_view(*k),
        decreases keys@.len() - i,
    {
        if same_session(&keys[i], k) {
            proof {
                assert(before[i as int] == session_view(*k));
                assert(before.contains(session_view(*k)));
            }
            return;
        }
        i = i + 1;
    }
    proof {
        assert(!before.contains(session_view(*k)));
    }
    keys.push(copy_session(k));
    proof {
        assert(keys@.map_values(|s: SessionRef| session_view(s)) =~= before.push(session_view(*k)));
    }
}

/// The store keys of the sessions that own a rendered pane, the selected one included: the exact
/// visible set of a local selection. `shells` are the rendered panes' shell sessions in pane order,
/// and `mappings` which session each shell session is.
pub fn gx_store_visible_local_session_keys(
    shells: &Vec<u64>,
    mappings: &Vec<(SessionRef, u64)>,
    selected: &SessionRef,
) -> (keys: Vec<SessionRef>)
    ensures
        keys@.map_values(|s: SessionRef| session_view(s)) == visible_sessions_of(
            shells@,
            mappings@,
            *selected,
        ),
{
    let mut keys: Vec<SessionRef> = Vec::new();
    let mut i: usize = 0;
    proof {
        assert(keys@.map_values(|s: SessionRef| session_view(s)) =~= pane_sessions_of(
            shells@.take(0),
            mappings@,
        ));
    }
    while i < shells.len()
        invariant
            0 <= i <= shells@.len(),
            keys@.map_values(|s: SessionRef| session_view(s)) == pane_sessions_of(
                shells@.take(i as int),
                mappings@,
            ),
        decreases shells@.len() - i,
    {
        proof {
            assert(shells@.take(i + 1).drop_last() =~= shells@.take(i as int));
            assert(shells@.take(i + 1).last() == shells@[i as int]);
        }
        match mapped_session(mappings, shells[i]) {
            Some(k) => push_unique(&mut keys, k),
            None => {},
        }
        i = i + 1;
    }
    proof {
        assert(shells@.take(shells@.len() as int) =~= shells@);
    }
    push_unique(&mut keys, selected);
    keys
}

/// The visible set names each session once, and always the selected one.
pub proof fn law_visible_sessions_are_distinct_and_hold_the_selection(
    shells: Seq<u64>,
    mappings: Seq<(SessionRef, u64)>,
    selected: SessionRef,
)
    ensures
        visible_sessions_of(shells, mappings, selected).contains(session_view(selected)),
        visible_sessions_of(shells, mappings, selected).no_duplicates(),
{
    lemma_pane_sessions_distinct(shells, mappings);
    let panes = pane_sessions_of(shells, mappings);
    if !panes.contains(session_view(selected)) {
        assert(panes.push(session_view(selected)).last() == session_view(selected));
        assert(panes.push(session_view(selected)).no_duplicates()) by {
            let p = panes.push(session_view(selected));
            assert forall|a: int, b: int| 0 <= a < p.len() && 0 <= b < p.len() && a != b implies p[a]
                != p[b] by {
                if a < panes.len() && b < panes.len() {
                } else if a == panes.len() {
                    assert(p[b] == panes[b]);
                } else {
                    assert(p[a] == panes[a]);
                }
            }
        }
    }
}

/// The pane sessions name each session once.
proof fn lemma_pane_sessions_distinct(shells: Seq<u64>, mappings: Seq<(SessionRef, u64)>)
    ensures
        pane_sessions_of(shells, mappings).no_duplicates(),
    decreases shells.len(),
{
    if shells.len() > 0 {
        lemma_pane_sessions_distinct(shells.drop_last(), mappings);
        let rest = pane_sessions_of(shells.drop_last(), mappings);
        match mapped_session_of(mappings, shells.last()) {
            Some(k) => if !rest.contains(k) {
                let p = rest.push(k);
                assert forall|a: int, b: int| 0 <= a < p.len() && 0 <= b < p.len() && a != b implies p[a]
                    != p[b] by {
                    if a < rest.len() && b < rest.len() {
                    } else if a == rest.len() {
                        assert(p[b] == rest[b]);
                    } else {
                        assert(p[a] == rest[a]);
                    }
                }
            },
            None => {},
        }
    }
}

} // verus!
