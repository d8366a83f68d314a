//! The values the sidebar list still reads from the old projection's newest publish: the Recent
//! Projects the daemon's HUD parks, the git numbers its background probe published per project,
//! the sort mode, and the Close After Done and Delayed Send timers the old runtime owns per row.
//! Each is taken from the publish as it stands, so one list says what is still borrowed.

use vstd::prelude::*;

use crate::effects::Json;
use crate::json_fields::{
    as_i64, as_text, as_true, as_u64, get, get_of, i64_of, is_true, member, member_of, opt_deref,
    owned, str_view, string_view, text_of, u64_of,
};
use crate::keyed::KeyedMap;
use crate::text::same_text;

verus! {

broadcast use vstd::string::group_string_axioms;

/// One row of a published group: its session id and its details object's members.
pub struct PublishedSession {
    pub session_id: String,
    pub details: Vec<(String, Json)>,
}

/// One group of a publish: its project context and its rows.
pub struct PublishedGroup {
    pub project_context: Option<Json>,
    pub sessions: Vec<PublishedSession>,
}

/// A workspace project id taken apart: the machine it names (`None` for this one) and the id the
/// daemon knows the project by.
pub struct ProjectKeyParts {
    pub remote_machine: Option<String>,
    pub project_id: String,
}

/// One entry of the HUD's Recent Projects, beside the parse of its `projectId` as a workspace
/// project id (`None` where the member is not text or does not parse).
pub struct RecentProject {
    pub entry: Json,
    pub parsed_project: Option<ProjectKeyParts>,
}

/// The newest publish of the old projection, as far as these inputs read it: the HUD's members,
/// the elements of its `recentProjects` array (none where it holds no array), and the groups.
pub struct PublishedSnapshot {
    pub hud: Vec<(String, Json)>,
    pub recent_projects: Vec<RecentProject>,
    pub groups: Vec<PublishedGroup>,
}

/// How the active sessions are sorted.
#[derive(Clone, Copy, Debug, PartialEq, Eq, Structural)]
pub enum SessionSortMode {
    LastActivity,
    Manual,
}

/// The sort mode a publish names: manual only where the HUD says `manual`.
pub open spec fn sort_mode_of(snapshot: Option<&PublishedSnapshot>) -> SessionSortMode {
    match snapshot {
        Some(s) => if text_of(member_of(s.hud@, "activeSessionsSortMode"@)) == Some("manual"@) {
            SessionSortMode::Manual
        } else {
            SessionSortMode::LastActivity
        },
        None => SessionSortMode::LastActivity,
    }
}

/// The sort mode, from the daemon's sidebar HUD as the old projection publishes it.
pub fn sort_mode(snapshot: Option<&PublishedSnapshot>) -> (mode: SessionSortMode)
    ensures
        mode == sort_mode_of(snapshot),
{
    match snapshot {
        Some(s) => match as_text(member(&s.hud, "activeSessionsSortMode")) {
            Some(text) => if same_text(text, "manual") {
                SessionSortMode::Manual
            } else {
                SessionSortMode::LastActivity
            },
            None => SessionSortMode::LastActivity,
        },
        None => SessionSortMode::LastActivity,
    }
}

/// Whether a row's detail `key` is `true`.
pub fn detail_bool(session: &PublishedSession, key: &str) -> (on: bool)
    ensures
        on == is_true(member_of(session.details@, key@)),
{
    as_true(member(&session.details, key))
}

/// A row's detail `key`, when it is text.
pub fn detail_str<'a>(session: &'a PublishedSession, key: &str) -> (text: Option<&'a str>)
    ensures
        str_view(text) == text_of(member_of(session.details@, key@)),
{
    as_text(member(&session.details, key))
}

/// A row's detail `key` as an unsigned integer, 0 where it is not one.
pub fn detail_u64(session: &PublishedSession, key: &str) -> (n: u64)
    ensures
        n == match u64_of(member_of(session.details@, key@)) {
            Some(v) => v,
            None => 0,
        },
{
    match as_u64(member(&session.details, key)) {
        Some(v) => v,
        None => 0,
    }
}

/// A row's detail `key` as a signed integer.
fn detail_i64(session: &PublishedSession, key: &str) -> (n: Option<i64>)
    ensures
        n == i64_of(member_of(session.details@, key@)),
{
    as_i64(member(&session.details, key))
}

/// A project's git numbers, as the old runtime's background probe published them.
#[derive(Clone, Copy, Debug, PartialEq, Eq)]
pub struct ProjectDiffStats {
    pub additions: i64,
    pub deletions: i64,
    pub files: i64,
    pub is_loading: bool,
    pub is_repo: bool,
}

/// A number of the probe's stats, 0 where it is missing or not an integer.
pub open spec fn stat_number(stats: Json, key: Seq<char>) -> i64 {
    match i64_of(get_of(stats, key)) {
        Some(n) => n,
        None => 0,
    }
}

/// The git numbers a probe's stats object holds: each number 0 where it is missing or no
/// integer, each flag `true` only where it is.
pub open spec fn stats_from(stats: Json) -> ProjectDiffStats {
    ProjectDiffStats {
        additions: stat_number(stats, "additions"@),
        deletions: stat_number(stats, "deletions"@),
        files: stat_number(stats, "files"@),
        is_loading: is_true(get_of(stats, "isLoading"@)),
        is_repo: is_true(get_of(stats, "isRepo"@)),
    }
}

/// The git numbers a project context carries: the editor's project id and its `diffStats`, both
/// present and the id text.
pub open spec fn diff_stats_of(context: Option<Json>) -> Option<(Seq<char>, ProjectDiffStats)> {
    match context {
        Some(c) => match get_of(c, "editor"@) {
            Some(editor) => match (text_of(get_of(editor, "projectId"@)), get_of(editor, "diffStats"@)) {
                (Some(id), Some(stats)) => Some((id, stats_from(stats))),
                _ => None,
            },
            None => None,
        },
        None => None,
    }
}

/// The git numbers a probe's stats object holds.
pub fn diff_stats_from(stats: &Json) -> (found: ProjectDiffStats)
    ensures
        found == stats_from(*stats),
{
    let additions = match as_i64(get(stats, "additions")) {
        Some(n) => n,
        None => 0,
    };
    let deletions = match as_i64(get(stats, "deletions")) {
        Some(n) => n,
        None => 0,
    };
    let files = match as_i64(get(stats, "files")) {
        Some(n) => n,
        None => 0,
    };
    let is_loading = as_true(get(stats, "isLoading"));
    let is_repo = as_true(get(stats, "isRepo"));
    ProjectDiffStats { additions, deletions, files, is_loading, is_repo }
}

/// The git numbers the old runtime's background probe published for a project.
pub fn project_diff_stats(project_context: Option<&Json>) -> (found: Option<(String, ProjectDiffStats)>)
    ensures
        match found {
            Some((id, stats)) => diff_stats_of(opt_deref(project_context)) == Some((id@, stats)),
            None => diff_stats_of(opt_deref(project_context)) is None,
        },
{
    let context = match project_context {
        Some(c) => c,
        None => return None,
    };
    let editor = match get(context, "editor") {
        Some(e) => e,
        None => return None,
    };
    let project_id = match as_text(get(editor, "projectId")) {
        Some(id) => String::from_str(id),
        None => return None,
    };
    let stats = match get(editor, "diffStats") {
        Some(s) => s,
        None => return None,
    };
    Some((project_id, diff_stats_from(stats)))
}

/// A row's Close After Done timer, which the old runtime still owns.
pub struct CloseAfterDoneInput {
    pub armed: bool,
    pub deadline_at: Option<String>,
    pub remaining_label: Option<String>,
    pub remaining_ms: Option<i64>,
}

/// A Close After Done timer as the contracts speak of it.
pub struct CloseAfterDoneView {
    pub armed: bool,
    pub deadline_at: Option<Seq<char>>,
    pub remaining_label: Option<Seq<char>>,
    pub remaining_ms: Option<i64>,
}

/// The view of a Close After Done timer.
pub open spec fn close_view(c: CloseAfterDoneInput) -> CloseAfterDoneView {
    CloseAfterDoneView {
        armed: c.armed,
        deadline_at: string_view(c.deadline_at),
        remaining_label: string_view(c.remaining_label),
        remaining_ms: c.remaining_ms,
    }
}

/// A row's Close After Done timer: present when it is armed or names a deadline or a remaining
/// label.
pub open spec fn close_after_done_of(details: Seq<(String, Json)>) -> Option<CloseAfterDoneView> {
    let armed = is_true(member_of(details, "closeAfterDone"@));
    let deadline_at = text_of(member_of(details, "closeAfterDoneDeadlineAt"@));
    let remaining_label = text_of(member_of(details, "closeAfterDoneRemainingLabel"@));
    let remaining_ms = i64_of(member_of(details, "closeAfterDoneRemainingMs"@));
    if armed || deadline_at is Some || remaining_label is Some {
        Some(CloseAfterDoneView { armed, deadline_at, remaining_label, remaining_ms })
    } else {
        None
    }
}

/// The Close After Done timer of a row.
pub fn close_after_done(session: &PublishedSession) -> (found: Option<CloseAfterDoneInput>)
    ensures
        match found {
            Some(c) => close_after_done_of(session.details@) == Some(close_view(c)),
            None => close_after_done_of(session.details@) is None,
        },
{
    let armed = detail_bool(session, "closeAfterDone");
    let deadline_at = owned(detail_str(session, "closeAfterDoneDeadlineAt"));
    let remaining_label = owned(detail_str(session, "closeAfterDoneRemainingLabel"));
    let remaining_ms = detail_i64(session, "closeAfterDoneRemainingMs");
    if armed || deadline_at.is_some() || remaining_label.is_some() {
        Some(CloseAfterDoneInput { armed, deadline_at, remaining_label, remaining_ms })
    } else {
        None
    }
}

/// A row's Delayed Send, as far as this app's timers own it.
pub struct DelayedSendInput {
    pub deadline_at: Option<String>,
    pub remaining_label: Option<String>,
    pub remaining_ms: Option<i64>,
    pub send_when_all_project_sessions_stop_active: bool,
    pub send_when_agent_stops_active: bool,
}

/// A Delayed Send as the contracts speak of it.
pub struct DelayedSendView {
    pub deadline_at: Option<Seq<char>>,
    pub remaining_label: Option<Seq<char>>,
    pub remaining_ms: Option<i64>,
    pub send_when_all_project_sessions_stop_active: bool,
    pub send_when_agent_stops_active: bool,
}

/// The view of a Delayed Send.
pub open spec fn delayed_view(d: DelayedSendInput) -> DelayedSendView {
    DelayedSendView {
        deadline_at: string_view(d.deadline_at),
        remaining_label: string_view(d.remaining_label),
        remaining_ms: d.remaining_ms,
        send_when_all_project_sessions_stop_active: d.send_when_all_project_sessions_stop_active,
        send_when_agent_stops_active: d.send_when_agent_stops_active,
    }
}

/// A row's Delayed Send: present when any of its five values is.
pub open spec fn delayed_send_of(details: Seq<(String, Json)>) -> Option<DelayedSendView> {
    let deadline_at = text_of(member_of(details, "delayedSendDeadlineAt"@));
    let remaining_label = text_of(member_of(details, "delayedSendRemainingLabel"@));
    let remaining_ms = i64_of(member_of(details, "delayedSendRemainingMs"@));
    let all_stop = is_true(member_of(details, "sendWhenAllProjectSessionsStopActive"@));
    let agent_stop = is_true(member_of(details, "sendWhenAgentStopsActive"@));
    if deadline_at is Some || remaining_label is Some || remaining_ms is Some || all_stop
        || agent_stop {
        Some(
            DelayedSendView {
                deadline_at,
                remaining_label,
                remaining_ms,
                send_when_all_project_sessions_stop_active: all_stop,
                send_when_agent_stops_active: agent_stop,
            },
        )
    } else {
        None
    }
}

/// A row shows a Delayed Send exactly when any of its five values is present, and the Delayed
/// Send carries each of them as the row's details hold it: the deadline and the remaining label as
/// text, the remaining time as an integer, and each of the two stop conditions as `true`.
pub proof fn law_delayed_send_carries_each_of_its_values(details: Seq<(String, Json)>)
    ensures
        ({
            let deadline_at = text_of(member_of(details, "delayedSendDeadlineAt"@));
            let remaining_label = text_of(member_of(details, "delayedSendRemainingLabel"@));
            let remaining_ms = i64_of(member_of(details, "delayedSendRemainingMs"@));
            let all_stop = is_true(member_of(details, "sendWhenAllProjectSessionsStopActive"@));
            let agent_stop = is_true(member_of(details, "sendWhenAgentStopsActive"@));
            &&& delayed_send_of(details) is Some <==> (deadline_at is Some || remaining_label is Some
                || remaining_ms is Some || all_stop || agent_stop)
            &&& all_stop ==> delayed_send_of(details) is Some
                && delayed_send_of(details)->0.send_when_all_project_sessions_stop_active
            &&& agent_stop ==> delayed_send_of(details) is Some
                && delayed_send_of(details)->0.send_when_agent_stops_active
            &&& deadline_at is Some ==> delayed_send_of(details) is Some
                && delayed_send_of(details)->0.deadline_at == deadline_at
            &&& remaining_label is Some ==> delayed_send_of(details) is Some
                && delayed_send_of(details)->0.remaining_label == remaining_label
            &&& remaining_ms is Some ==> delayed_send_of(details) is Some
                && delayed_send_of(details)->0.remaining_ms == remaining_ms
            &&& delayed_send_of(details) matches Some(v) ==> v.deadline_at == deadline_at
                && v.remaining_label == remaining_label && v.remaining_ms == remaining_ms
                && v.send_when_all_project_sessions_stop_active == all_stop
                && v.send_when_agent_stops_active == agent_stop
        }),
{
}

/// A row's Delayed Send. The daemon's own wins inside the view model, so these fill in only the
/// ones this app's timers own.
pub fn delayed_send(session: &PublishedSession) -> (found: Option<DelayedSendInput>)
    ensures
        match found {
            Some(d) => delayed_send_of(session.details@) == Some(delayed_view(d)),
            None => delayed_send_of(session.details@) is None,
        },
{
    let deadline_at = owned(detail_str(session, "delayedSendDeadlineAt"));
    let remaining_label = owned(detail_str(session, "delayedSendRemainingLabel"));
    let remaining_ms = detail_i64(session, "delayedSendRemainingMs");
    let all_stop = detail_bool(session, "sendWhenAllProjectSessionsStopActive");
    let agent_stop = detail_bool(session, "sendWhenAgentStopsActive");
    if deadline_at.is_some() || remaining_label.is_some() || remaining_ms.is_some() || all_stop
        || agent_stop {
        Some(
            DelayedSendInput {
                deadline_at,
                remaining_label,
                remaining_ms,
                send_when_all_project_sessions_stop_active: all_stop,
                send_when_agent_stops_active: agent_stop,
            },
        )
    } else {
        None
    }
}

/// The id a Recent Project entry hides locally: its `projectId` text, when it names no remote
/// machine.
pub open spec fn local_entry_id(e: RecentProject) -> Option<Seq<char>> {
    if get_of(e.entry, "remoteMachineId"@) is None {
        text_of(get_of(e.entry, "projectId"@))
    } else {
        None
    }
}

/// The machine and raw project id a Recent Project entry hides on a remote machine: the
/// `remoteMachineId` text, and the parse of the `projectId` text when it names that same machine.
pub open spec fn remote_entry_of(e: RecentProject) -> Option<(Seq<char>, Seq<char>)> {
    match (text_of(get_of(e.entry, "remoteMachineId"@)), text_of(get_of(e.entry, "projectId"@)), e.parsed_project) {
        (Some(machine), Some(_), Some(parts)) => if string_view(parts.remote_machine) == Some(machine) {
            Some((machine, parts.project_id@))
        } else {
            None
        },
        _ => None,
    }
}

/// The ids parked locally, entry by entry.
pub open spec fn local_recent_ids(es: Seq<RecentProject>) -> Set<Seq<char>>
    decreases es.len(),
{
    if es.len() == 0 {
        Set::empty()
    } else {
        let rest = local_recent_ids(es.drop_last());
        match local_entry_id(es.last()) {
            Some(id) => rest.insert(id),
            None => rest,
        }
    }
}

/// `project` added to what `machine` hides.
pub open spec fn hide_on(
    hidden: Map<Seq<char>, Set<Seq<char>>>,
    machine: Seq<char>,
    project: Seq<char>,
) -> Map<Seq<char>, Set<Seq<char>>> {
    let before = if hidden.contains_key(machine) {
        hidden[machine]
    } else {
        Set::empty()
    };
    hidden.insert(machine, before.insert(project))
}

/// The raw ids parked per remote machine, entry by entry.
pub open spec fn remote_recent_ids(es: Seq<RecentProject>) -> Map<Seq<char>, Set<Seq<char>>>
    decreases es.len(),
{
    if es.len() == 0 {
        Map::empty()
    } else {
        let rest = remote_recent_ids(es.drop_last());
        match remote_entry_of(es.last()) {
            Some((machine, project)) => hide_on(rest, machine, project),
            None => rest,
        }
    }
}

/// The git numbers per project, group by group; a later group's numbers replace an earlier one's.
pub open spec fn diff_stats_map(gs: Seq<PublishedGroup>) -> Map<Seq<char>, ProjectDiffStats>
    decreases gs.len(),
{
    if gs.len() == 0 {
        Map::empty()
    } else {
        let rest = diff_stats_map(gs.drop_last());
        match diff_stats_of(gs.last().project_context) {
            Some((id, stats)) => rest.insert(id, stats),
            None => rest,
        }
    }
}

/// Every row of the groups, group by group.
pub open spec fn all_sessions(gs: Seq<PublishedGroup>) -> Seq<PublishedSession>
    decreases gs.len(),
{
    if gs.len() == 0 {
        Seq::empty()
    } else {
        all_sessions(gs.drop_last()) + gs.last().sessions@
    }
}

/// The Close After Done timers per session id, row by row.
pub open spec fn close_map(ss: Seq<PublishedSession>) -> Map<Seq<char>, CloseAfterDoneView>
    decreases ss.len(),
{
    if ss.len() == 0 {
        Map::empty()
    } else {
        let rest = close_map(ss.drop_last());
        match close_after_done_of(ss.last().details@) {
            Some(c) => rest.insert(ss.last().session_id@, c),
            None => rest,
        }
    }
}

/// The Delayed Sends per session id, row by row.
pub open spec fn delayed_map(ss: Seq<PublishedSession>) -> Map<Seq<char>, DelayedSendView>
    decreases ss.len(),
{
    if ss.len() == 0 {
        Map::empty()
    } else {
        let rest = delayed_map(ss.drop_last());
        match delayed_send_of(ss.last().details@) {
            Some(d) => rest.insert(ss.last().session_id@, d),
            None => rest,
        }
    }
}

/// The inputs still mirrored from the old projection.
pub struct MirroredInputs {
    pub recent_project_ids: KeyedMap<()>,
    pub remote_recent_project_ids: KeyedMap<KeyedMap<()>>,
    pub recent_project_count: usize,
    pub project_diff_stats: KeyedMap<ProjectDiffStats>,
    pub close_after_done: KeyedMap<CloseAfterDoneInput>,
    pub local_delayed_sends: KeyedMap<DelayedSendInput>,
}

/// The mirrored inputs as the contracts speak of them.
pub struct MirroredView {
    pub recent_project_ids: Set<Seq<char>>,
    pub remote_recent_project_ids: Map<Seq<char>, Set<Seq<char>>>,
    pub recent_project_count: nat,
    pub project_diff_stats: Map<Seq<char>, ProjectDiffStats>,
    pub close_after_done: Map<Seq<char>, CloseAfterDoneView>,
    pub local_delayed_sends: Map<Seq<char>, DelayedSendView>,
}

/// Every machine's set of hidden ids is itself well formed.
pub open spec fn sets_well_formed(m: KeyedMap<KeyedMap<()>>) -> bool {
    &&& m.well_formed()
    &&& forall|i: int| 0 <= i < m.entries@.len() ==> (#[trigger] m.entries@[i]).1.well_formed()
}

/// The hidden ids per machine.
pub open spec fn remote_view(m: KeyedMap<KeyedMap<()>>) -> Map<Seq<char>, Set<Seq<char>>> {
    m.as_map().map_values(|s: KeyedMap<()>| s.as_map().dom())
}

impl MirroredInputs {
    pub open spec fn well_formed(&self) -> bool {
        &&& self.recent_project_ids.well_formed()
        &&& sets_well_formed(self.remote_recent_project_ids)
        &&& self.project_diff_stats.well_formed()
        &&& self.close_after_done.well_formed()
        &&& self.local_delayed_sends.well_formed()
    }

    pub open spec fn view(&self) -> MirroredView {
        MirroredView {
            recent_project_ids: self.recent_project_ids.as_map().dom(),
            remote_recent_project_ids: remote_view(self.remote_recent_project_ids),
            recent_project_count: self.recent_project_count as nat,
            project_diff_stats: self.project_diff_stats.as_map(),
            close_after_done: self.close_after_done.as_map().map_values(
                |c: CloseAfterDoneInput| close_view(c),
            ),
            local_delayed_sends: self.local_delayed_sends.as_map().map_values(
                |d: DelayedSendInput| delayed_view(d),
            ),
        }
    }
}

/// What a publish mirrors: with no publish, nothing.
pub open spec fn mirrored_of(published: Option<&PublishedSnapshot>) -> MirroredView {
    let es = match published {
        Some(p) => p.recent_projects@,
        None => Seq::empty(),
    };
    let gs = match published {
        Some(p) => p.groups@,
        None => Seq::empty(),
    };
    MirroredView {
        recent_project_ids: local_recent_ids(es),
        remote_recent_project_ids: remote_recent_ids(es),
        recent_project_count: es.len(),
        project_diff_stats: diff_stats_map(gs),
        close_after_done: close_map(all_sessions(gs)),
        local_delayed_sends: delayed_map(all_sessions(gs)),
    }
}

/// Adds `project` to what `machine` hides.
fn hide_remote(remote: &mut KeyedMap<KeyedMap<()>>, machine: &str, project: &str)
    requires
        sets_well_formed(*old(remote)),
    ensures
        sets_well_formed(*final(remote)),
        remote_view(*final(remote)) == hide_on(remote_view(*old(remote)), machine@, project@),
{
    let ghost before = *remote;
    match remote.index_of(machine) {
        Some(i) => {
            proof {
                before.lemma_key_index(i as int);
            }
            let (key, mut inner) = remote.remove_at(i);
            let ghost held = inner;
            inner.put(project, ());
            let ghost mid = *remote;
            proof {
                assert(key@ == before.keys()[i as int]);
                assert(!mid.as_map().contains_key(key@));
            }
            let idx = remote.insert_new(key, inner);
            proof {
                assert forall|j: int| 0 <= j < mid.entries@.len() implies (
                #[trigger] mid.entries@[j]).1.well_formed() by {
                    if j < i {
                        assert(mid.entries@[j] == before.entries@[j]);
                    } else {
                        assert(mid.entries@[j] == before.entries@[j + 1]);
                    }
                }
                assert forall|j: int| 0 <= j < remote.entries@.len() implies (
                #[trigger] remote.entries@[j]).1.well_formed() by {
                    if j < idx {
                        assert(remote.entries@[j] == mid.entries@[j]);
                    } else if j > idx {
                        assert(remote.entries@[j] == mid.entries@[j - 1]);
                    }
                }
                assert(remote.as_map() == before.as_map().remove(machine@).insert(machine@, inner));
                assert(inner.as_map().dom() =~= held.as_map().dom().insert(project@));
                assert(remote_view(*remote) =~= hide_on(remote_view(before), machine@, project@));
            }
        },
        None => {
            let mut inner: KeyedMap<()> = KeyedMap::new();
            inner.put(project, ());
            remote.insert_new(String::from_str(machine), inner);
            proof {
                assert(inner.as_map().dom() =~= Set::<Seq<char>>::empty().insert(project@));
                assert(remote_view(*remote) =~= hide_on(remote_view(before), machine@, project@));
            }
        },
    }
}

/// Brings the mirrored inputs up to date with the newest publish of the old projection. Every one
/// of them is taken afresh: what an earlier publish held does not linger.
pub fn refresh_mirrored(host: &mut MirroredInputs, published: Option<&PublishedSnapshot>)
    ensures
        final(host).well_formed(),
        final(host).view() == mirrored_of(published),
{
    let empty_entries: Vec<RecentProject> = Vec::new();
    let empty_groups: Vec<PublishedGroup> = Vec::new();
    let (es, gs) = match published {
        Some(p) => (&p.recent_projects, &p.groups),
        None => (&empty_entries, &empty_groups),
    };
    let mut local: KeyedMap<()> = KeyedMap::new();
    let mut remote: KeyedMap<KeyedMap<()>> = KeyedMap::new();
    proof {
        assert(local.as_map() =~= Map::empty());
        assert(remote_view(remote) =~= Map::empty());
    }
    let mut i: usize = 0;
    while i < es.len()
        invariant
            0 <= i <= es@.len(),
            local.well_formed(),
            sets_well_formed(remote),
            local.as_map().dom() == local_recent_ids(es@.take(i as int)),
            remote_view(remote) == remote_recent_ids(es@.take(i as int)),
        decreases es@.len() - i,
    {
        let e = &es[i];
        proof {
            assert(es@.take(i + 1).drop_last() =~= es@.take(i as int));
            assert(es@.take(i + 1).last() == es@[i as int]);
        }
        let machine = as_text(get(&e.entry, "remoteMachineId"));
        let project = as_text(get(&e.entry, "projectId"));
        match (get(&e.entry, "remoteMachineId"), project) {
            (None, Some(id)) => {
                local.put(id, ());
                proof {
                    assert(local.as_map().dom() =~= local_recent_ids(es@.take(i as int)).insert(id@));
                }
            },
            _ => {},
        }
        match (machine, project, &e.parsed_project) {
            (Some(m), Some(_), Some(parts)) => {
                let names_machine = match &parts.remote_machine {
                    Some(r) => same_text(r.as_str(), m),
                    None => false,
                };
                if names_machine {
                    hide_remote(&mut remote, m, parts.project_id.as_str());
                }
            },
            _ => {},
        }
        i = i + 1;
    }
    proof {
        assert(es@.take(es@.len() as int) =~= es@);
    }
    let mut diff: KeyedMap<ProjectDiffStats> = KeyedMap::new();
    let mut close: KeyedMap<CloseAfterDoneInput> = KeyedMap::new();
    let mut delayed: KeyedMap<DelayedSendInput> = KeyedMap::new();
    proof {
        assert(diff.as_map() =~= Map::empty());
        assert(close.as_map().map_values(|c: CloseAfterDoneInput| close_view(c)) =~= Map::empty());
        assert(delayed.as_map().map_values(|d: DelayedSendInput| delayed_view(d)) =~= Map::empty());
    }
    let mut g: usize = 0;
    while g < gs.len()
        invariant
            0 <= g <= gs@.len(),
            diff.well_formed(),
            close.well_formed(),
            delayed.well_formed(),
            diff.as_map() == diff_stats_map(gs@.take(g as int)),
            close.as_map().map_values(|c: CloseAfterDoneInput| close_view(c)) == close_map(
                all_sessions(gs@.take(g as int)),
            ),
            delayed.as_map().map_values(|d: DelayedSendInput| delayed_view(d)) == delayed_map(
                all_sessions(gs@.take(g as int)),
            ),
        decreases gs@.len() - g,
    {
        let group = &gs[g];
        let ghost before = all_sessions(gs@.take(g as int));
        proof {
            assert(gs@.take(g + 1).drop_last() =~= gs@.take(g as int));
            assert(gs@.take(g + 1).last() == gs@[g as int]);
        }
        let context = match &group.project_context {
            Some(c) => Some(c),
            None => None,
        };
        match project_diff_stats(context) {
            Some((id, stats)) => {
                diff.put(id.as_str(), stats);
            },
            None => {},
        }
        let mut s: usize = 0;
        proof {
            assert(before + group.sessions@.take(0) =~= before);
        }
        while s < group.sessions.len()
            invariant
                0 <= s <= group.sessions@.len(),
                close.well_formed(),
                delayed.well_formed(),
                close.as_map().map_values(|c: CloseAfterDoneInput| close_view(c)) == close_map(
                    before + group.sessions@.take(s as int),
                ),
                delayed.as_map().map_values(|d: DelayedSendInput| delayed_view(d)) == delayed_map(
                    before + group.sessions@.take(s as int),
                ),
            decreases group.sessions@.len() - s,
        {
            let session = &group.sessions[s];
            let ghost upto = before + group.sessions@.take(s + 1);
            proof {
                assert(upto.drop_last() =~= before + group.sessions@.take(s as int));
                assert(upto.last() == group.sessions@[s as int]);
            }
            let ghost close_before = close.as_map();
            match close_after_done(session) {
                Some(c) => {
                    let ghost cv = close_view(c);
                    close.put(session.session_id.as_str(), c);
                    proof {
                        assert(close.as_map().map_values(|c: CloseAfterDoneInput| close_view(c))
                            =~= close_before.map_values(|c: CloseAfterDoneInput| close_view(c)).insert(
                            session.session_id@,
                            cv,
                        ));
                    }
                },
                None => {},
            }
            let ghost delayed_before = delayed.as_map();
            match delayed_send(session) {
                Some(d) => {
                    let ghost dv = delayed_view(d);
                    delayed.put(session.session_id.as_str(), d);
                    proof {
                        assert(delayed.as_map().map_values(|d: DelayedSendInput| delayed_view(d))
                            =~= delayed_before.map_values(|d: DelayedSendInput| delayed_view(d)).insert(
                            session.session_id@,
                            dv,
                        ));
                    }
                },
                None => {},
            }
            s = s + 1;
        }
        proof {
            assert(group.sessions@.take(group.sessions@.len() as int) =~= group.sessions@);
        }
        g = g + 1;
    }
    proof {
        assert(gs@.take(gs@.len() as int) =~= gs@);
    }
    host.recent_project_ids = local;
    host.remote_recent_project_ids = remote;
    host.recent_project_count = es.len();
    host.project_diff_stats = diff;
    host.close_after_done = close;
    host.local_delayed_sends = delayed;
}

/// The ids parked locally are exactly the `projectId` texts of the Recent Projects that name no
/// remote machine: an entry a remote machine handed out never hides a local project.
pub proof fn law_local_recent_ids_are_local_entries(es: Seq<RecentProject>, id: Seq<char>)
    ensures
        local_recent_ids(es).contains(id) <==> exists|i: int|
            0 <= i < es.len() && #[trigger] local_entry_id(es[i]) == Some(id),
    decreases es.len(),
{
    if es.len() > 0 {
        let rest = es.drop_last();
        law_local_recent_ids_are_local_entries(rest, id);
        if local_recent_ids(es).contains(id) {
            if local_entry_id(es.last()) != Some(id) {
                let i = choose|i: int| 0 <= i < rest.len() && #[trigger] local_entry_id(rest[i]) == Some(id);
                assert(es[i] == rest[i]);
            } else {
                assert(local_entry_id(es[es.len() - 1]) == Some(id));
            }
        }
        if exists|i: int| 0 <= i < es.len() && #[trigger] local_entry_id(es[i]) == Some(id) {
            let i = choose|i: int| 0 <= i < es.len() && #[trigger] local_entry_id(es[i]) == Some(id);
            if i < es.len() - 1 {
                assert(rest[i] == es[i]);
            }
        }
    }
}

/// A remote machine hides a raw project id exactly when some Recent Project names that machine and
/// carries a workspace project id that parses to a project of that same machine; a machine no such
/// entry names hides nothing.
pub proof fn law_remote_recent_ids_are_that_machines_entries(
    es: Seq<RecentProject>,
    machine: Seq<char>,
    project: Seq<char>,
)
    ensures
        remote_recent_ids(es).contains_key(machine) && remote_recent_ids(es)[machine].contains(project)
            <==> exists|i: int|
            0 <= i < es.len() && #[trigger] remote_entry_of(es[i]) == Some((machine, project)),
        remote_recent_ids(es).contains_key(machine) <==> exists|i: int|
            0 <= i < es.len() && (#[trigger] remote_entry_of(es[i]) matches Some((m, _)) && m == machine),
    decreases es.len(),
{
    if es.len() > 0 {
        let rest = es.drop_last();
        law_remote_recent_ids_are_that_machines_entries(rest, machine, project);
        let last = es.len() - 1;
        assert(es[last] == es.last());
        assert forall|i: int| 0 <= i < rest.len() implies #[trigger] rest[i] == es[i] by {}
        if remote_recent_ids(es).contains_key(machine) && remote_recent_ids(es)[machine].contains(project) {
            if remote_entry_of(es.last()) != Some((machine, project)) {
                let i = choose|i: int|
                    0 <= i < rest.len() && #[trigger] remote_entry_of(rest[i]) == Some((machine, project));
                assert(es[i] == rest[i]);
            }
        }
        if exists|i: int| 0 <= i < es.len() && #[trigger] remote_entry_of(es[i]) == Some((machine, project)) {
            let i = choose|i: int| 0 <= i < es.len() && #[trigger] remote_entry_of(es[i]) == Some((machine, project));
            if i < last {
                assert(rest[i] == es[i]);
            }
        }
        if remote_recent_ids(es).contains_key(machine) {
            if !(remote_entry_of(es.last()) matches Some((m, _)) && m == machine) {
                let i = choose|i: int|
                    0 <= i < rest.len() && (#[trigger] remote_entry_of(rest[i]) matches Some((m, _)) && m == machine);
                assert(es[i] == rest[i]);
            }
        }
        if exists|i: int| 0 <= i < es.len() && (#[trigger] remote_entry_of(es[i]) matches Some((m, _)) && m == machine) {
            let i = choose|i: int| 0 <= i < es.len() && (#[trigger] remote_entry_of(es[i]) matches Some((m, _)) && m == machine);
            if i < last {
                assert(rest[i] == es[i]);
            }
        }
    }
}

/// The members of a value that is an object; none for any other value.
pub open spec fn members_of(j: Option<Json>) -> Seq<(String, Json)> {
    match j {
        Some(Json::Object(m)) => m@,
        _ => Seq::empty(),
    }
}

/// A Close After Done timer as the facts channel posts it.
pub open spec fn posted_close_of(entry: Json) -> CloseAfterDoneView {
    CloseAfterDoneView {
        armed: is_true(get_of(entry, "armed"@)),
        deadline_at: text_of(get_of(entry, "deadlineAt"@)),
        remaining_label: text_of(get_of(entry, "remainingLabel"@)),
        remaining_ms: i64_of(get_of(entry, "remainingMs"@)),
    }
}

/// A Delayed Send as the facts channel posts it.
pub open spec fn posted_delayed_of(entry: Json) -> DelayedSendView {
    DelayedSendView {
        deadline_at: text_of(get_of(entry, "deadlineAt"@)),
        remaining_label: text_of(get_of(entry, "remainingLabel"@)),
        remaining_ms: i64_of(get_of(entry, "remainingMs"@)),
        send_when_all_project_sessions_stop_active: is_true(
            get_of(entry, "sendWhenAllProjectSessionsStopActive"@),
        ),
        send_when_agent_stops_active: is_true(get_of(entry, "sendWhenAgentStopsActive"@)),
    }
}

/// The git numbers per project of a rows post, member by member; a later member replaces an
/// earlier one under the same id.
pub open spec fn posted_stats_map(members: Seq<(String, Json)>) -> Map<Seq<char>, ProjectDiffStats>
    decreases members.len(),
{
    if members.len() == 0 {
        Map::empty()
    } else {
        posted_stats_map(members.drop_last()).insert(members.last().0@, stats_from(members.last().1))
    }
}

/// The Close After Done timers per session of a rows post, member by member.
pub open spec fn posted_close_map(members: Seq<(String, Json)>) -> Map<Seq<char>, CloseAfterDoneView>
    decreases members.len(),
{
    if members.len() == 0 {
        Map::empty()
    } else {
        posted_close_map(members.drop_last()).insert(
            members.last().0@,
            posted_close_of(members.last().1),
        )
    }
}

/// The Delayed Sends per session of a rows post, member by member.
pub open spec fn posted_delayed_map(members: Seq<(String, Json)>) -> Map<Seq<char>, DelayedSendView>
    decreases members.len(),
{
    if members.len() == 0 {
        Map::empty()
    } else {
        posted_delayed_map(members.drop_last()).insert(
            members.last().0@,
            posted_delayed_of(members.last().1),
        )
    }
}

/// The per-row facts a rows post of the runtime's facts channel carries.
pub struct RowsFacts {
    pub project_diff_stats: KeyedMap<ProjectDiffStats>,
    pub close_after_done: KeyedMap<CloseAfterDoneInput>,
    pub delayed_sends: KeyedMap<DelayedSendInput>,
}

/// A Close After Done timer as the facts channel posts it.
fn posted_close(entry: &Json) -> (c: CloseAfterDoneInput)
    ensures
        close_view(c) == posted_close_of(*entry),
{
    CloseAfterDoneInput {
        armed: as_true(get(entry, "armed")),
        deadline_at: owned(as_text(get(entry, "deadlineAt"))),
        remaining_label: owned(as_text(get(entry, "remainingLabel"))),
        remaining_ms: as_i64(get(entry, "remainingMs")),
    }
}

/// A Delayed Send as the facts channel posts it.
fn posted_delayed(entry: &Json) -> (d: DelayedSendInput)
    ensures
        delayed_view(d) == posted_delayed_of(*entry),
{
    DelayedSendInput {
        deadline_at: owned(as_text(get(entry, "deadlineAt"))),
        remaining_label: owned(as_text(get(entry, "remainingLabel"))),
        remaining_ms: as_i64(get(entry, "remainingMs")),
        send_when_all_project_sessions_stop_active: as_true(
            get(entry, "sendWhenAllProjectSessionsStopActive"),
        ),
        send_when_agent_stops_active: as_true(get(entry, "sendWhenAgentStopsActive")),
    }
}

/// The members of an optional value that is an object.
fn object_members<'a>(value: Option<&'a Json>) -> (members: Option<&'a Vec<(String, Json)>>)
    ensures
        match members {
            Some(m) => members_of(opt_deref(value)) == m@,
            None => members_of(opt_deref(value)) == Seq::<(String, Json)>::empty(),
        },
{
    match value {
        Some(Json::Object(m)) => Some(m),
        _ => None,
    }
}

/// Reads a rows post: `projectDiffStats`, `closeAfterDone` and `delayedSend`, each an object by
/// id; a member that is no object posts nothing.
pub fn rows_facts(post: &Json) -> (facts: RowsFacts)
    ensures
        facts.project_diff_stats.well_formed(),
        facts.close_after_done.well_formed(),
        facts.delayed_sends.well_formed(),
        facts.project_diff_stats.as_map() == posted_stats_map(
            members_of(get_of(*post, "projectDiffStats"@)),
        ),
        facts.close_after_done.as_map().map_values(|c: CloseAfterDoneInput| close_view(c))
            == posted_close_map(members_of(get_of(*post, "closeAfterDone"@))),
        facts.delayed_sends.as_map().map_values(|d: DelayedSendInput| delayed_view(d))
            == posted_delayed_map(members_of(get_of(*post, "delayedSend"@))),
{
    let mut stats: KeyedMap<ProjectDiffStats> = KeyedMap::new();
    proof {
        assert(stats.as_map() =~= Map::empty());
    }
    match object_members(get(post, "projectDiffStats")) {
        Some(m) => {
            let mut i: usize = 0;
            proof {
                assert(m@.take(0) =~= Seq::<(String, Json)>::empty());
            }
            while i < m.len()
                invariant
                    0 <= i <= m@.len(),
                    stats.well_formed(),
                    stats.as_map() == posted_stats_map(m@.take(i as int)),
                decreases m@.len() - i,
            {
                proof {
                    assert(m@.take(i + 1).drop_last() =~= m@.take(i as int));
                    assert(m@.take(i + 1).last() == m@[i as int]);
                }
                stats.put(m[i].0.as_str(), diff_stats_from(&m[i].1));
                i = i + 1;
            }
            proof {
                assert(m@.take(m@.len() as int) =~= m@);
            }
        },
        None => {},
    }
    let mut close: KeyedMap<CloseAfterDoneInput> = KeyedMap::new();
    proof {
        assert(close.as_map().map_values(|c: CloseAfterDoneInput| close_view(c)) =~= Map::empty());
    }
    match object_members(get(post, "closeAfterDone")) {
        Some(m) => {
            let mut i: usize = 0;
            proof {
                assert(m@.take(0) =~= Seq::<(String, Json)>::empty());
            }
            while i < m.len()
                invariant
                    0 <= i <= m@.len(),
                    close.well_formed(),
                    close.as_map().map_values(|c: CloseAfterDoneInput| close_view(c))
                        == posted_close_map(m@.take(i as int)),
                decreases m@.len() - i,
            {
                proof {
                    assert(m@.take(i + 1).drop_last() =~= m@.take(i as int));
                    assert(m@.take(i + 1).last() == m@[i as int]);
                }
                let ghost before = close.as_map();
                let c = posted_close(&m[i].1);
                let ghost cv = close_view(c);
                close.put(m[i].0.as_str(), c);
                proof {
                    assert(close.as_map().map_values(|c: CloseAfterDoneInput| close_view(c))
                        =~= before.map_values(|c: CloseAfterDoneInput| close_view(c)).insert(
                        m@[i as int].0@,
                        cv,
                    ));
                }
                i = i + 1;
            }
            proof {
                assert(m@.take(m@.len() as int) =~= m@);
            }
        },
        None => {},
    }
    let mut delayed: KeyedMap<DelayedSendInput> = KeyedMap::new();
    proof {
        assert(delayed.as_map().map_values(|d: DelayedSendInput| delayed_view(d)) =~= Map::empty());
    }
    match object_members(get(post, "delayedSend")) {
        Some(m) => {
            let mut i: usize = 0;
            proof {
                assert(m@.take(0) =~= Seq::<(String, Json)>::empty());
            }
            while i < m.len()
                invariant
                    0 <= i <= m@.len(),
                    delayed.well_formed(),
                    delayed.as_map().map_values(|d: DelayedSendInput| delayed_view(d))
                        == posted_delayed_map(m@.take(i as int)),
                decreases m@.len() - i,
            {
                proof {
                    assert(m@.take(i + 1).drop_last() =~= m@.take(i as int));
                    assert(m@.take(i + 1).last() == m@[i as int]);
                }
                let ghost before = delayed.as_map();
                let d = posted_delayed(&m[i].1);
                let ghost dv = delayed_view(d);
                delayed.put(m[i].0.as_str(), d);
                proof {
                    assert(delayed.as_map().map_values(|d: DelayedSendInput| delayed_view(d))
                        =~= before.map_values(|d: DelayedSendInput| delayed_view(d)).insert(
                        m@[i as int].0@,
                        dv,
                    ));
                }
                i = i + 1;
            }
            proof {
                assert(m@.take(m@.len() as int) =~= m@);
            }
        },
        None => {},
    }
    RowsFacts { project_diff_stats: stats, close_after_done: close, delayed_sends: delayed }
}

} // verus!
