//! The desktop app's state as far as the store's focus, the floating reveal and the Docs review
//! decide on it, and the entry points the rest of the app calls.

use vstd::prelude::*;

use crate::burst::SelectionBurst;
use crate::docs_feedback::{
    AgentSession, DocsAnnotationFeedbackRpcTarget, DocsAnnotationFeedbackSurface,
    DocsAnnotationFeedbackTarget, SidebarAgent, WorkspaceSessionKey, agent_label_of, rpc_target_of, rpc_target_for,
    target_exists,
};
use crate::floating_panel::FloatingRevealContent;
use crate::gx_diagnostics::GxStoreDiagnostics;
use crate::sidebar::RuntimeFacts;
use crate::remote_focus::SidebarRemoteFocusHost;
use crate::local_focus::{
    FocusEchoes, FocusIds, RowFocus, SessionRef, TabListDispute, copy_opt, copy_session, copy_texts,
    echoes_bounded, expect_echo_of, focus_view, opt_view, row_focus_of, same_opt, same_rows,
};

verus! {

broadcast use vstd::string::group_string_axioms;

/// What the remote project documents counted since the app started.
#[derive(Clone, Copy, Debug, Default, PartialEq, Eq)]
pub struct RemoteProjectDocCounters {
    pub collection_writes: u64,
    pub space_writes: u64,
    pub orders_dropped: u64,
    /// Edits made with no runtime to send them to.
    pub unsent: u64,
}

/// The store's host state.
pub struct GxStore {
    pub rows: RowFocus,
    pub echoes: FocusEchoes,
    pub burst: SelectionBurst,
    pub tab_dispute: TabListDispute,
    /// What the focus state file holds, so it is written only when its focus moved.
    pub persisted_focus: Option<FocusIds>,
    /// A collection rename the sidebar is to start: the collection and the request id.
    pub pending_collection_rename: Option<(String, u64)>,
    pub remote_project_doc_counters: RemoteProjectDocCounters,
    /// The runtime's facts channel, which also holds the newest reveal request.
    pub runtime_facts: RuntimeFacts,
    pub diagnostics: GxStoreDiagnostics,
    pub local_focus_route: LocalFocusRouteCounters,
    pub sidebar_remote_focus: SidebarRemoteFocusHost,
}

/// What the store counted of the local row clicks it routed itself.
#[derive(Clone, Copy, Debug, Default, PartialEq, Eq)]
pub struct LocalFocusRouteCounters {
    /// Local focus clicks the store routed to the runtime itself.
    pub focuses: u64,
    /// Of those, the ones naming a browser tab.
    pub browser_rows: u64,
    /// Of those, the ones that closed an open app modal.
    pub modals_closed: u64,
    /// Clicks dropped because the list was not ready yet.
    pub declined_source: u64,
}

/// What the store counted of the remote row clicks it answered.
#[derive(Clone, Copy, Debug, Default, PartialEq, Eq)]
pub struct SidebarRemoteFocusCounters {
    /// Clicks the store answered, and each kind of them.
    pub opens: u64,
    pub splits: u64,
    /// Of those, the ones that carried each option.
    pub keep_view: u64,
    pub chat_interface: u64,
    /// The old runtime's own copy of an open the store had already performed, dropped.
    pub duplicates_dropped: u64,
    /// A payload the store owns but did not answer because the list was not drawn by the store.
    pub declined_source: u64,
    /// A remote row's click the planner refused, which the old runtime then performs whole.
    pub handed_back: u64,
}

/// What the floating reveal reads of the window.
#[derive(Clone, Copy, Debug, PartialEq, Eq)]
pub struct FloatingRevealInputs {
    pub sidebar_collapsed: bool,
    pub view_panel_maximized: bool,
    /// Whether the Agents workspace shows a web chat, which the reveal cannot carry.
    pub workspace_shows_cef_chat: bool,
    /// What the open floating panel carries, when one is open.
    pub panel: Option<FloatingRevealContent>,
}

/// The desktop app.
pub struct GhostexGpuiApp {
    pub gx_store: GxStore,
    pub floating_reveal: FloatingRevealInputs,
    /// The export transcript modal's window, while one is open.
    pub export_transcript_modal_window: Option<u64>,
    pub pending_export_transcript_reveal_path: Option<String>,
}

impl GhostexGpuiApp {
    /// The local focus route counters, for the periodic summary.
    pub fn gx_store_local_focus_route_counters(&self) -> (counters: LocalFocusRouteCounters)
        ensures
            counters == self.gx_store.local_focus_route,
    {
        self.gx_store.local_focus_route
    }

    /// The remote focus counters, for the periodic summary.
    pub fn gx_store_remote_focus_counters(&self) -> (counters: SidebarRemoteFocusCounters)
        ensures
            counters == self.gx_store.sidebar_remote_focus.counters,
    {
        self.gx_store.sidebar_remote_focus.counters
    }

    /// What the floating window would carry now: the sidebar while it is collapsed, the Agents
    /// column while the view panel is maximized over a workspace with no web chat.
    pub fn floating_reveal_content(&self) -> (content: FloatingRevealContent)
        ensures
            content.sidebar == self.floating_reveal.sidebar_collapsed,
            content.agents_column == (self.floating_reveal.view_panel_maximized
                && !self.floating_reveal.workspace_shows_cef_chat),
    {
        FloatingRevealContent {
            sidebar: self.floating_reveal.sidebar_collapsed,
            agents_column: self.floating_reveal.view_panel_maximized
                && !self.floating_reveal.workspace_shows_cef_chat,
        }
    }

    /// The reveal exists while something is folded away.
    pub fn floating_reveal_eligible(&self) -> (eligible: bool)
        ensures
            eligible == (self.floating_reveal.sidebar_collapsed || (
            self.floating_reveal.view_panel_maximized
                && !self.floating_reveal.workspace_shows_cef_chat)),
    {
        let content = self.floating_reveal_content();
        content.sidebar || content.agents_column
    }

    /// What hovering the edge asks for: with both panels folded, the top half asks for the
    /// sidebar and the bottom half for the Agents column; otherwise the sidebar.
    pub fn floating_reveal_edge_want(&self, top_half: bool) -> (want: FloatingRevealContent)
        ensures
            ({
                let split = self.floating_reveal.view_panel_maximized
                    && !self.floating_reveal.workspace_shows_cef_chat;
                want.sidebar == (top_half || !split) && want.agents_column == (!top_half && split)
            }),
    {
        let split = self.floating_reveal_content().agents_column;
        FloatingRevealContent { sidebar: top_half || !split, agents_column: !top_half && split }
    }

    /// Whether the open floating panel carries the Agents column.
    pub fn floating_reveal_hosts_agents_column(&self) -> (hosts: bool)
        ensures
            hosts == (self.floating_reveal.panel matches Some(c) && c.agents_column),
    {
        match self.floating_reveal.panel {
            Some(content) => content.agents_column,
            None => false,
        }
    }

    /// The export transcript modal's window is gone, and with it the reveal it was to make.
    pub fn release_gpui_export_transcript_modal_window(&mut self)
        ensures
            final(self).export_transcript_modal_window is None,
            final(self).pending_export_transcript_reveal_path is None,
            final(self).floating_reveal == old(self).floating_reveal,
            final(self).gx_store == old(self).gx_store,
    {
        self.export_transcript_modal_window = None;
        self.pending_export_transcript_reveal_path = None;
    }

    /// Whether heavy per-selection work is held back right now.
    pub fn gx_store_selection_is_settling(&self) -> (settling: bool)
        ensures
            settling == self.gx_store.burst.settle_due_ms is Some,
    {
        self.gx_store.burst.is_settling()
    }

    /// Chat surfaces are reconciled when the selection settles.
    pub fn gx_store_defer_chat_reconcile(&mut self)
        ensures
            final(self).gx_store.burst.chat_reconcile_wanted,
            final(self).gx_store.burst.settle_due_ms == old(self).gx_store.burst.settle_due_ms,
            final(self).gx_store.burst.tell_due_ms == old(self).gx_store.burst.tell_due_ms,
    {
        self.gx_store.burst.defer_chat_reconcile();
    }

    /// A remote session was selected in the workspace: the store stops drawing its last local
    /// session as focused.
    pub fn gx_store_note_remote_selection(&mut self)
        ensures
            final(self).gx_store.rows.foreign_focus,
            final(self).gx_store.rows.focused_row_id == old(self).gx_store.rows.focused_row_id,
            final(self).gx_store.rows.visible_row_ids == old(self).gx_store.rows.visible_row_ids,
    {
        self.gx_store.rows.foreign_focus = true;
    }

    /// How a native sidebar row draws: `(focused, visible)`.
    pub fn gx_store_sidebar_row_focus(
        &self,
        row_id: &str,
        is_browser: bool,
        snapshot_focused: bool,
        snapshot_visible: bool,
    ) -> (drawn: (bool, bool))
        ensures
            drawn == row_focus_of(
                self.gx_store.rows,
                row_id@,
                is_browser,
                snapshot_focused,
                snapshot_visible,
            ),
    {
        self.gx_store.rows.row_focus(row_id, is_browser, snapshot_focused, snapshot_visible)
    }

    /// A sidebar row click was applied here; the old runtime routes the same click and will send
    /// its own focus request for the session, echoing the selection at `local_stamp`.
    pub fn gx_store_expect_click_echo(&mut self, key: &SessionRef, local_stamp: u64)
        ensures
            final(self).gx_store.echoes.expected_echoes@ == expect_echo_of(
                old(self).gx_store.echoes.expected_echoes@,
                *key,
                local_stamp,
            ),
            echoes_bounded(old(self).gx_store.echoes.expected_echoes@) ==> echoes_bounded(
                final(self).gx_store.echoes.expected_echoes@,
            ),
            final(self).gx_store.echoes.confirmed_stamp == old(self).gx_store.echoes.confirmed_stamp,
    {
        self.gx_store.echoes.expect_focus_echo(copy_session(key), local_stamp);
    }

    /// Whether the tab list of a focus payload may be reconciled into the workspace now: one with
    /// rows always may; an empty one for a project needs the store's agreement (`store_confirms`).
    pub fn gx_store_allows_tab_reconcile(
        &mut self,
        project_id: Option<&str>,
        tab_count: usize,
        store_confirms: bool,
    ) -> (allowed: bool)
        requires
            old(self).gx_store.tab_dispute.disputed_empty_tab_lists < u64::MAX,
        ensures
            allowed == (tab_count > 0 || project_id is None || store_confirms),
            !allowed ==> opt_view(final(self).gx_store.tab_dispute.disputed_empty_tab_list) == Some(
                project_id->0@,
            ),
            tab_count > 0 || (project_id is Some && store_confirms) ==> final(self).gx_store.tab_dispute.disputed_empty_tab_list is None
                && final(self).gx_store.tab_dispute.disputed_empty_tab_lists == old(self).gx_store.tab_dispute.disputed_empty_tab_lists,
            tab_count == 0 && project_id is None ==> final(self).gx_store.tab_dispute == old(self).gx_store.tab_dispute,
            !allowed ==> final(self).gx_store.tab_dispute.disputed_empty_tab_lists
                == old(self).gx_store.tab_dispute.disputed_empty_tab_lists + if opt_view(
                old(self).gx_store.tab_dispute.disputed_empty_tab_list,
            ) == Some(project_id->0@) {
                0int
            } else {
                1int
            },
            final(self).floating_reveal == old(self).floating_reveal,
            final(self).export_transcript_modal_window == old(self).export_transcript_modal_window,
            final(self).pending_export_transcript_reveal_path == old(self).pending_export_transcript_reveal_path,
    {
        self.gx_store.tab_dispute.allows_tab_reconcile(project_id, tab_count, store_confirms)
    }

    /// Whether the focus state file has to be written for `current`: only when its focus moved
    /// since the last write, which is then remembered.
    pub fn gx_store_persist_focus_state_file(&mut self, current: &FocusIds) -> (write: bool)
        ensures
            write == !(old(self).gx_store.persisted_focus matches Some(p) && focus_view(p)
                == focus_view(*current)),
            write ==> (final(self).gx_store.persisted_focus matches Some(p) && focus_view(p)
                == focus_view(*current)),
            !write ==> final(self).gx_store.persisted_focus == old(self).gx_store.persisted_focus,
    {
        let same = match &self.gx_store.persisted_focus {
            Some(p) => same_opt(&p.active_project_id, &current.active_project_id) && same_opt(
                &p.focused_session_id,
                &current.focused_session_id,
            ) && same_rows(&p.visible_session_ids, &current.visible_session_ids),
            None => false,
        };
        if same {
            return false;
        }
        self.gx_store.persisted_focus = Some(
            FocusIds {
                active_project_id: copy_opt(&current.active_project_id),
                focused_session_id: copy_opt(&current.focused_session_id),
                visible_session_ids: copy_texts(&current.visible_session_ids),
            },
        );
        true
    }

    /// The collection rename the sidebar is to start, if one is pending.
    pub fn gx_store_pending_collection_rename(&self) -> (rename: Option<(String, u64)>)
        ensures
            rename == self.gx_store.pending_collection_rename,
    {
        match &self.gx_store.pending_collection_rename {
            Some((collection_id, request_id)) => Some((collection_id.clone(), *request_id)),
            None => None,
        }
    }

    /// What the remote project documents counted.
    pub fn gx_store_remote_project_doc_counters(&self) -> (counters: RemoteProjectDocCounters)
        ensures
            counters == self.gx_store.remote_project_doc_counters,
    {
        self.gx_store.remote_project_doc_counters
    }

    /// A remote gesture whose project order write was dropped.
    pub fn gx_store_note_remote_order_dropped(&mut self)
        requires
            old(self).gx_store.remote_project_doc_counters.orders_dropped < u64::MAX,
        ensures
            final(self).gx_store.remote_project_doc_counters.orders_dropped == old(
                self,
            ).gx_store.remote_project_doc_counters.orders_dropped + 1,
            final(self).gx_store.remote_project_doc_counters.collection_writes == old(
                self,
            ).gx_store.remote_project_doc_counters.collection_writes,
            final(self).gx_store.remote_project_doc_counters.space_writes == old(
                self,
            ).gx_store.remote_project_doc_counters.space_writes,
    {
        self.gx_store.remote_project_doc_counters.orders_dropped =
            self.gx_store.remote_project_doc_counters.orders_dropped + 1;
    }

    /// A local sidebar row asked to be revealed: it becomes the newest reveal request.
    pub fn gx_store_note_local_sidebar_reveal(&mut self, session_id: &str, request_id: u64)
        ensures
            (final(self).gx_store.runtime_facts.newest_reveal matches Some((s, r)) && s@
                == session_id@ && r == request_id),
            final(self).gx_store.runtime_facts.counters == old(self).gx_store.runtime_facts.counters,
            final(self).gx_store.runtime_facts.hud_generation == old(self).gx_store.runtime_facts.hud_generation,
            final(self).gx_store.runtime_facts.rows_generation == old(self).gx_store.runtime_facts.rows_generation,
    {
        self.gx_store.runtime_facts.newest_reveal = Some((String::from_str(session_id), request_id));
    }

    /// Whether a session is in front: the active tab of a rendered pane (`pane_fronts`, each
    /// pane's active session) or in a companion slot (`companion_slots`). A session with no
    /// terminal (`shell_session`) is not.
    pub fn gx_store_session_is_in_front(
        shell_session: Option<u64>,
        pane_fronts: &Vec<u64>,
        companion_slots: &Vec<u64>,
    ) -> (in_front: bool)
        ensures
            in_front == (shell_session matches Some(id) && (pane_fronts@.contains(id)
                || companion_slots@.contains(id))),
    {
        let Some(id) = shell_session else {
            return false;
        };
        holds_id(pane_fronts, id) || holds_id(companion_slots, id)
    }

    /// The session the user last clicked in the sidebar for the active project, when it is a
    /// running agent session; nothing else is considered.
    pub fn docs_annotation_feedback_target(
        agents: &Vec<SidebarAgent>,
        active_project_id: Option<&str>,
        latest: Option<&SessionRef>,
        mapped: Option<u64>,
        session: Option<&AgentSession>,
    ) -> (target: Option<DocsAnnotationFeedbackTarget>)
        ensures
            target is Some <==> target_exists(
                crate::chat_storage::opt_str(active_project_id),
                match latest {
                    Some(l) => Some(*l),
                    None => None,
                },
                mapped,
                match session {
                    Some(s) => Some(*s),
                    None => None,
                },
            ),
            target matches Some(t) ==> t.shell_session_id == mapped->0 && t.agent_label@ == agent_label_of(
                agents@,
                session->0.agent_icon->0@,
            ) && t.session_title@ == session->0.title@ && t.surface == if session->0.chat_mode {
                DocsAnnotationFeedbackSurface::Chat
            } else {
                DocsAnnotationFeedbackSurface::Terminal
            },
    {
        DocsAnnotationFeedbackTarget::for_session(agents, active_project_id, latest, mapped, session)
    }

    /// The gxserver identity a workspace session's input-box verdict is asked of, or `None` where
    /// the machine it would be asked on has no request target.
    pub fn docs_annotation_feedback_rpc_target(
        key: &WorkspaceSessionKey,
        remote_reference: Option<(String, String)>,
        machine_has_target: bool,
    ) -> (target: Option<DocsAnnotationFeedbackRpcTarget>)
        ensures
            target == rpc_target_for(*key, remote_reference, machine_has_target),
    {
        rpc_target_of(key, remote_reference, machine_has_target)
    }
}

/// Whether `id` is among `ids`.
fn holds_id(ids: &Vec<u64>, id: u64) -> (found: bool)
    ensures
        found == ids@.contains(id),
{
    let mut i: usize = 0;
    while i < ids.len()
        invariant
            0 <= i <= ids@.len(),
            forall|j: int| 0 <= j < i ==> ids@[j] != id,
        decreases ids@.len() - i,
    {
        if ids[i] == id {
            proof {
                assert(ids@[i as int] == id);
            }
            return true;
        }
        i = i + 1;
    }
    false
}

} // verus!
