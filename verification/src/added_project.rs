//! The project the Add Project dialog just added: it joins the open Space at once, and its id is
//! held until the sidebar has a group for it, when its family goes to the top of the group order.
//! The held id is memory only: a launch that never sees the project forgets it.

use vstd::prelude::*;

use crate::effects::Json;

verus! {

broadcast use vstd::string::group_string_axioms;

/// What this app run did with the added projects.
#[derive(Clone, Copy, Debug, Default, PartialEq, Eq)]
pub struct AddedProjectCounters {
    /// Projects the dialog reported.
    pub added: u64,
    /// Of those, the ones that joined the open Space.
    pub space_memberships: u64,
    /// Projects whose group appeared and whose family was moved to the top.
    pub placements: u64,
    /// Projects whose group appeared where the order already was the one wanted.
    pub placements_unchanged: u64,
    /// Of the projects, the ones reported for a remote machine.
    pub remotes: u64,
}

/// Where a held project stands once the sidebar was asked.
pub enum AddedPlacement {
    /// No group for it yet: it stays held.
    Waiting,
    /// Its group is there: the new group order, or `None` where the order already is the one
    /// wanted.
    Placed(Option<Vec<String>>),
}

/// The project held for its order, with the machine that owns it (`None` for this computer), and
/// what was counted.
pub struct AddedProjectHost {
    pub pending_project: Option<(Option<String>, String)>,
    pub counters: AddedProjectCounters,
}

/// The text of an optional string.
pub open spec fn opt_chars(s: Option<String>) -> Option<Seq<char>> {
    match s {
        Some(t) => Some(t@),
        None => None,
    }
}

/// The held project as the contracts speak of it.
pub open spec fn pending_view(p: Option<(Option<String>, String)>) -> Option<(Option<Seq<char>>, Seq<char>)> {
    match p {
        Some((m, id)) => Some((opt_chars(m), id@)),
        None => None,
    }
}

/// Whether a JSON value is the text array `ids`, in order.
pub open spec fn text_array(j: Json, ids: Seq<String>) -> bool {
    j matches Json::Array(e) && e@.len() == ids.len() && forall|i: int|
        0 <= i < ids.len() ==> (#[trigger] e@[i] matches Json::Text(t) && t@ == ids[i]@)
}

impl AddedProjectHost {
    /// A host holding no project.
    pub fn new() -> (host: Self)
        ensures
            host.pending_project is None,
            host.counters == (AddedProjectCounters {
                added: 0,
                space_memberships: 0,
                placements: 0,
                placements_unchanged: 0,
                remotes: 0,
            }),
    {
        AddedProjectHost {
            pending_project: None,
            counters: AddedProjectCounters {
                added: 0,
                space_memberships: 0,
                placements: 0,
                placements_unchanged: 0,
                remotes: 0,
            },
        }
    }

    /// The dialog reported a project; `joined_space` says whether its Space membership was written.
    /// The project is held for its order either way: the order is owed for every added project.
    pub fn note_added_project(
        &mut self,
        project_id: &str,
        remote_machine_id: Option<&str>,
        joined_space: bool,
    )
        requires
            old(self).counters.added < u64::MAX,
            old(self).counters.remotes < u64::MAX,
            old(self).counters.space_memberships < u64::MAX,
        ensures
            pending_view(final(self).pending_project) == Some(
                (
                    match remote_machine_id {
                        Some(m) => Some(m@),
                        None => None::<Seq<char>>,
                    },
                    project_id@,
                ),
            ),
            final(self).counters.added == old(self).counters.added + 1,
            final(self).counters.remotes == old(self).counters.remotes + (if remote_machine_id is Some {
                1int
            } else {
                0int
            }),
            final(self).counters.space_memberships == old(self).counters.space_memberships + (
            if joined_space {
                1int
            } else {
                0int
            }),
            final(self).counters.placements == old(self).counters.placements,
            final(self).counters.placements_unchanged == old(self).counters.placements_unchanged,
    {
        self.counters.added = self.counters.added + 1;
        let machine = match remote_machine_id {
            Some(m) => {
                self.counters.remotes = self.counters.remotes + 1;
                Some(String::from_str(m))
            },
            None => None,
        };
        if joined_space {
            self.counters.space_memberships = self.counters.space_memberships + 1;
        }
        self.pending_project = Some((machine, String::from_str(project_id)));
    }

    /// Takes in where the held project stands. Once its group is there it is held no longer; a
    /// new order comes back as the `syncGroupOrder` message that writes it.
    pub fn place_added_project(&mut self, placement: AddedPlacement) -> (message: Option<Json>)
        requires
            old(self).counters.placements < u64::MAX,
            old(self).counters.placements_unchanged < u64::MAX,
        ensures
            old(self).pending_project is None ==> message is None && pending_view(
                final(self).pending_project,
            ) == pending_view(old(self).pending_project) && final(self).counters == old(self).counters,
            old(self).pending_project is Some ==> match placement {
                AddedPlacement::Waiting => message is None && pending_view(final(self).pending_project)
                    == pending_view(old(self).pending_project) && final(self).counters == old(self).counters,
                AddedPlacement::Placed(None) => message is None && final(self).pending_project is None
                    && final(self).counters.placements_unchanged == old(self).counters.placements_unchanged + 1 && final(self).counters.placements == old(self).counters.placements,
                AddedPlacement::Placed(Some(ids)) => final(self).pending_project is None && final(self).counters.placements == old(self).counters.placements + 1 && final(self).counters.placements_unchanged == old(self).counters.placements_unchanged
                    && (message matches Some(Json::Object(m)) && m@.len() == 2 && m@[0].0@ == "type"@
                    && (m@[0].1 matches Json::Text(t) && t@ == "syncGroupOrder"@) && m@[1].0@
                    == "groupIds"@ && text_array(m@[1].1, ids@)),
            },
            final(self).counters.added == old(self).counters.added,
    {
        if self.pending_project.is_none() {
            return None;
        }
        match placement {
            AddedPlacement::Waiting => None,
            AddedPlacement::Placed(order) => {
                self.pending_project = None;
                match order {
                    None => {
                        self.counters.placements_unchanged = self.counters.placements_unchanged + 1;
                        None
                    },
                    Some(ids) => {
                        self.counters.placements = self.counters.placements + 1;
                        let mut elements: Vec<Json> = Vec::new();
                        let mut i: usize = 0;
                        while i < ids.len()
                            invariant
                                0 <= i <= ids@.len(),
                                elements@.len() == i,
                                forall|k: int|
                                    0 <= k < i ==> (#[trigger] elements@[k] matches Json::Text(t)
                                        && t@ == ids@[k]@),
                            decreases ids@.len() - i,
                        {
                            elements.push(Json::Text(ids[i].clone()));
                            i = i + 1;
                        }
                        Some(
                            Json::Object(
                                vec![
                                    (
                                        String::from_str("type"),
                                        Json::Text(String::from_str("syncGroupOrder")),
                                    ),
                                    (String::from_str("groupIds"), Json::Array(elements)),
                                ],
                            ),
                        )
                    },
                }
            },
        }
    }
}

} // verus!
