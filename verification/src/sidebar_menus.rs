//! What the sidebar's menus read from outside the store, all of it from the HUD: the agents the
//! launcher offers and the Saved Actions pinned to the header or to a project. Also what a
//! `sessionMenu` request asks, and what its answer does to the open panel.

use vstd::prelude::*;

use crate::effects::Json;
use crate::json_fields::{as_text, as_true, get, get_of, is_true, opt_deref, owned, text_of};
use crate::keyed::KeyedMap;
use crate::text::same_text;

verus! {

broadcast use vstd::string::group_string_axioms;

/// One agent the launcher offers.
pub struct LauncherAgent {
    pub agent_id: String,
    pub name: String,
    pub icon: Option<String>,
}

/// One Saved Action.
pub struct HeaderCommand {
    pub command_id: String,
    pub name: String,
    pub icon: Option<String>,
    pub show_on_project_row: bool,
}

/// The text of an optional string.
pub open spec fn opt_chars(s: Option<String>) -> Option<Seq<char>> {
    match s {
        Some(t) => Some(t@),
        None => None,
    }
}

/// The text member `key` of a value, empty where it has no such text.
pub open spec fn text_or_empty(value: Json, key: Seq<char>) -> Seq<char> {
    match text_of(get_of(value, key)) {
        Some(t) => t,
        None => Seq::empty(),
    }
}

/// The elements of a value that is an array; none for any other value.
pub open spec fn elements_of(value: Option<Json>) -> Seq<Json> {
    match value {
        Some(Json::Array(e)) => e@,
        _ => Seq::empty(),
    }
}

/// An agent as the contracts speak of it: id, name, icon.
pub open spec fn agent_view(a: LauncherAgent) -> (Seq<char>, Seq<char>, Option<Seq<char>>) {
    (a.agent_id@, a.name@, opt_chars(a.icon))
}

/// The agent an entry of `hud.agents` describes.
pub open spec fn agent_of(entry: Json) -> (Seq<char>, Seq<char>, Option<Seq<char>>) {
    (text_or_empty(entry, "agentId"@), text_or_empty(entry, "name"@), text_of(get_of(entry, "icon"@)))
}

/// A Saved Action as the contracts speak of it.
pub open spec fn command_view(c: HeaderCommand) -> (Seq<char>, Seq<char>, Option<Seq<char>>, bool) {
    (c.command_id@, c.name@, opt_chars(c.icon), c.show_on_project_row)
}

/// The Saved Action an entry of a list describes.
pub open spec fn command_of(entry: Json) -> (Seq<char>, Seq<char>, Option<Seq<char>>, bool) {
    (
        text_or_empty(entry, "commandId"@),
        text_or_empty(entry, "name"@),
        text_of(get_of(entry, "icon"@)),
        is_true(get_of(entry, "showOnProjectRow"@)),
    )
}

/// The text member `key` of a value, empty where it has no such text.
pub fn text(value: &Json, key: &str) -> (t: String)
    ensures
        t@ == text_or_empty(*value, key@),
{
    match as_text(get(value, key)) {
        Some(t) => String::from_str(t),
        None => String::new(),
    }
}

/// The elements of an optional value that is an array.
fn elements<'a>(value: Option<&'a Json>) -> (e: Option<&'a Vec<Json>>)
    ensures
        match e {
            Some(v) => elements_of(opt_deref(value)) == v@,
            None => elements_of(opt_deref(value)) == Seq::<Json>::empty(),
        },
{
    match value {
        Some(Json::Array(e)) => Some(e),
        _ => None,
    }
}

/// `hud.agents`: each entry's id and name (empty where missing) and icon; nothing where the HUD
/// holds no list.
pub fn agents(value: Option<&Json>) -> (found: Vec<LauncherAgent>)
    ensures
        found@.map_values(|a: LauncherAgent| agent_view(a)) == elements_of(opt_deref(value)).map_values(
            |e: Json| agent_of(e),
        ),
{
    let mut found: Vec<LauncherAgent> = Vec::new();
    let ghost all = elements_of(opt_deref(value));
    match elements(value) {
        Some(list) => {
            let mut i: usize = 0;
            while i < list.len()
                invariant
                    0 <= i <= list@.len(),
                    all == list@,
                    found@.map_values(|a: LauncherAgent| agent_view(a)) == list@.take(
                        i as int,
                    ).map_values(|e: Json| agent_of(e)),
                decreases list@.len() - i,
            {
                let entry = &list[i];
                let ghost before = found@;
                found.push(
                    LauncherAgent {
                        agent_id: text(entry, "agentId"),
                        name: text(entry, "name"),
                        icon: owned(as_text(get(entry, "icon"))),
                    },
                );
                proof {
                    let fv = found@.map_values(|a: LauncherAgent| agent_view(a));
                    let bv = before.map_values(|a: LauncherAgent| agent_view(a));
                    let lv = list@.take(i + 1).map_values(|e: Json| agent_of(e));
                    let pv = list@.take(i as int).map_values(|e: Json| agent_of(e));
                    assert(bv.len() == pv.len());
                    assert(before.len() == i);
                    assert forall|j: int| 0 <= j < fv.len() implies fv[j] == lv[j] by {
                        if j < i {
                            assert(found@[j] == before[j]);
                            assert(bv[j] == pv[j]);
                        }
                    }
                    assert(fv =~= lv);
                }
                i = i + 1;
            }
            proof {
                assert(list@.take(list@.len() as int) =~= list@);
            }
        },
        None => {
            proof {
                assert(found@.map_values(|a: LauncherAgent| agent_view(a)) =~= all.map_values(
                    |e: Json| agent_of(e),
                ));
            }
        },
    }
    found
}

/// One Saved Action list: each entry's id and name (empty where missing), icon, and whether it
/// shows on the project row; nothing where the value is no list.
pub fn commands(value: Option<&Json>) -> (found: Vec<HeaderCommand>)
    ensures
        found@.map_values(|c: HeaderCommand| command_view(c)) == elements_of(
            opt_deref(value),
        ).map_values(|e: Json| command_of(e)),
{
    let mut found: Vec<HeaderCommand> = Vec::new();
    let ghost all = elements_of(opt_deref(value));
    match elements(value) {
        Some(list) => {
            let mut i: usize = 0;
            while i < list.len()
                invariant
                    0 <= i <= list@.len(),
                    all == list@,
                    found@.map_values(|c: HeaderCommand| command_view(c)) == list@.take(
                        i as int,
                    ).map_values(|e: Json| command_of(e)),
                decreases list@.len() - i,
            {
                let entry = &list[i];
                let ghost before = found@;
                found.push(
                    HeaderCommand {
                        command_id: text(entry, "commandId"),
                        name: text(entry, "name"),
                        icon: owned(as_text(get(entry, "icon"))),
                        show_on_project_row: as_true(get(entry, "showOnProjectRow")),
                    },
                );
                proof {
                    let fv = found@.map_values(|c: HeaderCommand| command_view(c));
                    let bv = before.map_values(|c: HeaderCommand| command_view(c));
                    let lv = list@.take(i + 1).map_values(|e: Json| command_of(e));
                    let pv = list@.take(i as int).map_values(|e: Json| command_of(e));
                    assert(bv.len() == pv.len());
                    assert(before.len() == i);
                    assert forall|j: int| 0 <= j < fv.len() implies fv[j] == lv[j] by {
                        if j < i {
                            assert(found@[j] == before[j]);
                            assert(bv[j] == pv[j]);
                        }
                    }
                    assert(fv =~= lv);
                }
                i = i + 1;
            }
            proof {
                assert(list@.take(list@.len() as int) =~= list@);
            }
        },
        None => {
            proof {
                assert(found@.map_values(|c: HeaderCommand| command_view(c)) =~= all.map_values(
                    |e: Json| command_of(e),
                ));
            }
        },
    }
    found
}

/// The Saved Action lists per project of an object, member by member; a later member replaces an
/// earlier one under the same id.
pub open spec fn lists_by_project(members: Seq<(String, Json)>) -> Map<
    Seq<char>,
    Seq<(Seq<char>, Seq<char>, Option<Seq<char>>, bool)>,
>
    decreases members.len(),
{
    if members.len() == 0 {
        Map::empty()
    } else {
        lists_by_project(members.drop_last()).insert(
            members.last().0@,
            elements_of(Some(members.last().1)).map_values(|e: Json| command_of(e)),
        )
    }
}

/// The members of a value that is an object; none for any other value.
pub open spec fn object_members_of(value: Option<Json>) -> Seq<(String, Json)> {
    match value {
        Some(Json::Object(m)) => m@,
        _ => Seq::empty(),
    }
}

/// The view of the lists per project.
pub open spec fn lists_view(m: KeyedMap<Vec<HeaderCommand>>) -> Map<
    Seq<char>,
    Seq<(Seq<char>, Seq<char>, Option<Seq<char>>, bool)>,
> {
    m.as_map().map_values(|l: Vec<HeaderCommand>| l@.map_values(|c: HeaderCommand| command_view(c)))
}

/// `hud.commandsByProject`: each project's Saved Action list, in project order.
pub fn commands_by_project(value: Option<&Json>) -> (found: KeyedMap<Vec<HeaderCommand>>)
    ensures
        found.well_formed(),
        lists_view(found) == lists_by_project(object_members_of(opt_deref(value))),
{
    let mut found: KeyedMap<Vec<HeaderCommand>> = KeyedMap::new();
    proof {
        assert(lists_view(found) =~= Map::empty());
    }
    match value {
        Some(Json::Object(members)) => {
            let mut i: usize = 0;
            proof {
                assert(members@.take(0) =~= Seq::<(String, Json)>::empty());
            }
            while i < members.len()
                invariant
                    0 <= i <= members@.len(),
                    found.well_formed(),
                    lists_view(found) == lists_by_project(members@.take(i as int)),
                decreases members@.len() - i,
            {
                proof {
                    assert(members@.take(i + 1).drop_last() =~= members@.take(i as int));
                    assert(members@.take(i + 1).last() == members@[i as int]);
                }
                let ghost before = found.as_map();
                let list = commands(Some(&members[i].1));
                let ghost lv = list@.map_values(|c: HeaderCommand| command_view(c));
                found.put(members[i].0.as_str(), list);
                proof {
                    assert(lists_view(found) =~= before.map_values(
                        |l: Vec<HeaderCommand>| l@.map_values(|c: HeaderCommand| command_view(c)),
                    ).insert(members@[i as int].0@, lv));
                }
                i = i + 1;
            }
            proof {
                assert(members@.take(members@.len() as int) =~= members@);
            }
        },
        _ => {},
    }
    found
}

/// What a `sessionMenu` request asks: the row's session, the panel that asked, and the hover
/// action whose submenu it wants (none for the row's own menu).
pub struct SessionMenuRequest {
    pub session_id: String,
    pub owner_id: String,
    pub action: Option<String>,
}

/// Reads a `sessionMenu` request; anything else, or one naming no session, is none.
pub fn session_menu_request(command: &Json) -> (request: Option<SessionMenuRequest>)
    ensures
        match request {
            Some(r) => text_of(get_of(*command, "type"@)) == Some("sessionMenu"@) && text_of(
                get_of(*command, "sessionId"@),
            ) == Some(r.session_id@) && r.owner_id@ == text_or_empty(*command, "ownerId"@)
                && opt_chars(r.action) == text_of(get_of(*command, "action"@)),
            None => text_of(get_of(*command, "type"@)) != Some("sessionMenu"@) || text_of(
                get_of(*command, "sessionId"@),
            ) is None,
        },
{
    match as_text(get(command, "type")) {
        Some(t) => if !same_text(t, "sessionMenu") {
            return None;
        },
        None => return None,
    }
    let session_id = match as_text(get(command, "sessionId")) {
        Some(s) => String::from_str(s),
        None => return None,
    };
    Some(
        SessionMenuRequest {
            session_id,
            owner_id: text(command, "ownerId"),
            action: owned(as_text(get(command, "action"))),
        },
    )
}

/// What a menu answer does to the open panel.
#[derive(Clone, Copy, Debug, PartialEq, Eq)]
pub enum PanelStep {
    /// The panel that asked is gone: nothing to do.
    Leave,
    /// The row no longer draws: the menu closes, as an empty reply does.
    Dismiss,
    /// The panel shows the answer.
    Replace,
}

/// What a menu answer does, given whether the asking panel is still the open one and whether the
/// answer holds any item.
pub fn panel_step(owns_panel: bool, items_empty: bool) -> (step: PanelStep)
    ensures
        step == (if !owns_panel {
            PanelStep::Leave
        } else if items_empty {
            PanelStep::Dismiss
        } else {
            PanelStep::Replace
        }),
{
    if !owns_panel {
        PanelStep::Leave
    } else if items_empty {
        PanelStep::Dismiss
    } else {
        PanelStep::Replace
    }
}

/// One machine of a publish: its id and its connection state.
pub struct MachineState {
    pub id: String,
    pub state: String,
}

/// Whether the selected machine is connected: some machine of the publish has its id and the
/// state `connected`.
pub open spec fn machine_connected_of(machines: Seq<MachineState>, selected: Seq<char>) -> bool {
    exists|i: int|
        0 <= i < machines.len() && #[trigger] machines[i].id@ == selected && machines[i].state@
            == "connected"@
}

/// Whether the selected machine is connected.
pub fn machine_connected(machines: &Vec<MachineState>, selected: &str) -> (connected: bool)
    ensures
        connected == machine_connected_of(machines@, selected@),
{
    let mut i: usize = 0;
    while i < machines.len()
        invariant
            0 <= i <= machines@.len(),
            forall|j: int|
                0 <= j < i ==> !(#[trigger] machines@[j].id@ == selected@ && machines@[j].state@
                    == "connected"@),
        decreases machines@.len() - i,
    {
        if same_text(machines[i].id.as_str(), selected) && same_text(
            machines[i].state.as_str(),
            "connected",
        ) {
            return true;
        }
        i = i + 1;
    }
    false
}

} // verus!
