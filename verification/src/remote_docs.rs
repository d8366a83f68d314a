//! A remote machine's project collections and Spaces documents: this app holds them and sends a
//! remote edit through the sidebar runtime, which reaches that machine; it does not own them.
//! Also the counters the periodic summary carries, as the JSON it writes.

use vstd::prelude::*;

use crate::app_model::{LocalFocusRouteCounters, RemoteProjectDocCounters, SidebarRemoteFocusCounters};
use crate::effects::Json;
use crate::keyed::KeyedMap;
use crate::text::same_text;

verus! {

broadcast use vstd::string::group_string_axioms;

/// The remote machine whose tab is open, or `None` for this computer's (`local_id`).
pub fn selected_remote_machine_id(selected: &str, local_id: &str) -> (remote: Option<String>)
    ensures
        match remote {
            Some(r) => selected@ != local_id@ && r@ == selected@,
            None => selected@ == local_id@,
        },
{
    if same_text(selected, local_id) {
        None
    } else {
        Some(String::from_str(selected))
    }
}

/// The number a remote machine's next new group takes: the document's own, raised to what this run
/// already handed out on that machine (1 where it handed out none). Two groups created before the
/// first answer comes back therefore never share a name. The number is remembered for the machine.
pub fn next_collection_number(
    held: &mut KeyedMap<i64>,
    machine_id: &str,
    document_next: i64,
) -> (next: i64)
    requires
        old(held).well_formed(),
    ensures
        final(held).well_formed(),
        ({
            let floor = if old(held).as_map().contains_key(machine_id@) {
                old(held).as_map()[machine_id@]
            } else {
                1i64
            };
            next == (if document_next >= floor {
                document_next
            } else {
                floor
            })
        }),
        final(held).as_map() == old(held).as_map().insert(machine_id@, next),
{
    let floor = match held.get(machine_id) {
        Some(n) => *n,
        None => 1,
    };
    let next = if document_next >= floor {
        document_next
    } else {
        floor
    };
    held.put(machine_id, next);
    next
}

/// Which remote document an edit sends.
#[derive(Clone, Copy, Debug, PartialEq, Eq)]
pub enum RemoteDoc {
    Collections,
    Spaces,
}

/// The runtime command that sends a remote document: its message type.
pub open spec fn remote_doc_type(doc: RemoteDoc) -> Seq<char> {
    match doc {
        RemoteDoc::Collections => "updateSidebarProjectCollections"@,
        RemoteDoc::Spaces => "updateSidebarSpaces"@,
    }
}

/// `{type, state, remoteMachineId}`: the runtime command that sends a remote document.
pub fn remote_doc_message(doc: RemoteDoc, machine_id: &str, state: Json) -> (message: Json)
    ensures
        message matches Json::Object(m) && m@.len() == 3 && m@[0].0@ == "type"@ && (m@[0].1 matches Json::Text(
            t,
        ) && t@ == remote_doc_type(doc)) && m@[1].0@ == "state"@ && m@[1].1 == state && m@[2].0@
            == "remoteMachineId"@ && (m@[2].1 matches Json::Text(r) && r@ == machine_id@),
{
    let message_type = match doc {
        RemoteDoc::Collections => "updateSidebarProjectCollections",
        RemoteDoc::Spaces => "updateSidebarSpaces",
    };
    proof {
        reveal_strlit("updateSidebarProjectCollections");
        reveal_strlit("updateSidebarSpaces");
    }
    Json::Object(
        vec![
            (String::from_str("type"), Json::Text(String::from_str(message_type))),
            (String::from_str("state"), state),
            (String::from_str("remoteMachineId"), Json::Text(String::from_str(machine_id))),
        ],
    )
}

/// Counts a remote document sent, and the edit as unsent when no runtime took it.
pub fn note_remote_send(counters: &mut RemoteProjectDocCounters, doc: RemoteDoc, sent: bool)
    requires
        old(counters).collection_writes < u64::MAX,
        old(counters).space_writes < u64::MAX,
        old(counters).unsent < u64::MAX,
    ensures
        final(counters).collection_writes == old(counters).collection_writes + (if doc
            == RemoteDoc::Collections {
            1int
        } else {
            0int
        }),
        final(counters).space_writes == old(counters).space_writes + (if doc == RemoteDoc::Spaces {
            1int
        } else {
            0int
        }),
        final(counters).unsent == old(counters).unsent + (if sent {
            0int
        } else {
            1int
        }),
        final(counters).orders_dropped == old(counters).orders_dropped,
{
    match doc {
        RemoteDoc::Collections => counters.collection_writes = counters.collection_writes + 1,
        RemoteDoc::Spaces => counters.space_writes = counters.space_writes + 1,
    }
    if !sent {
        counters.unsent = counters.unsent + 1;
    }
}

/// Whether a JSON value is an object of exactly these number members, in this order.
pub open spec fn number_object(j: Json, members: Seq<(Seq<char>, u64)>) -> bool {
    j matches Json::Object(m) && m@.len() == members.len() && forall|i: int|
        0 <= i < members.len() ==> (#[trigger] m@[i]).0@ == members[i].0 && m@[i].1 == Json::UInt(
            members[i].1,
        )
}

/// A number member.
fn number_member(key: &str, value: u64) -> (member: (String, Json))
    ensures
        member.0@ == key@,
        member.1 == Json::UInt(value),
{
    (String::from_str(key), Json::UInt(value))
}

/// The remote document counters as the summary carries them.
pub fn remote_project_doc_counters_json(counters: &RemoteProjectDocCounters) -> (json: Json)
    ensures
        number_object(
            json,
            seq![
                ("collectionWrites"@, counters.collection_writes),
                ("spaceWrites"@, counters.space_writes),
                ("ordersDropped"@, counters.orders_dropped),
                ("unsent"@, counters.unsent),
            ],
        ),
{
    let m = vec![
        number_member("collectionWrites", counters.collection_writes),
        number_member("spaceWrites", counters.space_writes),
        number_member("ordersDropped", counters.orders_dropped),
        number_member("unsent", counters.unsent),
    ];
    proof {
        let want = seq![
            ("collectionWrites"@, counters.collection_writes),
            ("spaceWrites"@, counters.space_writes),
            ("ordersDropped"@, counters.orders_dropped),
            ("unsent"@, counters.unsent),
        ];
        assert forall|i: int| 0 <= i < want.len() implies (#[trigger] m@[i]).0@ == want[i].0
            && m@[i].1 == Json::UInt(want[i].1) by {}
    }
    Json::Object(m)
}

/// The local focus route counters as the summary carries them.
pub fn local_focus_route_counters_json(counters: &LocalFocusRouteCounters) -> (json: Json)
    ensures
        number_object(
            json,
            seq![
                ("focuses"@, counters.focuses),
                ("browserRows"@, counters.browser_rows),
                ("modalsClosed"@, counters.modals_closed),
                ("declinedSource"@, counters.declined_source),
            ],
        ),
{
    let m = vec![
        number_member("focuses", counters.focuses),
        number_member("browserRows", counters.browser_rows),
        number_member("modalsClosed", counters.modals_closed),
        number_member("declinedSource", counters.declined_source),
    ];
    proof {
        let want = seq![
            ("focuses"@, counters.focuses),
            ("browserRows"@, counters.browser_rows),
            ("modalsClosed"@, counters.modals_closed),
            ("declinedSource"@, counters.declined_source),
        ];
        assert forall|i: int| 0 <= i < want.len() implies (#[trigger] m@[i]).0@ == want[i].0
            && m@[i].1 == Json::UInt(want[i].1) by {}
    }
    Json::Object(m)
}

/// The remote focus counters as the summary carries them.
pub fn remote_focus_counters_json(counters: &SidebarRemoteFocusCounters) -> (json: Json)
    ensures
        number_object(
            json,
            seq![
                ("opens"@, counters.opens),
                ("splits"@, counters.splits),
                ("keepView"@, counters.keep_view),
                ("chatInterface"@, counters.chat_interface),
                ("duplicatesDropped"@, counters.duplicates_dropped),
                ("declinedSource"@, counters.declined_source),
                ("handedBack"@, counters.handed_back),
            ],
        ),
{
    let m = vec![
        number_member("opens", counters.opens),
        number_member("splits", counters.splits),
        number_member("keepView", counters.keep_view),
        number_member("chatInterface", counters.chat_interface),
        number_member("duplicatesDropped", counters.duplicates_dropped),
        number_member("declinedSource", counters.declined_source),
        number_member("handedBack", counters.handed_back),
    ];
    proof {
        let want = seq![
            ("opens"@, counters.opens),
            ("splits"@, counters.splits),
            ("keepView"@, counters.keep_view),
            ("chatInterface"@, counters.chat_interface),
            ("duplicatesDropped"@, counters.duplicates_dropped),
            ("declinedSource"@, counters.declined_source),
            ("handedBack"@, counters.handed_back),
        ];
        assert forall|i: int| 0 <= i < want.len() implies (#[trigger] m@[i]).0@ == want[i].0
            && m@[i].1 == Json::UInt(want[i].1) by {}
    }
    Json::Object(m)
}

} // verus!
