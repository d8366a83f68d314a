//! Who a retained chat is, and the two strings everything else is keyed by.
//!
//! The two keys are for two different tables and are not interchangeable: the RETENTION key is the
//! JSON array `[machineId, projectId, sessionId]` the retained chats are keyed by, and the STORAGE
//! session key is `<projectId>:<sessionId>`, prefixed `remote-<machineId>:` off this computer,
//! which every per-session storage record's suffix is built from.

use vstd::prelude::*;

use crate::chat_storage::opt_str;
use crate::json_text::{json_array_text, json_string_text};

verus! {

broadcast use vstd::string::group_string_axioms;

/// One retained chat.
#[derive(Clone, Debug, PartialEq, Eq)]
pub struct ChatIdentity {
    /// `None` on this computer, the remote machine's settings id otherwise.
    pub machine_id: Option<String>,
    pub project_id: String,
    pub session_id: String,
}

/// The compact JSON text of the array `[machine, project, session]`, the machine being `null`
/// when absent.
pub open spec fn identity_json_text(
    machine: Option<Seq<char>>,
    project: Seq<char>,
    session: Seq<char>,
) -> Seq<char> {
    json_array_text(
        seq![
            match machine {
                Some(m) => json_string_text(m),
                None => "null"@,
            },
            json_string_text(project),
            json_string_text(session),
        ],
    )
}

/// Serializes `[machine, project, session]` with `serde_json`'s `Value` and its `Display`, which
/// writes compact JSON: the contract states the exact text (see [`crate::json_text`]).
#[verifier::external_body]
fn identity_json(machine: Option<&str>, project: &str, session: &str) -> (text: String)
    ensures
        text@ == identity_json_text(opt_str(machine), project@, session@),
{
    let machine = match machine {
        Some(id) => serde_json::Value::String(id.to_string()),
        None => serde_json::Value::Null,
    };
    serde_json::Value::Array(
        vec![
            machine,
            serde_json::Value::String(project.to_string()),
            serde_json::Value::String(session.to_string()),
        ],
    ).to_string()
}

/// The storage session key: `<projectId>:<sessionId>`, prefixed `remote-<machineId>:` off this
/// computer.
pub open spec fn storage_session_key_of(identity: ChatIdentity) -> Seq<char> {
    match identity.machine_id {
        Some(id) => "remote-"@ + id@ + ":"@ + identity.project_id@ + ":"@ + identity.session_id@,
        None => identity.project_id@ + ":"@ + identity.session_id@,
    }
}

/// The machine id a config names: absent and empty both mean this computer.
pub open spec fn machine_of(machine_id: Option<Seq<char>>) -> Option<Seq<char>> {
    match machine_id {
        Some(id) => if id.len() > 0 {
            Some(id)
        } else {
            None
        },
        None => None,
    }
}

impl ChatIdentity {
    /// The identity the view's config names: its `machineId` (an empty one is this computer),
    /// `projectId` and `sessionId`, a missing one of the last two being empty.
    pub fn from_config(machine_id: Option<&str>, project_id: Option<&str>, session_id: Option<&str>) -> (
        identity: Self)
        ensures
            opt_str_of_string(identity.machine_id) == machine_of(opt_str(machine_id)),
            identity.project_id@ == match project_id {
                Some(p) => p@,
                None => Seq::<char>::empty(),
            },
            identity.session_id@ == match session_id {
                Some(s) => s@,
                None => Seq::<char>::empty(),
            },
    {
        let machine = match machine_id {
            Some(id) => if id.unicode_len() > 0 {
                Some(String::from_str(id))
            } else {
                None
            },
            None => None,
        };
        let project = match project_id {
            Some(p) => String::from_str(p),
            None => String::new(),
        };
        let session = match session_id {
            Some(s) => String::from_str(s),
            None => String::new(),
        };
        ChatIdentity { machine_id: machine, project_id: project, session_id: session }
    }

    /// `JSON.stringify([machineId, projectId, sessionId])`, the retention key; the local machine
    /// writes `null` for its id.
    pub fn retention_key(&self) -> (key: String)
        ensures
            key@ == identity_json_text(
                opt_str_of_string(self.machine_id),
                self.project_id@,
                self.session_id@,
            ),
    {
        let machine: Option<&str> = match &self.machine_id {
            Some(id) => Some(id.as_str()),
            None => None,
        };
        identity_json(machine, self.project_id.as_str(), self.session_id.as_str())
    }

    /// `<projectId>:<sessionId>`, prefixed `remote-<machineId>:` off this computer.
    pub fn storage_session_key(&self) -> (key: String)
        ensures
            key@ == storage_session_key_of(*self),
    {
        let mut key = match &self.machine_id {
            Some(id) => {
                let mut key = String::from_str("remote-");
                key.append(id.as_str());
                key.append(":");
                key
            },
            None => String::new(),
        };
        key.append(self.project_id.as_str());
        key.append(":");
        key.append(self.session_id.as_str());
        key
    }
}

/// The view of an optional owned string.
pub open spec fn opt_str_of_string(s: Option<String>) -> Option<Seq<char>> {
    match s {
        Some(t) => Some(t@),
        None => None,
    }
}

} // verus!
