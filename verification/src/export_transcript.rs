//! The Handoff / Export dialog's traffic with the sidebar runtime: which request opens it, what
//! each of its commands posts, which agents can take the handoff, and what a result says.

use vstd::prelude::*;

use crate::effects::Json;
use crate::json_fields::{as_text, as_true, get, get_of, is_true, member_of, text_of};
use crate::text::{trim_text, trimmed};

verus! {

broadcast use vstd::string::group_string_axioms;

/// The longest request id the dialog takes, in characters.
pub const MAX_EXPORT_REQUEST_ID_CHARS: usize = 128;

/// The file under the app's state directory that holds the export modal's saved preferences.
pub const EXPORT_TRANSCRIPT_MODAL_PREFS_FILE: &'static str = "gpui-export-transcript-modal.json";

/// The text member `key` of a value, trimmed, where that leaves something.
pub open spec fn trimmed_text_of(value: Json, key: Seq<char>) -> Option<Seq<char>> {
    match text_of(get_of(value, key)) {
        Some(t) => if trimmed(t).len() > 0 {
            Some(trimmed(t))
        } else {
            None
        },
        None => None,
    }
}

/// The text of an optional string.
pub open spec fn opt_chars(s: Option<String>) -> Option<Seq<char>> {
    match s {
        Some(t) => Some(t@),
        None => None,
    }
}

/// The text member `key` of a value, trimmed, where that leaves something.
pub fn trimmed_text(value: &Json, key: &str) -> (found: Option<String>)
    ensures
        opt_chars(found) == trimmed_text_of(*value, key@),
{
    match as_text(get(value, key)) {
        Some(t) => {
            let cut = trim_text(t);
            if cut.as_str().unicode_len() > 0 {
                Some(cut)
            } else {
                None
            }
        },
        None => None,
    }
}

/// What an `open` message of the export modal asks: its request id, trimmed, nonempty and at
/// most [`MAX_EXPORT_REQUEST_ID_CHARS`] characters (else the message opens nothing), and the agent
/// the dialog selects first.
pub struct ExportRequest {
    pub request_id: String,
    pub default_agent_id: Option<String>,
}

/// Reads an `open` message of the export modal.
pub fn export_request(message: &Json) -> (request: Option<ExportRequest>)
    ensures
        match request {
            Some(r) => trimmed_text_of(*message, "requestId"@) == Some(r.request_id@)
                && r.request_id@.len() <= MAX_EXPORT_REQUEST_ID_CHARS && opt_chars(
                r.default_agent_id,
            ) == trimmed_text_of(*message, "agentId"@),
            None => match trimmed_text_of(*message, "requestId"@) {
                Some(id) => id.len() > MAX_EXPORT_REQUEST_ID_CHARS,
                None => true,
            },
        },
{
    let request_id = match trimmed_text(message, "requestId") {
        Some(id) => id,
        None => return None,
    };
    if request_id.as_str().unicode_len() > MAX_EXPORT_REQUEST_ID_CHARS {
        return None;
    }
    Some(ExportRequest { request_id, default_agent_id: trimmed_text(message, "agentId") })
}

/// One agent that can take the handoff.
pub struct ExportAgent {
    pub agent_id: String,
    pub name: String,
}

/// The agent a HUD button offers for the handoff: one with a launch command, an id and a name,
/// each trimmed and nonempty.
pub open spec fn export_agent_of(button: Json) -> Option<(Seq<char>, Seq<char>)> {
    match (
        trimmed_text_of(button, "command"@),
        trimmed_text_of(button, "agentId"@),
        trimmed_text_of(button, "name"@),
    ) {
        (Some(_), Some(id), Some(name)) => Some((id, name)),
        _ => None,
    }
}

/// The agents the buttons offer, in order.
pub open spec fn export_agents_of(buttons: Seq<Json>) -> Seq<(Seq<char>, Seq<char>)>
    decreases buttons.len(),
{
    if buttons.len() == 0 {
        Seq::empty()
    } else {
        let rest = export_agents_of(buttons.drop_last());
        match export_agent_of(buttons.last()) {
            Some(a) => rest.push(a),
            None => rest,
        }
    }
}

/// The view of a list of agents.
pub open spec fn agents_view(a: Seq<ExportAgent>) -> Seq<(Seq<char>, Seq<char>)> {
    a.map_values(|x: ExportAgent| (x.agent_id@, x.name@))
}

/// The agents that can take the handoff: the HUD buttons with a launch command.
pub fn export_prompt_agents(buttons: &Vec<Json>) -> (agents: Vec<ExportAgent>)
    ensures
        agents_view(agents@) == export_agents_of(buttons@),
{
    let mut agents: Vec<ExportAgent> = Vec::new();
    let mut i: usize = 0;
    proof {
        assert(agents_view(agents@) =~= export_agents_of(buttons@.take(0)));
    }
    while i < buttons.len()
        invariant
            0 <= i <= buttons@.len(),
            agents_view(agents@) == export_agents_of(buttons@.take(i as int)),
        decreases buttons@.len() - i,
    {
        proof {
            assert(buttons@.take(i + 1).drop_last() =~= buttons@.take(i as int));
            assert(buttons@.take(i + 1).last() == buttons@[i as int]);
        }
        let button = &buttons[i];
        let ghost before = agents@;
        if trimmed_text(button, "command").is_some() {
            match (trimmed_text(button, "agentId"), trimmed_text(button, "name")) {
                (Some(agent_id), Some(name)) => {
                    let ghost seen = (agent_id@, name@);
                    agents.push(ExportAgent { agent_id, name });
                    proof {
                        assert(agents_view(agents@) =~= agents_view(before).push(seen));
                    }
                },
                _ => {},
            }
        }
        i = i + 1;
    }
    proof {
        assert(buttons@.take(buttons@.len() as int) =~= buttons@);
    }
    agents
}

/// A command of the dialog.
pub enum ExportCommand {
    /// Export, with what the transcript includes.
    RunExport { commands: bool, patches: bool, reasoning: bool },
    /// Start a conversation with the exported transcript, with this agent.
    StartConversation { agent_id: String },
    Cancel,
    /// Show the exported file.
    Reveal,
}

/// What a command of the dialog does: the bridge command it posts to the sidebar runtime and the
/// message it carries, whether the dialog's window is let go, and whether the exported file is
/// shown.
pub struct ExportStep {
    pub bridge: Option<(&'static str, Vec<(String, Json)>)>,
    pub release_window: bool,
    pub reveal: bool,
}

/// Whether a message's members hold the request id and, by key, these flags.
pub open spec fn holds_flags(m: Seq<(String, Json)>, request_id: Seq<char>, flags: Seq<(Seq<char>, bool)>) -> bool {
    &&& m.len() == flags.len() + 1
    &&& m[0].0@ == "requestId"@
    &&& m[0].1 matches Json::Text(t) && t@ == request_id
    &&& forall|i: int|
        0 <= i < flags.len() ==> (#[trigger] m[i + 1]).0@ == flags[i].0 && m[i + 1].1 == Json::Bool(
            flags[i].1,
        )
}

/// What a command of the dialog does. Each message carries the request id; an export carries its
/// three include flags and is answered by the runtime; a conversation carries its agent; the
/// conversation, the cancel and the reveal let the window go.
pub fn export_command_step(request_id: &str, command: ExportCommand) -> (step: ExportStep)
    ensures
        match command {
            ExportCommand::RunExport { commands, patches, reasoning } => step.bridge matches Some(
                (name, m),
            ) && name@ == "runExportSessionTranscript"@ && holds_flags(
                m@,
                request_id@,
                seq![
                    ("includeCommands"@, commands),
                    ("includePatches"@, patches),
                    ("includeReasoning"@, reasoning),
                ],
            ) && !step.release_window && !step.reveal,
            ExportCommand::StartConversation { agent_id } => step.bridge matches Some((name, m))
                && name@ == "startExportedTranscriptConversation"@ && holds_flags(
                m@.take(1),
                request_id@,
                seq![],
            ) && m@.len() == 2 && m@[1].0@ == "agentId"@ && (m@[1].1 matches Json::Text(a) && a@
                == agent_id@) && step.release_window && !step.reveal,
            ExportCommand::Cancel => step.bridge matches Some((name, m)) && name@
                == "cancelExportSessionTranscript"@ && holds_flags(m@, request_id@, seq![])
                && step.release_window && !step.reveal,
            ExportCommand::Reveal => step.bridge is None && step.release_window && step.reveal,
        },
{
    let id_member = (String::from_str("requestId"), Json::Text(String::from_str(request_id)));
    match command {
        ExportCommand::RunExport { commands, patches, reasoning } => {
            let m = vec![
                id_member,
                (String::from_str("includeCommands"), Json::Bool(commands)),
                (String::from_str("includePatches"), Json::Bool(patches)),
                (String::from_str("includeReasoning"), Json::Bool(reasoning)),
            ];
            proof {
                let flags = seq![
                    ("includeCommands"@, commands),
                    ("includePatches"@, patches),
                    ("includeReasoning"@, reasoning),
                ];
                assert forall|i: int| 0 <= i < flags.len() implies (#[trigger] m@[i + 1]).0@
                    == flags[i].0 && m@[i + 1].1 == Json::Bool(flags[i].1) by {}
            }
            ExportStep {
                bridge: Some(("runExportSessionTranscript", m)),
                release_window: false,
                reveal: false,
            }
        },
        ExportCommand::StartConversation { agent_id } => {
            let m = vec![id_member, (String::from_str("agentId"), Json::Text(agent_id))];
            proof {
                assert(m@.take(1).len() == 1);
                assert(m@.take(1)[0] == m@[0]);
            }
            ExportStep {
                bridge: Some(("startExportedTranscriptConversation", m)),
                release_window: true,
                reveal: false,
            }
        },
        ExportCommand::Cancel => {
            let m = vec![id_member];
            ExportStep {
                bridge: Some(("cancelExportSessionTranscript", m)),
                release_window: true,
                reveal: false,
            }
        },
        ExportCommand::Reveal => ExportStep { bridge: None, release_window: true, reveal: true },
    }
}

/// The answer an export gets when the sidebar runtime cannot take it: a failed
/// `exportSessionTranscriptResult` for the request.
pub fn export_unavailable_result(request_id: &str) -> (result: Json)
    ensures
        result matches Json::Object(m) && text_of(member_of(m@, "error"@)) == Some(
            "The sidebar runtime is not available."@,
        ) && member_of(m@, "ok"@) == Some(Json::Bool(false)) && text_of(member_of(m@, "requestId"@))
            == Some(request_id@) && text_of(member_of(m@, "type"@)) == Some(
            "exportSessionTranscriptResult"@,
        ),
{
    let m = vec![
        (String::from_str("error"), Json::Text(String::from_str("The sidebar runtime is not available."))),
        (String::from_str("ok"), Json::Bool(false)),
        (String::from_str("requestId"), Json::Text(String::from_str(request_id))),
        (String::from_str("type"), Json::Text(String::from_str("exportSessionTranscriptResult"))),
    ];
    proof {
        reveal_strlit("error");
        reveal_strlit("ok");
        reveal_strlit("requestId");
        reveal_strlit("type");
        let s0 = m@;
        let s1 = s0.drop_first();
        let s2 = s1.drop_first();
        let s3 = s2.drop_first();
        assert(s1[0] == s0[1]);
        assert(s2[0] == s0[2]);
        assert(s3[0] == s0[3]);
        assert(member_of(s0, "error"@) == Some(s0[0].1));
        assert("ok"@.len() == 2);
        assert("error"@.len() == 5);
        assert("requestId"@.len() == 9);
        assert("ok"@ != "error"@);
        assert(member_of(s1, "ok"@) == Some(s0[1].1));
        assert(member_of(s0, "ok"@) == Some(s0[1].1));
        assert("requestId"@ != "error"@);
        assert("requestId"@ != "ok"@);
        assert(member_of(s2, "requestId"@) == Some(s0[2].1));
        assert(member_of(s1, "requestId"@) == Some(s0[2].1));
        assert(member_of(s0, "requestId"@) == Some(s0[2].1));
        assert("type"@ != "error"@);
        assert("type"@ != "ok"@);
        assert("type"@ != "requestId"@);
        assert(member_of(s3, "type"@) == Some(s0[3].1));
        assert(member_of(s2, "type"@) == Some(s0[3].1));
        assert(member_of(s1, "type"@) == Some(s0[3].1));
        assert(member_of(s0, "type"@) == Some(s0[3].1));
    }
    Json::Object(m)
}

/// What an export result says.
pub struct ExportResult {
    pub ok: bool,
    pub can_reveal: bool,
    pub path: Option<String>,
    pub agent_id: Option<String>,
    pub error: Option<String>,
}

/// Reads an export result: `ok` and `canReveal` only where they are `true`, and the path, the agent
/// and the error each trimmed, where that leaves something.
pub fn export_result(result: &Json) -> (read: ExportResult)
    ensures
        read.ok == is_true(get_of(*result, "ok"@)),
        read.can_reveal == is_true(get_of(*result, "canReveal"@)),
        opt_chars(read.path) == trimmed_text_of(*result, "path"@),
        opt_chars(read.agent_id) == trimmed_text_of(*result, "agentId"@),
        opt_chars(read.error) == trimmed_text_of(*result, "error"@),
{
    ExportResult {
        ok: as_true(get(result, "ok")),
        can_reveal: as_true(get(result, "canReveal")),
        path: trimmed_text(result, "path"),
        agent_id: trimmed_text(result, "agentId"),
        error: trimmed_text(result, "error"),
    }
}

} // verus!
