//! Where the Send button of the Docs review puts the annotations: the chat or the terminal of the
//! session last clicked in the sidebar for the active project, and the clipboard whenever that
//! cannot be done.

use vstd::prelude::*;

use crate::effects::Json;
use crate::json_fields::{as_text, get_in, get_of, opt_deref, owned, text_of};
use crate::local_focus::SessionRef;
use crate::text::{chars_of, decimal_of, decimal_text, same_text};

verus! {

broadcast use vstd::string::group_string_axioms;

/// Which input of the target session the annotations go to.
#[derive(Clone, Copy, Debug, PartialEq, Eq)]
pub enum DocsAnnotationFeedbackSurface {
    Chat,
    Terminal,
}

impl DocsAnnotationFeedbackSurface {
    /// The surface's name on the wire.
    pub fn as_str(self) -> (name: &'static str)
        ensures
            name@ == match self {
                DocsAnnotationFeedbackSurface::Chat => "chat"@,
                DocsAnnotationFeedbackSurface::Terminal => "terminal"@,
            },
    {
        match self {
            DocsAnnotationFeedbackSurface::Chat => "chat",
            DocsAnnotationFeedbackSurface::Terminal => "terminal",
        }
    }
}

/// A surface's name on the wire.
pub open spec fn surface_name(s: DocsAnnotationFeedbackSurface) -> Seq<char> {
    match s {
        DocsAnnotationFeedbackSurface::Chat => "chat"@,
        DocsAnnotationFeedbackSurface::Terminal => "terminal"@,
    }
}

/// What `char::to_uppercase` yields for `c`.
pub uninterp spec fn uppercase_of(c: char) -> Seq<char>;

/// `c.to_uppercase()`, collected.
#[verifier::external_body]
fn to_uppercase(c: char) -> (upper: String)
    ensures
        upper@ == uppercase_of(c),
{
    c.to_uppercase().collect()
}

/// One of the default sidebar agents: its icon and its name.
#[derive(Clone, Debug, PartialEq, Eq)]
pub struct SidebarAgent {
    pub icon: String,
    pub name: String,
}

/// The label an agent goes by: the name of the first default agent with this icon, else the icon
/// with its first character in capitals.
pub open spec fn agent_label_of(agents: Seq<SidebarAgent>, icon: Seq<char>) -> Seq<char>
    decreases agents.len(),
{
    if agents.len() == 0 {
        if icon.len() == 0 {
            icon
        } else {
            uppercase_of(icon[0]) + icon.drop_first()
        }
    } else if agents[0].icon@ == icon {
        agents[0].name@
    } else {
        agent_label_of(agents.drop_first(), icon)
    }
}

/// The label an agent goes by in the target's description.
pub fn docs_annotation_feedback_agent_label(agents: &Vec<SidebarAgent>, agent_icon: &str) -> (label:
    String)
    ensures
        label@ == agent_label_of(agents@, agent_icon@),
{
    let mut i: usize = 0;
    proof {
        assert(agents@.skip(0) =~= agents@);
    }
    while i < agents.len()
        invariant
            0 <= i <= agents@.len(),
            agent_label_of(agents@, agent_icon@) == agent_label_of(agents@.skip(i as int), agent_icon@),
        decreases agents@.len() - i,
    {
        proof {
            assert(agents@.skip(i as int).drop_first() =~= agents@.skip(i as int + 1));
            assert(agents@.skip(i as int)[0] == agents@[i as int]);
        }
        if same_text(agents[i].icon.as_str(), agent_icon) {
            return agents[i].name.clone();
        }
        i = i + 1;
    }
    proof {
        assert(agents@.skip(i as int).len() == 0);
    }
    let chars = chars_of(agent_icon);
    if chars.len() == 0 {
        return String::from_str(agent_icon);
    }
    let mut label = to_uppercase(chars[0]);
    label.append(agent_icon.substring_char(1, chars.len()));
    proof {
        assert(agent_icon@.subrange(1, agent_icon@.len() as int) =~= agent_icon@.drop_first());
    }
    label
}

/// The session the annotations would go to.
#[derive(Clone, Debug, PartialEq, Eq)]
pub struct DocsAnnotationFeedbackTarget {
    /// The terminal session the clicked workspace key maps to.
    pub shell_session_id: u64,
    pub agent_label: String,
    pub session_title: String,
    pub surface: DocsAnnotationFeedbackSurface,
}

/// The agent session a workspace key maps to, as far as the target reads it.
#[derive(Clone, Debug, PartialEq, Eq)]
pub struct AgentSession {
    pub running: bool,
    pub agent_icon: Option<String>,
    pub title: String,
    /// Whether the session shows its chat rather than its terminal.
    pub chat_mode: bool,
}

/// The target: the session last clicked in the sidebar (`latest`; `mapped`, the terminal session
/// it maps to; and `session`, that terminal session) when it belongs to the active project, runs,
/// and has an agent.
pub open spec fn target_exists(
    active_project_id: Option<Seq<char>>,
    latest: Option<SessionRef>,
    mapped: Option<u64>,
    session: Option<AgentSession>,
) -> bool {
    &&& active_project_id is Some
    &&& latest is Some
    &&& latest->0.project_id@ == active_project_id->0
    &&& mapped is Some
    &&& session is Some
    &&& session->0.running
    &&& session->0.agent_icon is Some
}

impl DocsAnnotationFeedbackTarget {
    /// The session the user last clicked in the sidebar for the active project, when it is a
    /// running agent session; nothing else is considered. `mapped` is the terminal session the
    /// clicked key maps to and `session` what that terminal session is.
    pub fn for_session(
        agents: &Vec<SidebarAgent>,
        active_project_id: Option<&str>,
        latest: Option<&SessionRef>,
        mapped: Option<u64>,
        session: Option<&AgentSession>,
    ) -> (target: Option<DocsAnnotationFeedbackTarget>)
        ensures
            target is Some <==> target_exists(
                crate::chat_storage::opt_str(active_project_id),
                match latest {
                    Some(l) => Some(*l),
                    None => None,
                },
                mapped,
                match session {
                    Some(s) => Some(*s),
                    None => None,
                },
            ),
            target matches Some(t) ==> t.shell_session_id == mapped->0 && t.agent_label@ == agent_label_of(
                agents@,
                session->0.agent_icon->0@,
            ) && t.session_title@ == session->0.title@ && t.surface == if session->0.chat_mode {
                DocsAnnotationFeedbackSurface::Chat
            } else {
                DocsAnnotationFeedbackSurface::Terminal
            },
    {
        let active = active_project_id?;
        let key = latest?;
        if !same_text(key.project_id.as_str(), active) {
            return None;
        }
        let shell_session_id = mapped?;
        let session = session?;
        if !session.running {
            return None;
        }
        let icon = match &session.agent_icon {
            Some(icon) => icon,
            None => return None,
        };
        let surface = if session.chat_mode {
            DocsAnnotationFeedbackSurface::Chat
        } else {
            DocsAnnotationFeedbackSurface::Terminal
        };
        Some(
            DocsAnnotationFeedbackTarget {
                shell_session_id,
                agent_label: docs_annotation_feedback_agent_label(agents, icon.as_str()),
                session_title: session.title.clone(),
                surface,
            },
        )
    }
}

/// What the terminal path does once gxserver has said whether the agent's input box is ready.
#[derive(Clone, Copy, Debug, PartialEq, Eq)]
pub enum TerminalDelivery {
    /// Paste into the terminal; a paste that fails is answered as [`TerminalDelivery::Unknown`].
    Insert,
    /// The input box is not available: copy to the clipboard and say so.
    NotReady,
    /// Whether the box is ready cannot be told: copy to the clipboard and say so.
    Unknown,
}

/// Decides the terminal path: paste only when the verdict is `ready` and the target is still the
/// same terminal session (`still_same_terminal`); `notReady` copies with its own reason; anything
/// else copies as unknown.
pub fn docs_annotation_feedback_terminal_delivery(still_same_terminal: bool, verdict: Option<&str>) -> (
    delivery: TerminalDelivery)
    ensures
        delivery == if still_same_terminal && (verdict matches Some(v) && v@ == "ready"@) {
            TerminalDelivery::Insert
        } else if (verdict matches Some(v) && v@ == "notReady"@) {
            TerminalDelivery::NotReady
        } else {
            TerminalDelivery::Unknown
        },
{
    match verdict {
        Some(v) => {
            if still_same_terminal && same_text(v, "ready") {
                TerminalDelivery::Insert
            } else if same_text(v, "notReady") {
                proof {
                    reveal_strlit("ready");
                    reveal_strlit("notReady");
                }
                TerminalDelivery::NotReady
            } else {
                TerminalDelivery::Unknown
            }
        },
        None => TerminalDelivery::Unknown,
    }
}

/// Where the input-box verdict is asked.
#[derive(Clone, Debug, PartialEq, Eq)]
pub enum WorkspaceSessionKey {
    Local { project_id: String, session_id: String },
    Remote { remote_machine_id: String, project_id: String, session_id: String },
}

/// The gxserver identity of the target session: this computer's, or a remote machine's.
#[derive(Clone, Debug, PartialEq, Eq)]
pub enum DocsAnnotationFeedbackRpcTarget {
    Local { project_id: String, session_id: String },
    Remote { machine_id: String, project_id: String, session_id: String },
}

/// The identity [`rpc_target_of`] gives.
pub open spec fn rpc_target_for(
    key: WorkspaceSessionKey,
    remote_reference: Option<(String, String)>,
    machine_has_target: bool,
) -> Option<DocsAnnotationFeedbackRpcTarget> {
    match key {
        WorkspaceSessionKey::Local { project_id, session_id } => match remote_reference {
            Some((m, p)) => if machine_has_target {
                Some(DocsAnnotationFeedbackRpcTarget::Remote { machine_id: m, project_id: p, session_id })
            } else {
                None
            },
            None => Some(DocsAnnotationFeedbackRpcTarget::Local { project_id, session_id }),
        },
        WorkspaceSessionKey::Remote { remote_machine_id, project_id, session_id } => if machine_has_target {
            Some(
                DocsAnnotationFeedbackRpcTarget::Remote {
                    machine_id: remote_machine_id,
                    project_id,
                    session_id,
                },
            )
        } else {
            None
        },
    }
}

/// The gxserver identity of a workspace session. A local key whose project id names a remote
/// project (`remote_reference`, the machine and the project it parses to) is asked on that
/// machine; a remote key on its own machine; any other local key here. A session asked on a
/// machine that has no request target (`machine_has_target`, read only for the machine that
/// would be asked) has no identity.
pub fn rpc_target_of(
    key: &WorkspaceSessionKey,
    remote_reference: Option<(String, String)>,
    machine_has_target: bool,
) -> (target: Option<DocsAnnotationFeedbackRpcTarget>)
    ensures
        target == rpc_target_for(*key, remote_reference, machine_has_target),
{
    match key {
        WorkspaceSessionKey::Local { project_id, session_id } => match remote_reference {
            Some((machine_id, project)) => if machine_has_target {
                Some(
                    DocsAnnotationFeedbackRpcTarget::Remote {
                        machine_id,
                        project_id: project,
                        session_id: session_id.clone(),
                    },
                )
            } else {
                None
            },
            None => Some(
                DocsAnnotationFeedbackRpcTarget::Local {
                    project_id: project_id.clone(),
                    session_id: session_id.clone(),
                },
            ),
        },
        WorkspaceSessionKey::Remote { remote_machine_id, project_id, session_id } => {
            if machine_has_target {
                Some(
                    DocsAnnotationFeedbackRpcTarget::Remote {
                        machine_id: remote_machine_id.clone(),
                        project_id: project_id.clone(),
                        session_id: session_id.clone(),
                    },
                )
            } else {
                None
            }
        },
    }
}

/// What the Send button does first.
#[derive(Clone, Copy, Debug, PartialEq, Eq)]
pub enum FeedbackStep {
    /// Nothing to send: answered with this error message; nothing is copied, shown or inserted.
    Nothing(&'static str),
    /// Copied to the clipboard, with this reason shown, and answered `clipboard`.
    Clipboard(&'static str),
    /// Inserted into the target's chat.
    Chat,
    /// gxserver is asked whether the agent's input box is ready.
    AskTerminal,
}

/// The first step of a send: nothing to send when the annotations are only white space; the
/// clipboard when there is no target (`surface` is the target's, `None` without one) or its
/// machine cannot be reached (`machine_reachable`, read for a terminal target only); else the
/// chat or the terminal's question.
pub fn docs_annotation_feedback_step(
    content: &str,
    surface: Option<DocsAnnotationFeedbackSurface>,
    machine_reachable: bool,
) -> (step: FeedbackStep)
    ensures
        step == if crate::text::trimmed(content@).len() == 0 {
            FeedbackStep::Nothing("There is nothing to send.")
        } else {
            match surface {
                None => FeedbackStep::Clipboard(
                    "No running agent session is selected in the sidebar.",
                ),
                Some(DocsAnnotationFeedbackSurface::Chat) => FeedbackStep::Chat,
                Some(DocsAnnotationFeedbackSurface::Terminal) => if machine_reachable {
                    FeedbackStep::AskTerminal
                } else {
                    FeedbackStep::Clipboard("The selected session's machine cannot be reached.")
                },
            }
        },
{
    let trimmed = crate::text::trim_text(content);
    if trimmed.as_str().unicode_len() == 0 {
        return FeedbackStep::Nothing("There is nothing to send.");
    }
    match surface {
        None => FeedbackStep::Clipboard("No running agent session is selected in the sidebar."),
        Some(DocsAnnotationFeedbackSurface::Chat) => FeedbackStep::Chat,
        Some(DocsAnnotationFeedbackSurface::Terminal) => if machine_reachable {
            FeedbackStep::AskTerminal
        } else {
            FeedbackStep::Clipboard("The selected session's machine cannot be reached.")
        },
    }
}

/// How the chat path ended: `chat` when the annotations went in, else `clipboard` with the reason
/// shown.
pub fn docs_annotation_feedback_chat_outcome(inserted: bool) -> (outcome: (&'static str, Option<
    &'static str,
>))
    ensures
        outcome == if inserted {
            ("chat", None::<&'static str>)
        } else {
            ("clipboard", Some("The chat for that session is not available right now."))
        },
{
    if inserted {
        ("chat", None)
    } else {
        ("clipboard", Some("The chat for that session is not available right now."))
    }
}

/// How the terminal path ended, once the paste was tried where `delivery` allowed it
/// (`inserted`): `terminal`, or `clipboard` with the reason shown. A paste that did not go in
/// reads as a box whose readiness cannot be told.
pub fn docs_annotation_feedback_terminal_outcome(delivery: TerminalDelivery, inserted: bool) -> (
    outcome: (&'static str, Option<&'static str>))
    ensures
        outcome == match delivery {
            TerminalDelivery::Insert => if inserted {
                ("terminal", None::<&'static str>)
            } else {
                ("clipboard", Some("Ghostex cannot tell whether this agent's input box is ready."))
            },
            TerminalDelivery::NotReady => (
                "clipboard",
                Some("The agent's input box is not available right now."),
            ),
            TerminalDelivery::Unknown => (
                "clipboard",
                Some("Ghostex cannot tell whether this agent's input box is ready."),
            ),
        },
{
    match delivery {
        TerminalDelivery::Insert => if inserted {
            ("terminal", None)
        } else {
            ("clipboard", Some("Ghostex cannot tell whether this agent's input box is ready."))
        },
        TerminalDelivery::NotReady => (
            "clipboard",
            Some("The agent's input box is not available right now."),
        ),
        TerminalDelivery::Unknown => (
            "clipboard",
            Some("Ghostex cannot tell whether this agent's input box is ready."),
        ),
    }
}

/// Whether a JSON value is the text `t`.
pub open spec fn is_text(j: Json, t: Seq<char>) -> bool {
    j matches Json::Text(s) && s@ == t
}

/// Whether a JSON value is an object of exactly these text members, in this order.
pub open spec fn text_object(j: Json, members: Seq<(Seq<char>, Seq<char>)>) -> bool {
    j matches Json::Object(m) && m@.len() == members.len() && forall|i: int|
        0 <= i < members.len() ==> (#[trigger] m@[i]).0@ == members[i].0 && is_text(
            m@[i].1,
            members[i].1,
        )
}

/// A text member.
fn text_member(key: &str, value: &str) -> (member: (String, Json))
    ensures
        member.0@ == key@,
        is_text(member.1, value@),
{
    (String::from_str(key), Json::Text(String::from_str(value)))
}

/// `{action, annotationDelivery, requestId}`: where the annotations went.
pub fn docs_annotation_feedback_delivery_response(action: &str, request_id: &str, delivery: &str) -> (
    response: Json)
    ensures
        text_object(
            response,
            seq![("action"@, action@), ("annotationDelivery"@, delivery@), ("requestId"@, request_id@)],
        ),
{
    let members = vec![
        text_member("action", action),
        text_member("annotationDelivery", delivery),
        text_member("requestId", request_id),
    ];
    let response = Json::Object(members);
    proof {
        let want = seq![("action"@, action@), ("annotationDelivery"@, delivery@), ("requestId"@, request_id@)];
        assert forall|i: int| 0 <= i < want.len() implies (#[trigger] members@[i]).0@ == want[i].0
            && is_text(members@[i].1, want[i].1) by {}
    }
    response
}

/// `{action, annotationTarget, requestId}`: where Send would put the annotations, the target as
/// `{agentLabel, sessionTitle, surface}`, or `null` without one.
pub fn docs_annotation_send_target_response(
    action: &str,
    request_id: &str,
    target: Option<&DocsAnnotationFeedbackTarget>,
) -> (response: Json)
    ensures
        response matches Json::Object(m) && m@.len() == 3 && m@[0].0@ == "action"@ && is_text(
            m@[0].1,
            action@,
        ) && m@[1].0@ == "annotationTarget"@ && m@[2].0@ == "requestId"@ && is_text(
            m@[2].1,
            request_id@,
        ) && match target {
            None => m@[1].1 is Null,
            Some(t) => text_object(
                m@[1].1,
                seq![
                    ("agentLabel"@, t.agent_label@),
                    ("sessionTitle"@, t.session_title@),
                    ("surface"@, surface_name(t.surface)),
                ],
            ),
        },
{
    let described = match target {
        Some(t) => {
            let members = vec![
                text_member("agentLabel", t.agent_label.as_str()),
                text_member("sessionTitle", t.session_title.as_str()),
                text_member("surface", t.surface.as_str()),
            ];
            proof {
                let want = seq![
                    ("agentLabel"@, t.agent_label@),
                    ("sessionTitle"@, t.session_title@),
                    ("surface"@, surface_name(t.surface)),
                ];
                assert forall|i: int| 0 <= i < want.len() implies (#[trigger] members@[i]).0@
                    == want[i].0 && is_text(members@[i].1, want[i].1) by {}
            }
            Json::Object(members)
        },
        None => Json::Null,
    };
    let (action_key, action_value) = text_member("action", action);
    let (request_key, request_value) = text_member("requestId", request_id);
    Json::Object(
        vec![
            (action_key, action_value),
            (String::from_str("annotationTarget"), described),
            (request_key, request_value),
        ],
    )
}

/// The description of the toast shown when the annotations were copied instead.
pub fn copied_toast_description(reason: &str) -> (description: String)
    ensures
        description@ == reason@ + " Paste them into the agent yourself."@,
{
    String::from_str(reason).concat(" Paste them into the agent yourself.")
}

/// The input-box verdict a terminal-tail answer carries: its `composerState` text.
pub fn composer_state(answer: Option<&Json>) -> (state: Option<String>)
    ensures
        match state {
            Some(s) => match opt_deref(answer) {
                Some(a) => text_of(get_of(a, "composerState"@)) == Some(s@),
                None => false,
            },
            None => match opt_deref(answer) {
                Some(a) => text_of(get_of(a, "composerState"@)) is None,
                None => true,
            },
        },
{
    owned(as_text(get_in(answer, "composerState")))
}

/// The document the chat's Annotate action opens in the Docs review: the reply's markdown, an id
/// made of the time (`reply-<ms>`), the session's title, and the title `Reply from <agent>`.
pub fn docs_review_payload(markdown: &str, now_ms: u64, agent_label: &str, session_title: &str) -> (
    payload: Json)
    ensures
        text_object(
            payload,
            seq![
                ("content"@, markdown@),
                ("id"@, "reply-"@ + decimal_of(now_ms as nat)),
                ("sessionTitle"@, session_title@),
                ("title"@, "Reply from "@ + agent_label@),
            ],
        ),
{
    let id = String::from_str("reply-").concat(decimal_text(now_ms).as_str());
    let title = String::from_str("Reply from ").concat(agent_label);
    let members = vec![
        text_member("content", markdown),
        text_member("id", id.as_str()),
        text_member("sessionTitle", session_title),
        text_member("title", title.as_str()),
    ];
    proof {
        let want = seq![
            ("content"@, markdown@),
            ("id"@, "reply-"@ + decimal_of(now_ms as nat)),
            ("sessionTitle"@, session_title@),
            ("title"@, "Reply from "@ + agent_label@),
        ];
        assert forall|i: int| 0 <= i < want.len() implies (#[trigger] members@[i]).0@ == want[i].0
            && is_text(members@[i].1, want[i].1) by {}
    }
    Json::Object(members)
}

/// `c`, escaped the way a script literal needs the two line separators JSON leaves raw.
pub open spec fn escaped_separator(c: char) -> Seq<char> {
    if c == '\u{2028}' {
        "\\u2028"@
    } else if c == '\u{2029}' {
        "\\u2029"@
    } else {
        seq![c]
    }
}

/// Every character of `s`, escaped where it is a line separator.
pub open spec fn escaped_separators(s: Seq<char>) -> Seq<char>
    decreases s.len(),
{
    if s.len() == 0 {
        Seq::empty()
    } else {
        escaped_separators(s.drop_last()) + escaped_separator(s.last())
    }
}

/// The payload as a script literal.
pub fn script_literal(payload: &str) -> (literal: String)
    ensures
        literal@ == escaped_separators(payload@),
{
    let chars = chars_of(payload);
    let mut out = String::new();
    let mut i: usize = 0;
    proof {
        assert(payload@.take(0) =~= Seq::<char>::empty());
    }
    while i < chars.len()
        invariant
            0 <= i <= chars@.len(),
            chars@ == payload@,
            out@ == escaped_separators(payload@.take(i as int)),
        decreases chars@.len() - i,
    {
        proof {
            assert(payload@.take(i + 1).drop_last() =~= payload@.take(i as int));
            assert(payload@.take(i + 1).last() == chars@[i as int]);
        }
        let c = chars[i];
        if c == '\u{2028}' {
            out.append("\\u2028");
        } else if c == '\u{2029}' {
            out.append("\\u2029");
        } else {
            out.append(payload.substring_char(i, i + 1));
            proof {
                assert(payload@.subrange(i as int, i + 1) =~= seq![c]);
            }
        }
        i = i + 1;
    }
    proof {
        assert(payload@.take(payload@.len() as int) =~= payload@);
    }
    out
}

/// The script that hands the pending review to the Docs page: it waits for the page's own
/// `ghostexOpenDocsReview` hook, trying every 20 ms up to 250 times.
pub open spec fn review_open_script_of(payload: Seq<char>) -> Seq<char> {
    "(function(){var p="@ + escaped_separators(payload)
        + ";var a=0;var send=function(){var open=window.ghostexOpenDocsReview;if(typeof open==='function'){open(p);return;}if(++a<250){setTimeout(send,20);}};send();})(); undefined;"@
}

/// The script that hands the pending review to the Docs page.
pub fn docs_review_open_script(payload: &str) -> (script: String)
    ensures
        script@ == review_open_script_of(payload@),
{
    let literal = script_literal(payload);
    String::from_str("(function(){var p=").concat(literal.as_str()).concat(
        ";var a=0;var send=function(){var open=window.ghostexOpenDocsReview;if(typeof open==='function'){open(p);return;}if(++a<250){setTimeout(send,20);}};send();})(); undefined;",
    )
}

} // verus!
