//! What a sidebar command asks, read from its JSON before the store decides whether it owns it.
//!
//! A renderer command (`selectSession`, `sessionMenu`) arrives at the top level; a gxserver
//! message (`splitSessionRight`, `setSessionSleeping`, `closeSession`) arrives wrapped as
//! `{type: "command", message}`.

use vstd::prelude::*;

use crate::app_model::LocalFocusRouteCounters;
use crate::effects::Json;
use crate::json_fields::{as_text, get, get_of, opt_deref, text_of};
use crate::text::{chars_of, same_text, starts_with_text};

verus! {

broadcast use vstd::string::group_string_axioms;

/// The inner message of a gxserver command envelope.
pub open spec fn wrapped_message_of(command: Json) -> Option<Json> {
    if text_of(get_of(command, "type"@)) == Some("command"@) {
        get_of(command, "message"@)
    } else {
        None
    }
}

/// The inner message of a gxserver command envelope.
pub fn wrapped_message(command: &Json) -> (message: Option<&Json>)
    ensures
        opt_deref(message) == wrapped_message_of(*command),
{
    match as_text(get(command, "type")) {
        Some(t) => if same_text(t, "command") {
            get(command, "message")
        } else {
            None
        },
        None => None,
    }
}

/// The session a row click in focus mode names: a `selectSession` command with `mode: focus` and
/// a `sessionId` text.
pub open spec fn focus_click_session_of(command: Json) -> Option<Seq<char>> {
    if text_of(get_of(command, "type"@)) == Some("selectSession"@) && text_of(get_of(command, "mode"@))
        == Some("focus"@) {
        text_of(get_of(command, "sessionId"@))
    } else {
        None
    }
}

/// The session a row click in focus mode names.
pub fn focus_click_session(command: &Json) -> (session_id: Option<&str>)
    ensures
        match session_id {
            Some(s) => focus_click_session_of(*command) == Some(s@),
            None => focus_click_session_of(*command) is None,
        },
{
    match as_text(get(command, "type")) {
        Some(t) => if !same_text(t, "selectSession") {
            return None;
        },
        None => return None,
    }
    match as_text(get(command, "mode")) {
        Some(m) => if !same_text(m, "focus") {
            return None;
        },
        None => return None,
    }
    as_text(get(command, "sessionId"))
}

/// The session a LOCAL row click names: a focus click whose id is not remote-scoped.
/// `remote_scoped` is whether the clicked id parses as a remote-scoped session id.
pub fn local_focus_session_id(command: &Json, remote_scoped: bool) -> (session_id: Option<String>)
    ensures
        match session_id {
            Some(s) => !remote_scoped && focus_click_session_of(*command) == Some(s@),
            None => remote_scoped || focus_click_session_of(*command) is None,
        },
{
    match focus_click_session(command) {
        Some(id) => if remote_scoped {
            None
        } else {
            Some(String::from_str(id))
        },
        None => None,
    }
}

/// The message a remote row's click means, in the shape the planner answers.
pub enum RemoteFocusMessage<'a> {
    /// `{type: "focusSession", sessionId}`: a focus click.
    FocusSession(String),
    /// The wrapped `splitSessionRight` message, as it came.
    Split(&'a Json),
}

/// A remote row's click as the contracts speak of it.
pub enum RemoteFocusView {
    FocusSession(Seq<char>),
    Split(Json),
}

/// The message a remote row's click means: a focus click becomes a `focusSession`, a wrapped
/// `splitSessionRight` goes on as it is, and nothing else is a remote focus.
pub open spec fn remote_focus_of(command: Json) -> Option<RemoteFocusView> {
    let kind = text_of(get_of(command, "type"@));
    if kind == Some("selectSession"@) {
        match focus_click_session_of(command) {
            Some(s) => Some(RemoteFocusView::FocusSession(s)),
            None => None,
        }
    } else if kind == Some("command"@) {
        match get_of(command, "message"@) {
            Some(m) => if text_of(get_of(m, "type"@)) == Some("splitSessionRight"@) {
                Some(RemoteFocusView::Split(m))
            } else {
                None
            },
            None => None,
        }
    } else {
        None
    }
}

/// The view of a remote row's click.
pub open spec fn remote_focus_view(m: RemoteFocusMessage) -> RemoteFocusView {
    match m {
        RemoteFocusMessage::FocusSession(s) => RemoteFocusView::FocusSession(s@),
        RemoteFocusMessage::Split(j) => RemoteFocusView::Split(*j),
    }
}

/// The message a remote row's click means.
pub fn remote_focus_message(command: &Json) -> (message: Option<RemoteFocusMessage<'_>>)
    ensures
        match message {
            Some(m) => remote_focus_of(*command) == Some(remote_focus_view(m)),
            None => remote_focus_of(*command) is None,
        },
{
    let kind = match as_text(get(command, "type")) {
        Some(k) => k,
        None => return None,
    };
    if same_text(kind, "selectSession") {
        return match focus_click_session(command) {
            Some(s) => Some(RemoteFocusMessage::FocusSession(String::from_str(s))),
            None => None,
        };
    }
    if !same_text(kind, "command") {
        return None;
    }
    let message = match get(command, "message") {
        Some(m) => m,
        None => return None,
    };
    match as_text(get(message, "type")) {
        Some(t) => if same_text(t, "splitSessionRight") {
            Some(RemoteFocusMessage::Split(message))
        } else {
            None
        },
        None => None,
    }
}

/// `{type: "focusSession", sessionId}`: the message that focuses a session in the runtime.
pub fn focus_session_message(session_id: &str) -> (message: Json)
    ensures
        message matches Json::Object(m) && m@.len() == 2 && m@[0].0@ == "type"@ && (m@[0].1 matches Json::Text(
            t,
        ) && t@ == "focusSession"@) && m@[1].0@ == "sessionId"@ && (m@[1].1 matches Json::Text(s)
            && s@ == session_id@),
{
    Json::Object(
        vec![
            (String::from_str("type"), Json::Text(String::from_str("focusSession"))),
            (String::from_str("sessionId"), Json::Text(String::from_str(session_id))),
        ],
    )
}

/// Whether a session id names one of this app's browser tabs.
pub fn is_browser_session(session_id: &str) -> (browser: bool)
    ensures
        browser == starts_with_text(session_id@, "gpui-browser:"@),
{
    let chars = chars_of(session_id);
    let prefix = chars_of("gpui-browser:");
    if prefix.len() > chars.len() {
        return false;
    }
    let mut i: usize = 0;
    while i < prefix.len()
        invariant
            0 <= i <= prefix@.len(),
            prefix@.len() <= chars@.len(),
            chars@ == session_id@,
            prefix@ == "gpui-browser:"@,
            forall|j: int| 0 <= j < i ==> chars@[j] == prefix@[j],
        decreases prefix@.len() - i,
    {
        if chars[i] != prefix[i] {
            proof {
                assert(session_id@.subrange(0, prefix@.len() as int)[i as int] != prefix@[i as int]);
            }
            return false;
        }
        i = i + 1;
    }
    proof {
        assert(session_id@.subrange(0, prefix@.len() as int) =~= prefix@);
    }
    true
}

/// Counts a local row focus the store routed itself: every focus, the browser tabs among them, and
/// the ones that closed an open app modal first.
pub fn note_local_row_focus(counters: &mut LocalFocusRouteCounters, session_id: &str, had_modal: bool)
    requires
        old(counters).focuses < u64::MAX,
        old(counters).browser_rows < u64::MAX,
        old(counters).modals_closed < u64::MAX,
    ensures
        final(counters).focuses == old(counters).focuses + 1,
        final(counters).browser_rows == old(counters).browser_rows + (if starts_with_text(
            session_id@,
            "gpui-browser:"@,
        ) {
            1int
        } else {
            0int
        }),
        final(counters).modals_closed == old(counters).modals_closed + (if had_modal {
            1int
        } else {
            0int
        }),
        final(counters).declined_source == old(counters).declined_source,
{
    counters.focuses = counters.focuses + 1;
    if is_browser_session(session_id) {
        counters.browser_rows = counters.browser_rows + 1;
    }
    if had_modal {
        counters.modals_closed = counters.modals_closed + 1;
    }
}

} // verus!
