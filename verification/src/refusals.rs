//! How the chat host names what went wrong in its counters: a refused request, and a broker message
//! it could not route. Every name it prints is a constant chosen here or a short code that passed
//! [`named`], never free text that came off the wire.

use vstd::prelude::*;

use crate::effects::Json;
use crate::json_fields::{as_text, get, get_of, owned, text_of};
use crate::keyed::KeyedMap;
use crate::text::{
    chars_of, contains_chars, contains_text, lower_text, lowered, matches_at, same_text,
    starts_with_text,
};

verus! {

broadcast use vstd::string::group_string_axioms;

/// How many distinct refusal names the counters admit before new ones are counted as `other`.
pub const MAX_REFUSAL_NAMES: usize = 24;

/// What a refused request's answer carried: its endpoint, gxserver's code and the message.
#[derive(Clone, Debug, PartialEq, Eq)]
pub struct RefusalReport {
    pub endpoint: Option<String>,
    pub code: Option<String>,
    pub message: Option<String>,
}

/// A character a gxserver code may hold: an ASCII letter or digit, `_`, `-` or `.`.
pub open spec fn code_char(c: char) -> bool {
    ('a' <= c && c <= 'z') || ('A' <= c && c <= 'Z') || ('0' <= c && c <= '9') || c == '_' || c
        == '-' || c == '.'
}

/// A short identifier: one to forty of [`code_char`].
pub open spec fn is_named(code: Seq<char>) -> bool {
    1 <= code.len() <= 40 && forall|i: int| 0 <= i < code.len() ==> code_char(#[trigger] code[i])
}

/// Whether a gxserver code is a short identifier that may be printed.
pub fn named(code: &str) -> (ok: bool)
    ensures
        ok == is_named(code@),
{
    let chars = chars_of(code);
    if chars.len() == 0 || chars.len() > 40 {
        return false;
    }
    let mut i: usize = 0;
    while i < chars.len()
        invariant
            0 <= i <= chars@.len(),
            chars@ == code@,
            forall|j: int| 0 <= j < i ==> code_char(#[trigger] chars@[j]),
        decreases chars@.len() - i,
    {
        let c = chars[i];
        let ok = ('a' <= c && c <= 'z') || ('A' <= c && c <= 'Z') || ('0' <= c && c <= '9') || c
            == '_' || c == '-' || c == '.';
        if !ok {
            return false;
        }
        i = i + 1;
    }
    true
}

/// Which of the desktop transport's own failures a refusal without a code is, read from the
/// message in ASCII small letters.
pub open spec fn transport_class_of(message: Option<Seq<char>>) -> Seq<char> {
    match message {
        None => "unknown"@,
        Some(m) => {
            let lower = lower_text(m);
            if contains_text(lower, "not reachable"@) {
                "unreachable"@
            } else if contains_text(lower, "auth token"@) {
                "authToken"@
            } else if contains_text(lower, "invalid json"@) || contains_text(lower, "invalid http"@)
                || contains_text(lower, "invalid chunked"@) {
                "invalidResponse"@
            } else if contains_text(lower, "failed with http"@) {
                "httpStatus"@
            } else if starts_with_text(lower, "could not "@) {
                "transport"@
            } else {
                "unknown"@
            }
        },
    }
}

/// Which of the desktop transport's own failures a refusal without a code is.
pub fn transport_class(message: Option<&str>) -> (class: &'static str)
    ensures
        class@ == transport_class_of(
            match message {
                Some(m) => Some(m@),
                None => None,
            },
        ),
{
    let Some(message) = message else {
        return "unknown";
    };
    let lower = lowered(message);
    if contains_chars(&lower, &chars_of("not reachable")) {
        "unreachable"
    } else if contains_chars(&lower, &chars_of("auth token")) {
        "authToken"
    } else if contains_chars(&lower, &chars_of("invalid json")) || contains_chars(
        &lower,
        &chars_of("invalid http"),
    ) || contains_chars(&lower, &chars_of("invalid chunked")) {
        "invalidResponse"
    } else if contains_chars(&lower, &chars_of("failed with http")) {
        "httpStatus"
    } else if matches_at(&lower, &chars_of("could not "), 0) {
        "transport"
    } else {
        "unknown"
    }
}

} // verus!

verus! {

/// The methods of the chat's RPC surface, spelled as on the wire (`/api/<method>`).
pub open spec fn rpc_methods() -> Seq<Seq<char>> {
    seq![
        "readSessionChat"@,
        "readSessionChatSkills"@,
        "readSessionChatFiles"@,
        "readSessionChatImage"@,
        "sendSessionChatMessage"@,
        "interruptSessionChat"@,
        "answerSessionChatPrompt"@,
        "rewindSessionChat"@,
        "selectSessionChatModel"@,
        "queueSessionChatPrompt"@,
        "updateSessionChatQueuedPrompt"@,
        "removeSessionChatQueuedPrompt"@,
        "reorderSessionChatQueue"@,
        "sendSessionChatQueuedPrompt"@,
        "setSessionChatDraft"@,
        "acknowledgeSessionChatDraftHandoff"@,
        "readSessionTerminalTail"@,
        "sessionForkBranches"@,
        "switchDraftAgent"@,
        "agentAccounts"@,
        "readSessionAgentNote"@,
        "saveSessionAgentNote"@,
        "listStashedPrompts"@,
        "saveStashedPrompt"@,
        "importNativeAttachments"@,
        "readNativeComposer"@,
        "runProjectDocsAction"@,
    ]
}

/// The name a method is counted under: its own spelling when it is one of [`rpc_methods`],
/// `other` otherwise.
pub open spec fn rpc_method_name_of(wire: Seq<char>) -> Seq<char> {
    if rpc_methods().contains(wire) {
        wire
    } else {
        "other"@
    }
}

/// The chat method a wire name spells, as a constant.
pub fn rpc_method_name(wire: &str) -> (name: &'static str)
    ensures
        name@ == rpc_method_name_of(wire@),
{
    proof {
        assert(rpc_methods().len() == 27);
    }
    if same_text(wire, "readSessionChat") {
        "readSessionChat"
    } else if same_text(wire, "readSessionChatSkills") {
        "readSessionChatSkills"
    } else if same_text(wire, "readSessionChatFiles") {
        "readSessionChatFiles"
    } else if same_text(wire, "readSessionChatImage") {
        "readSessionChatImage"
    } else if same_text(wire, "sendSessionChatMessage") {
        "sendSessionChatMessage"
    } else if same_text(wire, "interruptSessionChat") {
        "interruptSessionChat"
    } else if same_text(wire, "answerSessionChatPrompt") {
        "answerSessionChatPrompt"
    } else if same_text(wire, "rewindSessionChat") {
        "rewindSessionChat"
    } else if same_text(wire, "selectSessionChatModel") {
        "selectSessionChatModel"
    } else if same_text(wire, "queueSessionChatPrompt") {
        "queueSessionChatPrompt"
    } else if same_text(wire, "updateSessionChatQueuedPrompt") {
        "updateSessionChatQueuedPrompt"
    } else if same_text(wire, "removeSessionChatQueuedPrompt") {
        "removeSessionChatQueuedPrompt"
    } else if same_text(wire, "reorderSessionChatQueue") {
        "reorderSessionChatQueue"
    } else if same_text(wire, "sendSessionChatQueuedPrompt") {
        "sendSessionChatQueuedPrompt"
    } else if same_text(wire, "setSessionChatDraft") {
        "setSessionChatDraft"
    } else if same_text(wire, "acknowledgeSessionChatDraftHandoff") {
        "acknowledgeSessionChatDraftHandoff"
    } else if same_text(wire, "readSessionTerminalTail") {
        "readSessionTerminalTail"
    } else if same_text(wire, "sessionForkBranches") {
        "sessionForkBranches"
    } else if same_text(wire, "switchDraftAgent") {
        "switchDraftAgent"
    } else if same_text(wire, "agentAccounts") {
        "agentAccounts"
    } else if same_text(wire, "readSessionAgentNote") {
        "readSessionAgentNote"
    } else if same_text(wire, "saveSessionAgentNote") {
        "saveSessionAgentNote"
    } else if same_text(wire, "listStashedPrompts") {
        "listStashedPrompts"
    } else if same_text(wire, "saveStashedPrompt") {
        "saveStashedPrompt"
    } else if same_text(wire, "importNativeAttachments") {
        "importNativeAttachments"
    } else if same_text(wire, "readNativeComposer") {
        "readNativeComposer"
    } else if same_text(wire, "runProjectDocsAction") {
        "runProjectDocsAction"
    } else {
        proof {
            assert forall|i: int| 0 <= i < rpc_methods().len() implies rpc_methods()[i] != wire@ by {
            }
        }
        "other"
    }
}

/// The name a broker message of kind `kind` is counted under when nothing routes it.
pub open spec fn broker_kind_name_of(kind: Option<Seq<char>>) -> Seq<char> {
    match kind {
        Some(k) => {
            if k == "event"@ {
                "brokerMessage.event"@
            } else if k == "chunk"@ {
                "brokerMessage.chunk"@
            } else if k == "response"@ {
                "brokerMessage.response"@
            } else if k == "reset"@ {
                "brokerMessage.reset"@
            } else if k == "chatSettings"@ {
                "brokerMessage.chatSettings"@
            } else if k == "contextPreferences"@ {
                "brokerMessage.contextPreferences"@
            } else if k == "catalog"@ {
                "brokerMessage.catalog"@
            } else {
                "brokerMessage.other"@
            }
        },
        None => "brokerMessage.other"@,
    }
}

/// The name a `brokerMessage` the host could not route is counted under, by the message's `kind`.
pub fn broker_kind_name(kind: Option<&str>) -> (name: &'static str)
    ensures
        name@ == broker_kind_name_of(
            match kind {
                Some(k) => Some(k@),
                None => None,
            },
        ),
{
    match kind {
        Some(k) => {
            if same_text(k, "event") {
                "brokerMessage.event"
            } else if same_text(k, "chunk") {
                "brokerMessage.chunk"
            } else if same_text(k, "response") {
                "brokerMessage.response"
            } else if same_text(k, "reset") {
                "brokerMessage.reset"
            } else if same_text(k, "chatSettings") {
                "brokerMessage.chatSettings"
            } else if same_text(k, "contextPreferences") {
                "brokerMessage.contextPreferences"
            } else if same_text(k, "catalog") {
                "brokerMessage.catalog"
            } else {
                "brokerMessage.other"
            }
        },
        None => "brokerMessage.other",
    }
}

} // verus!

verus! {

/// The view of an optional string.
pub open spec fn opt_text(s: Option<String>) -> Option<Seq<char>> {
    match s {
        Some(t) => Some(t@),
        None => None,
    }
}

/// The method half of a refusal's name: the `/api/<method>` the answer names, as a constant.
pub open spec fn refusal_method_of(endpoint: Option<Seq<char>>) -> Seq<char> {
    match endpoint {
        Some(e) => if starts_with_text(e, "/api/"@) {
            rpc_method_name_of(e.skip("/api/"@.len() as int))
        } else {
            "unknownMethod"@
        },
        None => "unknownMethod"@,
    }
}

/// The class half of a refusal's name: gxserver's code when it is a short identifier, `other`
/// for any other code, and the transport's own class when there is no code at all.
pub open spec fn refusal_class_of(code: Option<Seq<char>>, message: Option<Seq<char>>) -> Seq<
    char,
> {
    match code {
        Some(c) => if is_named(c) {
            c
        } else {
            "other"@
        },
        None => transport_class_of(message),
    }
}

/// `<method>/<class>`, the name one refusal is counted under.
pub open spec fn refusal_name_of(report: RefusalReport) -> Seq<char> {
    refusal_method_of(opt_text(report.endpoint)) + "/"@ + refusal_class_of(
        opt_text(report.code),
        opt_text(report.message),
    )
}

/// The name a refusal is counted under given what is counted already: its own while fewer than
/// [`MAX_REFUSAL_NAMES`] names are held or when it is one of them, `other` past that.
pub open spec fn counted_refusal_name(counts: KeyedMap<u64>, name: Seq<char>) -> Seq<char> {
    if counts.entries@.len() < MAX_REFUSAL_NAMES || counts.has(name) {
        name
    } else {
        "other"@
    }
}

/// How often `name` has been counted.
pub open spec fn count_of(counts: Map<Seq<char>, u64>, name: Seq<char>) -> int {
    if counts.contains_key(name) {
        counts[name] as int
    } else {
        0
    }
}

/// At most [`MAX_REFUSAL_NAMES`] names, or one more when that one is `other`.
pub open spec fn refusal_names_bounded(counts: KeyedMap<u64>) -> bool {
    counts.entries@.len() <= MAX_REFUSAL_NAMES || (counts.entries@.len() == MAX_REFUSAL_NAMES + 1
        && counts.has("other"@))
}

/// No count can be raised past `u64::MAX`.
pub open spec fn counts_below_max(counts: KeyedMap<u64>) -> bool {
    forall|k: Seq<char>| counts.as_map().contains_key(k) ==> #[trigger] counts.as_map()[k] < u64::MAX
}

/// The name one refusal is counted under, before the cap.
pub fn refusal_name(report: &RefusalReport) -> (name: String)
    ensures
        name@ == refusal_name_of(*report),
{
    let method: &str = match &report.endpoint {
        Some(e) => {
            let chars = chars_of(e.as_str());
            let prefix = chars_of("/api/");
            proof {
                reveal_strlit("/api/");
            }
            if matches_at(&chars, &prefix, 0) {
                let rest = e.as_str().substring_char(5, chars.len());
                proof {
                    assert(rest@ == e@.skip("/api/"@.len() as int));
                }
                rpc_method_name(rest)
            } else {
                "unknownMethod"
            }
        },
        None => "unknownMethod",
    };
    let mut name = String::from_str(method);
    name.append("/");
    match &report.code {
        Some(code) => {
            if named(code.as_str()) {
                name.append(code.as_str());
            } else {
                name.append("other");
            }
        },
        None => {
            let message: Option<&str> = match &report.message {
                Some(m) => Some(m.as_str()),
                None => None,
            };
            name.append(transport_class(message));
        },
    }
    name
}

/// Counts one refused request under `<method>/<class>`; `None` is an answer that was no refusal.
///
/// Once [`MAX_REFUSAL_NAMES`] names are held a new name is counted as `other`, so the counters
/// never hold more than one name past the cap.
pub fn note_rpc_refusal(counts: &mut KeyedMap<u64>, error: Option<&RefusalReport>)
    requires
        old(counts).well_formed(),
        counts_below_max(*old(counts)),
    ensures
        final(counts).well_formed(),
        error is None ==> final(counts).as_map() == old(counts).as_map()
            && final(counts).entries@.len() == old(counts).entries@.len(),
        error is Some ==> ({
            let n = counted_refusal_name(*old(counts), refusal_name_of(*error->0));
            final(counts).as_map() == old(counts).as_map().insert(
                n,
                (count_of(old(counts).as_map(), n) + 1) as u64,
            )
        }),
        refusal_names_bounded(*old(counts)) ==> refusal_names_bounded(*final(counts)),
{
    let Some(report) = error else {
        return;
    };
    let name = refusal_name(report);
    let (at, found) = counts.locate(name.as_str());
    let admitted = counts.len() < MAX_REFUSAL_NAMES || found;
    let name = if admitted {
        name
    } else {
        String::from_str("other")
    };
    let (at, found) = counts.locate(name.as_str());
    if found {
        let held = counts.entries[at].1;
        proof {
            counts.lemma_key_index(at as int);
        }
        counts.set_value_at(at, held + 1);
    } else {
        let ghost key = name@;
        let ghost before = *counts;
        counts.insert_new(name, 1);
        proof {
            assert(counts.as_map().contains_key(key));
            assert(counts.has(key));
            if before.has("other"@) {
                assert(before.as_map().contains_key("other"@));
                assert(counts.as_map().contains_key("other"@));
                assert(counts.has("other"@));
            }
        }
    }
}

/// The name a renderer call the host could not turn into an event is counted under: its method,
/// and for a `brokerMessage` the name of the message's `kind`.
pub fn unrouted_name(method: &'static str, broker_kind: Option<&str>) -> (name: &'static str)
    ensures
        method@ == "brokerMessage"@ ==> name@ == broker_kind_name_of(
            match broker_kind {
                Some(k) => Some(k@),
                None => None,
            },
        ),
        method@ != "brokerMessage"@ ==> name == method,
{
    if same_text(method, "brokerMessage") {
        broker_kind_name(broker_kind)
    } else {
        method
    }
}

/// Counts one renderer call the host could not turn into an event, under [`unrouted_name`].
pub fn note_unrouted(counts: &mut KeyedMap<u64>, method: &'static str, broker_kind: Option<&str>)
    requires
        old(counts).well_formed(),
        count_of(
            old(counts).as_map(),
            if method@ == "brokerMessage"@ {
                broker_kind_name_of(
                    match broker_kind {
                        Some(k) => Some(k@),
                        None => None,
                    },
                )
            } else {
                method@
            },
        ) < u64::MAX,
    ensures
        final(counts).well_formed(),
        ({
            let name = if method@ == "brokerMessage"@ {
                broker_kind_name_of(
                    match broker_kind {
                        Some(k) => Some(k@),
                        None => None,
                    },
                )
            } else {
                method@
            };
            final(counts).as_map() == old(counts).as_map().insert(
                name,
                (count_of(old(counts).as_map(), name) + 1) as u64,
            )
        }),
{
    let name = unrouted_name(method, broker_kind);
    crate::chat_host::bump(counts, name);
}

/// The refusal an answer to the view's `resolve` carries: its third argument, when there is one
/// and it is not `null`, with its `endpoint`, `code` and `message` each where it is text.
pub open spec fn refusal_report_is(arguments: Seq<Json>, report: Option<RefusalReport>) -> bool {
    if arguments.len() > 2 && !(arguments[2] is Null) {
        let error = arguments[2];
        report matches Some(r) && opt_text(r.endpoint) == text_of(get_of(error, "endpoint"@))
            && opt_text(r.code) == text_of(get_of(error, "code"@)) && opt_text(r.message)
            == text_of(get_of(error, "message"@))
    } else {
        report is None
    }
}

/// Reads the refusal an answer carries.
pub fn refusal_report(arguments: &Vec<Json>) -> (report: Option<RefusalReport>)
    ensures
        refusal_report_is(arguments@, report),
{
    if arguments.len() <= 2 {
        return None;
    }
    let error = &arguments[2];
    match error {
        Json::Null => None,
        _ => Some(
            RefusalReport {
                endpoint: owned(as_text(get(error, "endpoint"))),
                code: owned(as_text(get(error, "code"))),
                message: owned(as_text(get(error, "message"))),
            },
        ),
    }
}

} // verus!
