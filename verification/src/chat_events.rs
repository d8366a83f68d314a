//! The view's calls, read for the events they carry into the chat's brain.
//!
//! The view pushes three shapes at the host thread: `action` (a user gesture), `brokerMessage` (a
//! gxserver frame or a settings push) and `resolve` (an answer to an `rpc` request); `tick` is the
//! thread's own. Each call is read here for what it becomes: which event, and which part of its
//! JSON the brain's own types are read from. A call this build does not model becomes nothing,
//! which the caller counts.

use vstd::prelude::*;

use crate::effects::Json;
use crate::json_fields::{as_text, get, get_of, opt_deref, owned, text_of};
use crate::text::{chars_of, same_text};

verus! {

broadcast use vstd::string::group_string_axioms;

/// The four frame types the chat admits.
#[derive(Clone, Copy, Debug, PartialEq, Eq)]
pub enum FrameKind {
    Snapshot,
    Replaced,
    Appended,
    State,
}

/// What one call of the view becomes.
pub enum CallEvent<'a> {
    /// `start`, with its configuration.
    Start(&'a Json),
    /// `action`, with the gesture.
    Action(&'a Json),
    /// The thread's own tick.
    Tick,
    /// A gxserver frame of one of the admitted types.
    Frame(FrameKind, &'a Json),
    /// A settings push.
    Settings(&'a Json),
    /// A provider's context preferences (`null` where the message carries none).
    ContextPreferences { provider: String, preferences: Option<&'a Json> },
    /// A new model catalog (`null` where the message carries none).
    Catalog(Option<&'a Json>),
    /// The transport rebuilt itself, which re-reads everything.
    Resubscribed,
    /// Nothing this build models.
    Nothing,
}

/// A call's event as the contracts speak of it.
pub enum CallEventView {
    Start(Json),
    Action(Json),
    Tick,
    Frame(FrameKind, Json),
    Settings(Json),
    ContextPreferences { provider: Seq<char>, preferences: Option<Json> },
    Catalog(Option<Json>),
    Resubscribed,
    Nothing,
}

/// The view of a call's event.
pub open spec fn event_view(e: CallEvent) -> CallEventView {
    match e {
        CallEvent::Start(j) => CallEventView::Start(*j),
        CallEvent::Action(j) => CallEventView::Action(*j),
        CallEvent::Tick => CallEventView::Tick,
        CallEvent::Frame(k, j) => CallEventView::Frame(k, *j),
        CallEvent::Settings(j) => CallEventView::Settings(*j),
        CallEvent::ContextPreferences { provider, preferences } => CallEventView::ContextPreferences {
            provider: provider@,
            preferences: opt_deref(preferences),
        },
        CallEvent::Catalog(j) => CallEventView::Catalog(opt_deref(j)),
        CallEvent::Resubscribed => CallEventView::Resubscribed,
        CallEvent::Nothing => CallEventView::Nothing,
    }
}

/// The frame type a frame names.
pub open spec fn frame_kind_of(frame_type: Option<Seq<char>>) -> Option<FrameKind> {
    if frame_type == Some("sessionChatSnapshot"@) {
        Some(FrameKind::Snapshot)
    } else if frame_type == Some("sessionChatReplaced"@) {
        Some(FrameKind::Replaced)
    } else if frame_type == Some("sessionChatAppended"@) {
        Some(FrameKind::Appended)
    } else if frame_type == Some("sessionChatState"@) {
        Some(FrameKind::State)
    } else {
        None
    }
}

/// Each of the four admitted frame types is admitted, each as its own kind; any other type, or
/// none, is not.
pub proof fn law_each_admitted_frame_type_has_its_kind(frame_type: Option<Seq<char>>)
    ensures
        frame_kind_of(Some("sessionChatSnapshot"@)) == Some(FrameKind::Snapshot),
        frame_kind_of(Some("sessionChatReplaced"@)) == Some(FrameKind::Replaced),
        frame_kind_of(Some("sessionChatAppended"@)) == Some(FrameKind::Appended),
        frame_kind_of(Some("sessionChatState"@)) == Some(FrameKind::State),
        frame_kind_of(frame_type) is Some <==> (frame_type == Some("sessionChatSnapshot"@)
            || frame_type == Some("sessionChatReplaced"@) || frame_type == Some(
            "sessionChatAppended"@,
        ) || frame_type == Some("sessionChatState"@)),
{
    reveal_strlit("sessionChatSnapshot");
    reveal_strlit("sessionChatReplaced");
    reveal_strlit("sessionChatAppended");
    reveal_strlit("sessionChatState");
    assert("sessionChatReplaced"@[11] != "sessionChatSnapshot"@[11]);
    assert("sessionChatAppended"@[11] != "sessionChatSnapshot"@[11]);
    assert("sessionChatAppended"@[11] != "sessionChatReplaced"@[11]);
    assert("sessionChatState"@[12] != "sessionChatSnapshot"@[12]);
}

/// A broker `event` message whose frame (its `event`, else its `payload`) has one of the admitted
/// types becomes that frame, with its kind; the view's `brokerMessage` call carrying it does too.
pub proof fn law_an_admitted_frame_is_never_dropped(message: Json, frame: Json, frame_type: Seq<char>)
    requires
        text_of(get_of(message, "kind"@)) == Some("event"@),
        or_else(get_of(message, "event"@), get_of(message, "payload"@)) == Some(frame),
        text_of(get_of(frame, "type"@)) == Some(frame_type),
        frame_kind_of(Some(frame_type)) is Some,
    ensures
        broker_event_of(Some(message)) == CallEventView::Frame(
            frame_kind_of(Some(frame_type))->0,
            frame,
        ),
        call_event_of("brokerMessage"@, seq![message]) == CallEventView::Frame(
            frame_kind_of(Some(frame_type))->0,
            frame,
        ),
        frame_type == "sessionChatSnapshot"@ ==> broker_event_of(Some(message))
            == CallEventView::Frame(FrameKind::Snapshot, frame),
{
    reveal_strlit("brokerMessage");
    reveal_strlit("start");
    reveal_strlit("action");
    reveal_strlit("tick");
    assert("brokerMessage"@[0] != "start"@[0]);
    assert("brokerMessage"@[0] != "action"@[0]);
    assert("brokerMessage"@[0] != "tick"@[0]);
    law_each_admitted_frame_type_has_its_kind(Some(frame_type));
}

/// The first of two optional values that is present.
pub open spec fn or_else(a: Option<Json>, b: Option<Json>) -> Option<Json> {
    match a {
        Some(j) => Some(j),
        None => b,
    }
}

/// What a broker message becomes, by its `kind`: an `event` carries a frame in `event` (else
/// `payload`), a `chatSettings` its settings in `settings` (else `payload`); `chunk` and
/// `response` are answered elsewhere and become nothing here.
pub open spec fn broker_event_of(message: Option<Json>) -> CallEventView {
    match message {
        None => CallEventView::Nothing,
        Some(m) => {
            let kind = text_of(get_of(m, "kind"@));
            if kind == Some("event"@) {
                match or_else(get_of(m, "event"@), get_of(m, "payload"@)) {
                    Some(frame) => match frame_kind_of(text_of(get_of(frame, "type"@))) {
                        Some(k) => CallEventView::Frame(k, frame),
                        None => CallEventView::Nothing,
                    },
                    None => CallEventView::Nothing,
                }
            } else if kind == Some("chatSettings"@) {
                match or_else(get_of(m, "settings"@), get_of(m, "payload"@)) {
                    Some(s) => CallEventView::Settings(s),
                    None => CallEventView::Nothing,
                }
            } else if kind == Some("contextPreferences"@) {
                CallEventView::ContextPreferences {
                    provider: match text_of(get_of(m, "provider"@)) {
                        Some(p) => p,
                        None => Seq::empty(),
                    },
                    preferences: get_of(m, "preferences"@),
                }
            } else if kind == Some("catalog"@) {
                CallEventView::Catalog(get_of(m, "catalog"@))
            } else if kind == Some("reset"@) {
                CallEventView::Resubscribed
            } else {
                CallEventView::Nothing
            }
        },
    }
}

/// What one call of the view becomes, by its method.
pub open spec fn call_event_of(method: Seq<char>, arguments: Seq<Json>) -> CallEventView {
    if method == "start"@ {
        if arguments.len() > 0 {
            CallEventView::Start(arguments[0])
        } else {
            CallEventView::Nothing
        }
    } else if method == "action"@ {
        if arguments.len() > 0 {
            CallEventView::Action(arguments[0])
        } else {
            CallEventView::Nothing
        }
    } else if method == "tick"@ {
        CallEventView::Tick
    } else if method == "brokerMessage"@ {
        broker_event_of(if arguments.len() > 0 {
            Some(arguments[0])
        } else {
            None
        })
    } else {
        CallEventView::Nothing
    }
}

/// The frame type a frame names.
fn frame_kind(frame: &Json) -> (kind: Option<FrameKind>)
    ensures
        kind == frame_kind_of(text_of(get_of(*frame, "type"@))),
{
    match as_text(get(frame, "type")) {
        Some(t) => if same_text(t, "sessionChatSnapshot") {
            Some(FrameKind::Snapshot)
        } else if same_text(t, "sessionChatReplaced") {
            Some(FrameKind::Replaced)
        } else if same_text(t, "sessionChatAppended") {
            Some(FrameKind::Appended)
        } else if same_text(t, "sessionChatState") {
            Some(FrameKind::State)
        } else {
            None
        },
        None => None,
    }
}

/// The member `first` of a value, else its member `second`.
fn get_either<'a>(value: &'a Json, first: &str, second: &str) -> (found: Option<&'a Json>)
    ensures
        opt_deref(found) == or_else(get_of(*value, first@), get_of(*value, second@)),
{
    match get(value, first) {
        Some(j) => Some(j),
        None => get(value, second),
    }
}

/// What a broker message becomes.
pub fn broker_event<'a>(message: Option<&'a Json>) -> (event: CallEvent<'a>)
    ensures
        event_view(event) == broker_event_of(opt_deref(message)),
{
    let m = match message {
        Some(m) => m,
        None => return CallEvent::Nothing,
    };
    let kind = match as_text(get(m, "kind")) {
        Some(k) => k,
        None => return CallEvent::Nothing,
    };
    if same_text(kind, "event") {
        match get_either(m, "event", "payload") {
            Some(frame) => match frame_kind(frame) {
                Some(k) => CallEvent::Frame(k, frame),
                None => CallEvent::Nothing,
            },
            None => CallEvent::Nothing,
        }
    } else if same_text(kind, "chatSettings") {
        match get_either(m, "settings", "payload") {
            Some(s) => CallEvent::Settings(s),
            None => CallEvent::Nothing,
        }
    } else if same_text(kind, "contextPreferences") {
        let provider = match as_text(get(m, "provider")) {
            Some(p) => String::from_str(p),
            None => String::new(),
        };
        CallEvent::ContextPreferences { provider, preferences: get(m, "preferences") }
    } else if same_text(kind, "catalog") {
        CallEvent::Catalog(get(m, "catalog"))
    } else if same_text(kind, "reset") {
        CallEvent::Resubscribed
    } else {
        CallEvent::Nothing
    }
}

/// What one call of the view becomes. `resolve` becomes nothing here: it is read by
/// [`resolved`].
pub fn events_for<'a>(method: &str, arguments: &'a Vec<Json>) -> (event: CallEvent<'a>)
    ensures
        event_view(event) == call_event_of(method@, arguments@),
{
    if same_text(method, "start") {
        if arguments.len() > 0 {
            CallEvent::Start(&arguments[0])
        } else {
            CallEvent::Nothing
        }
    } else if same_text(method, "action") {
        if arguments.len() > 0 {
            CallEvent::Action(&arguments[0])
        } else {
            CallEvent::Nothing
        }
    } else if same_text(method, "tick") {
        CallEvent::Tick
    } else if same_text(method, "brokerMessage") {
        let first = if arguments.len() > 0 {
            Some(&arguments[0])
        } else {
            None
        };
        broker_event(first)
    } else {
        CallEvent::Nothing
    }
}

/// Whether `c` is an ASCII digit.
pub open spec fn is_digit(c: char) -> bool {
    '0' <= c <= '9'
}

/// The number a run of ASCII digits spells.
pub open spec fn digits_value(d: Seq<char>) -> int
    decreases d.len(),
{
    if d.len() == 0 {
        0
    } else {
        digits_value(d.drop_last()) * 10 + (d.last() as int - '0' as int)
    }
}

/// The digits of an unsigned decimal: the text after one leading `+`.
pub open spec fn unsigned_digits(s: Seq<char>) -> Seq<char> {
    if s.len() > 0 && s[0] == '+' {
        s.drop_first()
    } else {
        s
    }
}

/// The unsigned 64-bit number a text spells the way Rust's `u64::from_str` reads one: an optional
/// `+`, then at least one ASCII digit and nothing else, no larger than `u64::MAX`.
pub open spec fn parsed_u64(s: Seq<char>) -> Option<u64> {
    let d = unsigned_digits(s);
    if d.len() > 0 && (forall|i: int| 0 <= i < d.len() ==> is_digit(#[trigger] d[i])) && digits_value(d)
        <= u64::MAX {
        Some(digits_value(d) as u64)
    } else {
        None
    }
}

/// Reads an unsigned decimal.
pub fn parse_u64(s: &str) -> (n: Option<u64>)
    ensures
        n == parsed_u64(s@),
{
    let chars = chars_of(s);
    let start: usize = if chars.len() > 0 && chars[0] == '+' {
        1
    } else {
        0
    };
    let ghost d = unsigned_digits(s@);
    proof {
        assert(d =~= chars@.subrange(start as int, chars@.len() as int));
    }
    if start >= chars.len() {
        return None;
    }
    let mut value: u64 = 0;
    let mut i: usize = start;
    proof {
        assert(d.take(0) =~= Seq::<char>::empty());
    }
    while i < chars.len()
        invariant
            start <= i <= chars@.len(),
            chars@ == s@,
            d == unsigned_digits(s@),
            d == chars@.subrange(start as int, chars@.len() as int),
            forall|j: int| 0 <= j < i - start ==> is_digit(#[trigger] d[j]),
            value == digits_value(d.take(i - start)),
        decreases chars@.len() - i,
    {
        let c = chars[i];
        proof {
            assert(d[i - start] == c);
            assert(d.take(i - start + 1).drop_last() =~= d.take(i - start));
            assert(d.take(i - start + 1).last() == c);
        }
        if c < '0' || c > '9' {
            proof {
                assert(!is_digit(d[i - start]));
            }
            return None;
        }
        let digit = (c as u32 - '0' as u32) as u64;
        if value > 1844674407370955161u64 || (value == 1844674407370955161u64 && digit > 5) {
            proof {
                assert(digits_value(d.take(i - start + 1)) > u64::MAX);
                if forall|j: int| 0 <= j < d.len() ==> is_digit(#[trigger] d[j]) {
                    lemma_digits_value_grows(d, i - start + 1);
                }
            }
            return None;
        }
        value = value * 10 + digit;
        i = i + 1;
    }
    proof {
        assert(d.take(d.len() as int) =~= d);
    }
    Some(value)
}

/// A longer run of digits spells at least as much.
proof fn lemma_digits_value_grows(d: Seq<char>, n: int)
    requires
        0 <= n <= d.len(),
        forall|j: int| 0 <= j < d.len() ==> is_digit(#[trigger] d[j]),
    ensures
        digits_value(d) >= digits_value(d.take(n)),
    decreases d.len() - n,
{
    if n < d.len() {
        lemma_digits_value_grows(d, n + 1);
        assert(d.take(n + 1).drop_last() =~= d.take(n));
        assert(d.take(n + 1).last() == d[n]);
        assert(is_digit(d[n]));
        lemma_digits_value_nonneg(d.take(n));
    } else {
        assert(d.take(n) =~= d);
    }
}

/// A run of digits spells no negative number.
proof fn lemma_digits_value_nonneg(d: Seq<char>)
    requires
        forall|j: int| 0 <= j < d.len() ==> is_digit(#[trigger] d[j]),
    ensures
        digits_value(d) >= 0,
    decreases d.len(),
{
    if d.len() > 0 {
        lemma_digits_value_nonneg(d.drop_last());
        assert(is_digit(d[d.len() - 1]));
    }
}

/// A request id as the view echoes it: the number the core allocated, as a number or as decimal
/// text. `whole_float` is the whole number below 2^53 a non-integer JSON number names, which the
/// caller reads.
pub open spec fn request_id_of(value: Json, whole_float: Option<u64>) -> Option<u64> {
    match value {
        Json::UInt(u) => Some(u),
        Json::Text(t) => parsed_u64(t@),
        Json::Other(_) => whole_float,
        _ => None,
    }
}

/// Reads a request id.
pub fn request_id(value: &Json, whole_float: Option<u64>) -> (id: Option<u64>)
    ensures
        id == request_id_of(*value, whole_float),
{
    match value {
        Json::UInt(u) => Some(*u),
        Json::Text(t) => parse_u64(t.as_str()),
        Json::Other(_) => whole_float,
        _ => None,
    }
}

/// How a request the core made settled.
pub enum RpcOutcome<'a> {
    /// Answered, with its result (`null` where the answer carries none).
    Answered(Option<&'a Json>),
    /// Refused, with the refusal's code, message and endpoint.
    Refused { code: Option<String>, message: String, endpoint: Option<String> },
}

/// A settled request: the id the core allocated, and how it settled.
pub struct Settled<'a> {
    pub request_id: u64,
    pub outcome: RpcOutcome<'a>,
}

/// How a request settled, as the contracts speak of it.
pub enum OutcomeView {
    Answered(Option<Json>),
    Refused { code: Option<Seq<char>>, message: Seq<char>, endpoint: Option<Seq<char>> },
}

/// The text of an optional string.
pub open spec fn opt_chars(s: Option<String>) -> Option<Seq<char>> {
    match s {
        Some(t) => Some(t@),
        None => None,
    }
}

/// The view of an outcome.
pub open spec fn outcome_view(o: RpcOutcome) -> OutcomeView {
    match o {
        RpcOutcome::Answered(r) => OutcomeView::Answered(opt_deref(r)),
        RpcOutcome::Refused { code, message, endpoint } => OutcomeView::Refused {
            code: opt_chars(code),
            message: message@,
            endpoint: opt_chars(endpoint),
        },
    }
}

/// What a `resolve` settles: `arguments` is `[id, result, error]`. A refusal is an answer like
/// any other, with "Request failed." where it carries no message; only a call with no usable id
/// settles nothing.
pub open spec fn settled_of(arguments: Seq<Json>, whole_float: Option<u64>) -> Option<(u64, OutcomeView)> {
    let id = if arguments.len() > 0 {
        request_id_of(arguments[0], whole_float)
    } else {
        None
    };
    match id {
        None => None,
        Some(id) => if arguments.len() > 2 && !(arguments[2] is Null) {
            let error = arguments[2];
            Some(
                (
                    id,
                    OutcomeView::Refused {
                        code: text_of(get_of(error, "code"@)),
                        message: match text_of(get_of(error, "message"@)) {
                            Some(m) => m,
                            None => "Request failed."@,
                        },
                        endpoint: text_of(get_of(error, "endpoint"@)),
                    },
                ),
            )
        } else {
            Some((id, OutcomeView::Answered(if arguments.len() > 1 {
                Some(arguments[1])
            } else {
                None
            })))
        },
    }
}

/// Reads what a `resolve` settles.
pub fn resolved<'a>(arguments: &'a Vec<Json>, whole_float: Option<u64>) -> (settled: Option<
    Settled<'a>,
>)
    ensures
        match settled {
            Some(s) => settled_of(arguments@, whole_float) == Some(
                (s.request_id, outcome_view(s.outcome)),
            ),
            None => settled_of(arguments@, whole_float) is None,
        },
{
    if arguments.len() == 0 {
        return None;
    }
    let id = match request_id(&arguments[0], whole_float) {
        Some(id) => id,
        None => return None,
    };
    if arguments.len() > 2 {
        let error = &arguments[2];
        match error {
            Json::Null => {},
            _ => {
                let message = match as_text(get(error, "message")) {
                    Some(m) => String::from_str(m),
                    None => String::from_str("Request failed."),
                };
                return Some(
                    Settled {
                        request_id: id,
                        outcome: RpcOutcome::Refused {
                            code: owned(as_text(get(error, "code"))),
                            message,
                            endpoint: owned(as_text(get(error, "endpoint"))),
                        },
                    },
                );
            },
        }
    }
    let result = if arguments.len() > 1 {
        Some(&arguments[1])
    } else {
        None
    };
    Some(Settled { request_id: id, outcome: RpcOutcome::Answered(result) })
}

} // verus!
