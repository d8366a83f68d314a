//! Where each effect of the chat's rules goes: this host, the view, or back into the rules.
//!
//! Half of the effects are work this host performs off the UI thread (storage, the boot read, the
//! timer). The other half only the view can do, because it owns the composer, the clipboard, the
//! window and the app shell; those ride back to it as requests in the exact wire form its
//! dispatch already reads. An effect this build does not know is sent under the `unrouted` kind,
//! which the view draws nothing for and the counters count.

use vstd::prelude::*;

use crate::keyed::KeyedMap;
use crate::text::same_text;

verus! {

broadcast use vstd::string::group_string_axioms;

/// A JSON value as far as routing reads it; everything else is passed through untouched.
pub enum Json {
    Null,
    Bool(bool),
    UInt(u64),
    /// A negative integer.
    Int(i64),
    Text(String),
    /// An array, with its elements in order.
    Array(Vec<Json>),
    /// An object, with its members in order.
    Object(Vec<(String, Json)>),
    /// Any other value, passed through.
    Other(serde_json::Value),
}

/// A JSON value as the contracts speak of it.
pub enum JsonView {
    Null,
    Bool(bool),
    UInt(u64),
    Int(i64),
    Text(Seq<char>),
    Array(Seq<Json>),
    Object(Seq<(Seq<char>, Json)>),
    Other(serde_json::Value),
}

/// The view of a JSON value.
pub open spec fn json_view(j: Json) -> JsonView {
    match j {
        Json::Null => JsonView::Null,
        Json::Bool(b) => JsonView::Bool(b),
        Json::UInt(n) => JsonView::UInt(n),
        Json::Int(n) => JsonView::Int(n),
        Json::Text(s) => JsonView::Text(s@),
        Json::Array(elements) => JsonView::Array(elements@),
        Json::Object(members) => JsonView::Object(
            members@.map_values(|m: (String, Json)| (m.0@, m.1)),
        ),
        Json::Other(v) => JsonView::Other(v),
    }
}

/// The view of a request's parameters: each key to the view of its value.
pub open spec fn params_view(p: KeyedMap<Json>) -> Map<Seq<char>, JsonView> {
    p.as_map().map_values(|j: Json| json_view(j))
}

/// The host-side effects, by kind: this host performs them itself.
#[derive(Clone, Copy, Debug, PartialEq, Eq)]
pub enum HostEffect {
    ReadStorage,
    ReadStorageBatch,
    WriteStorage,
    WriteStorageBatch,
    ReadComposerBoot,
    FlushStorage,
    SetTimer,
}

/// One effect of the chat's rules, as far as routing reads it.
pub enum Effect {
    Host(HostEffect),
    SendRpc { request_id: u64, method: String, params: Option<KeyedMap<Json>> },
    Subscribe { limit: u64, catalog: bool },
    Unsubscribe,
    Reconnect,
    SetComposerText { content: String, caret: Option<u64>, from_history: bool },
    ClearComposerIfUnchanged { text: String },
    OpenUrl { url: String },
    OpenFile { path: String, line: Option<u64>, column: Option<u64> },
    Copy { text: String },
    Toast { level: String, message: String },
    RestoreReturnedPrompt { text: String },
    MarkdownSaved { path: String },
    /// A host action. `params` holds its parameters when they are an object, and
    /// `reads_as_user_action` says whether the core reads them as one of its own user actions,
    /// which a `selectOption` needs to be replayed at the core.
    HostAction { action: String, params: Option<KeyedMap<Json>>, reads_as_user_action: bool },
    /// An effect this build does not know.
    Unknown,
}

/// The dispatch kind of a request to the view.
#[derive(Clone, Copy, Debug, PartialEq, Eq)]
pub enum RequestKind {
    Rpc,
    Broker,
    Composer,
    ComposerClearExpected,
    AttachmentReferences,
    ChatImage,
    DraftSubmitted,
    SubmissionFailed,
    DraftReceived,
    Host,
    ReturnedPrompt,
    MarkdownSaved,
    Other(&'static str),
}

/// One request to the view.
pub struct HostRequest {
    pub id: Option<u64>,
    pub kind: RequestKind,
    pub method: String,
    pub params: KeyedMap<Json>,
}

/// A request as the contracts speak of it.
pub struct RequestView {
    pub id: Option<u64>,
    pub kind: RequestKind,
    pub method: Seq<char>,
    pub params: Map<Seq<char>, JsonView>,
}

/// The view of a request.
pub open spec fn request_view(r: HostRequest) -> RequestView {
    RequestView { id: r.id, kind: r.kind, method: r.method@, params: params_view(r.params) }
}

/// Who performs one effect.
pub enum Routed {
    /// This host.
    Host(HostEffect),
    /// The view, through the frame's requests.
    Renderer(HostRequest),
    /// The rules themselves: a gesture they asked to have replayed at them, as its parameters.
    SelfAction(KeyedMap<Json>),
}

/// Where an effect goes, as the contracts speak of it.
pub enum RoutedView {
    Host(HostEffect),
    Renderer(RequestView),
    SelfAction(Map<Seq<char>, JsonView>),
}

/// The view of a routing.
pub open spec fn routed_view(r: Routed) -> RoutedView {
    match r {
        Routed::Host(e) => RoutedView::Host(e),
        Routed::Renderer(req) => RoutedView::Renderer(request_view(req)),
        Routed::SelfAction(p) => RoutedView::SelfAction(params_view(p)),
    }
}

/// The dispatch kind an effect this build does not know rides under.
pub open spec fn unrouted_kind() -> RequestKind {
    RequestKind::Other("unrouted")
}

/// The parameters of a payload: its members when it is an object, none otherwise.
pub open spec fn object_of(p: Option<KeyedMap<Json>>) -> Map<Seq<char>, JsonView> {
    match p {
        Some(m) => params_view(m),
        None => Map::empty(),
    }
}

/// The `method` a request's parameters carry as text, or `fallback`.
pub open spec fn method_or(params: Map<Seq<char>, JsonView>, fallback: Seq<char>) -> Seq<char> {
    if params.contains_key("method"@) {
        match params["method"@] {
            JsonView::Text(m) => m,
            _ => fallback,
        }
    } else {
        fallback
    }
}

/// `base` with each member put in where its key is not taken yet, in order.
pub open spec fn or_insert_members(
    members: Seq<(Seq<char>, Json)>,
    base: Map<Seq<char>, JsonView>,
) -> Map<Seq<char>, JsonView>
    decreases members.len(),
{
    if members.len() == 0 {
        base
    } else {
        let (k, v) = members[0];
        let next = if base.contains_key(k) {
            base
        } else {
            base.insert(k, json_view(v))
        };
        or_insert_members(members.drop_first(), next)
    }
}

/// The request one host action rides in.
pub open spec fn dispatched_of(action: Seq<char>, params: Map<Seq<char>, JsonView>) -> RequestView {
    if action == "attachmentReferences"@ {
        RequestView { id: None, kind: RequestKind::AttachmentReferences, method: "insert"@, params }
    } else if action == "chatImage"@ {
        let rest = params.remove("image"@);
        if params.contains_key("image"@) && params["image"@] is Object {
            RequestView {
                id: None,
                kind: RequestKind::ChatImage,
                method: "loaded"@,
                params: or_insert_members(params["image"@]->Object_0, rest),
            }
        } else {
            RequestView { id: None, kind: RequestKind::ChatImage, method: "failed"@, params: rest }
        }
    } else if action == "draftSubmitted"@ {
        RequestView {
            id: None,
            kind: RequestKind::DraftSubmitted,
            method: method_or(params, "send"@),
            params,
        }
    } else if action == "submissionFailed"@ {
        RequestView {
            id: None,
            kind: RequestKind::SubmissionFailed,
            method: method_or(params, "send"@),
            params,
        }
    } else if action == "draftReceived"@ {
        RequestView { id: None, kind: RequestKind::DraftReceived, method: "handoff"@, params }
    } else {
        RequestView { id: None, kind: RequestKind::Host, method: action, params }
    }
}

/// An `OpenFile` effect goes to the view as the `openFile` host request, and its parameters are
/// exactly the positions the effect names: the path always, the line and the column each when the
/// effect carries it, with the value it carries; nothing else.
pub proof fn law_open_file_carries_every_position(path: String, line: Option<u64>, column: Option<u64>)
    ensures
        route_of(Effect::OpenFile { path, line, column }) matches RoutedView::Renderer(r) && {
            &&& r.id is None
            &&& r.kind == RequestKind::Host
            &&& r.method == "openFile"@
            &&& r.params.contains_key("path"@) && r.params["path"@] == JsonView::Text(path@)
            &&& r.params.contains_key("line"@) <==> line is Some
            &&& line matches Some(l) ==> r.params["line"@] == JsonView::UInt(l)
            &&& r.params.contains_key("column"@) <==> column is Some
            &&& column matches Some(c) ==> r.params["column"@] == JsonView::UInt(c)
            &&& forall|k: Seq<char>|
                #[trigger] r.params.contains_key(k) ==> k == "path"@ || k == "line"@ || k == "column"@
        },
{
    reveal_strlit("openFile");
    reveal_strlit("attachmentReferences");
    reveal_strlit("chatImage");
    reveal_strlit("draftSubmitted");
    reveal_strlit("submissionFailed");
    reveal_strlit("draftReceived");
    reveal_strlit("path");
    reveal_strlit("line");
    reveal_strlit("column");
    assert("openFile"@[0] != "attachmentReferences"@[0]);
    assert("openFile"@[0] != "chatImage"@[0]);
    assert("openFile"@ != "draftSubmitted"@);
    assert("openFile"@ != "submissionFailed"@);
    assert("openFile"@ != "draftReceived"@);
    assert("line"@[0] != "path"@[0]);
    assert("column"@[0] != "path"@[0] && "column"@[0] != "line"@[0]);
}

/// Where each effect goes, as the contracts speak of it.
pub open spec fn route_of(effect: Effect) -> RoutedView {
    match effect {
        Effect::Host(e) => RoutedView::Host(e),
        Effect::SendRpc { request_id, method, params } => RoutedView::Renderer(
            RequestView {
                id: Some(request_id),
                kind: RequestKind::Rpc,
                method: method@,
                params: object_of(params),
            },
        ),
        Effect::Subscribe { limit, catalog } => RoutedView::Renderer(
            RequestView {
                id: None,
                kind: RequestKind::Broker,
                method: "subscribe"@,
                params: Map::empty().insert("limit"@, JsonView::UInt(limit)).insert(
                    "catalog"@,
                    JsonView::Bool(catalog),
                ),
            },
        ),
        Effect::Unsubscribe => RoutedView::Renderer(
            RequestView { id: None, kind: RequestKind::Broker, method: "unsubscribe"@, params: Map::empty() },
        ),
        Effect::Reconnect => RoutedView::Renderer(
            RequestView { id: None, kind: RequestKind::Broker, method: "reconnect"@, params: Map::empty() },
        ),
        Effect::SetComposerText { content, caret, from_history } => RoutedView::Renderer(
            RequestView {
                id: None,
                kind: RequestKind::Composer,
                method: if from_history { "history"@ } else { "insert"@ },
                params: Map::empty().insert("content"@, JsonView::Text(content@)).insert(
                    "caret"@,
                    match caret {
                        Some(c) => JsonView::UInt(c),
                        None => JsonView::Null,
                    },
                ),
            },
        ),
        Effect::ClearComposerIfUnchanged { text } => RoutedView::Renderer(
            RequestView {
                id: None,
                kind: RequestKind::ComposerClearExpected,
                method: Seq::empty(),
                params: Map::empty().insert("text"@, JsonView::Text(text@)),
            },
        ),
        Effect::OpenUrl { url } => RoutedView::Renderer(
            dispatched_of("openLink"@, Map::empty().insert("url"@, JsonView::Text(url@))),
        ),
        Effect::OpenFile { path, line, column } => {
            let with_path = Map::empty().insert("path"@, JsonView::Text(path@));
            let with_line = match line {
                Some(l) => with_path.insert("line"@, JsonView::UInt(l)),
                None => with_path,
            };
            let with_column = match column {
                Some(c) => with_line.insert("column"@, JsonView::UInt(c)),
                None => with_line,
            };
            RoutedView::Renderer(dispatched_of("openFile"@, with_column))
        },
        Effect::Copy { text } => RoutedView::Renderer(
            RequestView {
                id: None,
                kind: RequestKind::Other("copy"),
                method: Seq::empty(),
                params: Map::empty().insert("text"@, JsonView::Text(text@)),
            },
        ),
        Effect::Toast { level, message } => RoutedView::Renderer(
            RequestView {
                id: None,
                kind: RequestKind::Other("toast"),
                method: Seq::empty(),
                params: Map::empty().insert("level"@, JsonView::Text(level@)).insert(
                    "message"@,
                    JsonView::Text(message@),
                ),
            },
        ),
        Effect::RestoreReturnedPrompt { text } => RoutedView::Renderer(
            RequestView {
                id: None,
                kind: RequestKind::ReturnedPrompt,
                method: "restore"@,
                params: Map::empty().insert("text"@, JsonView::Text(text@)),
            },
        ),
        Effect::MarkdownSaved { path } => RoutedView::Renderer(
            RequestView {
                id: None,
                kind: RequestKind::MarkdownSaved,
                method: Seq::empty(),
                params: Map::empty().insert("path"@, JsonView::Text(path@)),
            },
        ),
        Effect::HostAction { action, params, reads_as_user_action } => if action@ == "selectOption"@ {
            match params {
                Some(p) => if reads_as_user_action {
                    RoutedView::SelfAction(params_view(p))
                } else {
                    RoutedView::Renderer(unrouted_view())
                },
                None => RoutedView::Renderer(unrouted_view()),
            }
        } else {
            RoutedView::Renderer(dispatched_of(action@, object_of(params)))
        },
        Effect::Unknown => RoutedView::Renderer(unrouted_view()),
    }
}

/// The request an effect this build cannot route rides in: no id, no method, no parameters.
pub open spec fn unrouted_view() -> RequestView {
    RequestView { id: None, kind: unrouted_kind(), method: Seq::empty(), params: Map::empty() }
}

/// Whether every parameter map an effect carries is well formed.
pub open spec fn effect_well_formed(effect: Effect) -> bool {
    match effect {
        Effect::SendRpc { params, .. } => params is Some ==> params->0.well_formed(),
        Effect::HostAction { params, .. } => params is Some ==> params->0.well_formed(),
        _ => true,
    }
}

/// Mapping each value of a map through `json_view` commutes with putting one key in.
proof fn lemma_view_insert(before: Map<Seq<char>, Json>, key: Seq<char>, value: Json)
    ensures
        before.insert(key, value).map_values(|j: Json| json_view(j)) == before.map_values(
            |j: Json| json_view(j),
        ).insert(key, json_view(value)),
{
    assert(before.insert(key, value).map_values(|j: Json| json_view(j)) =~= before.map_values(
        |j: Json| json_view(j),
    ).insert(key, json_view(value)));
}

/// Mapping each value of a map through `json_view` commutes with taking one key out.
proof fn lemma_view_remove(before: Map<Seq<char>, Json>, key: Seq<char>)
    ensures
        before.remove(key).map_values(|j: Json| json_view(j)) == before.map_values(
            |j: Json| json_view(j),
        ).remove(key),
{
    assert(before.remove(key).map_values(|j: Json| json_view(j)) =~= before.map_values(
        |j: Json| json_view(j),
    ).remove(key));
}

/// Puts `value` under `key`, replacing what was there.
pub fn put(params: &mut KeyedMap<Json>, key: &str, value: Json)
    requires
        old(params).well_formed(),
    ensures
        final(params).well_formed(),
        params_view(*final(params)) == params_view(*old(params)).insert(key@, json_view(value)),
{
    let ghost before = params.as_map();
    let ghost stored = value;
    let (i, found) = params.locate(key);
    if found {
        params.set_value_at(i, value);
    } else {
        params.insert_new(String::from_str(key), value);
    }
    proof {
        lemma_view_insert(before, key@, stored);
    }
}

/// The parameters with no members.
fn no_params() -> (params: KeyedMap<Json>)
    ensures
        params.well_formed(),
        params_view(params) == Map::<Seq<char>, JsonView>::empty(),
{
    let params = KeyedMap::new();
    proof {
        assert(params.as_map() =~= Map::empty());
        assert(params_view(params) =~= Map::empty());
    }
    params
}

/// The request's `method` text, or `fallback` when it carries none.
fn method_text(params: &KeyedMap<Json>, fallback: &str) -> (method: String)
    requires
        params.well_formed(),
    ensures
        method@ == method_or(params_view(*params), fallback@),
{
    match params.index_of("method") {
        Some(i) => {
            proof {
                params.lemma_key_index(i as int);
            }
            match &params.entries[i].1 {
                Json::Text(m) => m.clone(),
                _ => String::from_str(fallback),
            }
        },
        None => String::from_str(fallback),
    }
}

/// Puts each member in where its key is not taken yet, in order.
fn or_insert_all(params: &mut KeyedMap<Json>, members: Vec<(String, Json)>)
    requires
        old(params).well_formed(),
    ensures
        final(params).well_formed(),
        params_view(*final(params)) == or_insert_members(
            members@.map_values(|m: (String, Json)| (m.0@, m.1)),
            params_view(*old(params)),
        ),
{
    let mut rest = members;
    let ghost target = or_insert_members(
        members@.map_values(|m: (String, Json)| (m.0@, m.1)),
        params_view(*params),
    );
    while rest.len() > 0
        invariant
            params.well_formed(),
            or_insert_members(
                rest@.map_values(|m: (String, Json)| (m.0@, m.1)),
                params_view(*params),
            ) == target,
        decreases rest@.len(),
    {
        let ghost seen = rest@.map_values(|m: (String, Json)| (m.0@, m.1));
        let (key, value) = rest.remove(0);
        proof {
            assert(rest@.map_values(|m: (String, Json)| (m.0@, m.1))
                =~= seen.drop_first());
        }
        let (i, found) = params.locate(key.as_str());
        if !found {
            let ghost before = params.as_map();
            proof {
                assert(!params_view(*params).contains_key(key@));
            }
            let ghost stored = value;
            params.insert_new(key, value);
            proof {
                lemma_view_insert(before, seen[0].0, stored);
            }
        } else {
            proof {
                params.lemma_key_index(i as int);
                assert(params_view(*params).contains_key(key@));
            }
        }
    }
}

/// The request one host action rides in.
pub fn dispatched(action: &str, params: KeyedMap<Json>) -> (request: HostRequest)
    requires
        params.well_formed(),
    ensures
        request.params.well_formed(),
        request_view(request) == dispatched_of(action@, params_view(params)),
{
    let mut params = params;
    if same_text(action, "attachmentReferences") {
        HostRequest {
            id: None,
            kind: RequestKind::AttachmentReferences,
            method: String::from_str("insert"),
            params,
        }
    } else if same_text(action, "chatImage") {
        let ghost before = params;
        let image = match params.index_of("image") {
            Some(i) => {
                proof {
                    params.lemma_key_index(i as int);
                }
                let (_, value) = params.remove_at(i);
                proof {
                    lemma_view_remove(before.as_map(), "image"@);
                }
                Some(value)
            },
            None => {
                proof {
                    assert(params.as_map().remove("image"@) =~= params.as_map());
                    lemma_view_remove(before.as_map(), "image"@);
                }
                None
            },
        };
        match image {
            Some(Json::Object(members)) => {
                or_insert_all(&mut params, members);
                HostRequest {
                    id: None,
                    kind: RequestKind::ChatImage,
                    method: String::from_str("loaded"),
                    params,
                }
            },
            _ => HostRequest {
                id: None,
                kind: RequestKind::ChatImage,
                method: String::from_str("failed"),
                params,
            },
        }
    } else if same_text(action, "draftSubmitted") {
        let method = method_text(&params, "send");
        HostRequest { id: None, kind: RequestKind::DraftSubmitted, method, params }
    } else if same_text(action, "submissionFailed") {
        let method = method_text(&params, "send");
        HostRequest { id: None, kind: RequestKind::SubmissionFailed, method, params }
    } else if same_text(action, "draftReceived") {
        HostRequest {
            id: None,
            kind: RequestKind::DraftReceived,
            method: String::from_str("handoff"),
            params,
        }
    } else {
        HostRequest { id: None, kind: RequestKind::Host, method: String::from_str(action), params }
    }
}

/// The request an effect this build cannot route rides in: the view draws nothing for it and the
/// counters count it.
pub fn unrouted_request() -> (request: HostRequest)
    ensures
        request.params.well_formed(),
        request_view(request) == unrouted_view(),
{
    let params = no_params();
    HostRequest { id: None, kind: RequestKind::Other("unrouted"), method: String::new(), params }
}

/// One text parameter.
fn text_param(key: &str, text: String) -> (params: KeyedMap<Json>)
    ensures
        params.well_formed(),
        params_view(params) == Map::<Seq<char>, JsonView>::empty().insert(
            key@,
            JsonView::Text(text@),
        ),
{
    let mut params = no_params();
    put(&mut params, key, Json::Text(text));
    params
}

/// Sorts one effect into its performer.
pub fn route(effect: Effect) -> (routed: Routed)
    requires
        effect_well_formed(effect),
    ensures
        routed_view(routed) == route_of(effect),
        routed matches Routed::Renderer(r) ==> r.params.well_formed(),
        routed matches Routed::SelfAction(p) ==> p.well_formed(),
{
    match effect {
        Effect::Host(e) => Routed::Host(e),
        Effect::SendRpc { request_id, method, params } => {
            let params = match params {
                Some(p) => p,
                None => no_params(),
            };
            Routed::Renderer(HostRequest { id: Some(request_id), kind: RequestKind::Rpc, method, params })
        },
        Effect::Subscribe { limit, catalog } => {
            let mut params = no_params();
            put(&mut params, "limit", Json::UInt(limit));
            put(&mut params, "catalog", Json::Bool(catalog));
            Routed::Renderer(
                HostRequest {
                    id: None,
                    kind: RequestKind::Broker,
                    method: String::from_str("subscribe"),
                    params,
                },
            )
        },
        Effect::Unsubscribe => Routed::Renderer(
            HostRequest {
                id: None,
                kind: RequestKind::Broker,
                method: String::from_str("unsubscribe"),
                params: no_params(),
            },
        ),
        Effect::Reconnect => Routed::Renderer(
            HostRequest {
                id: None,
                kind: RequestKind::Broker,
                method: String::from_str("reconnect"),
                params: no_params(),
            },
        ),
        Effect::SetComposerText { content, caret, from_history } => {
            let mut params = text_param("content", content);
            let caret_value = match caret {
                Some(c) => Json::UInt(c),
                None => Json::Null,
            };
            put(&mut params, "caret", caret_value);
            let method = if from_history {
                String::from_str("history")
            } else {
                String::from_str("insert")
            };
            Routed::Renderer(HostRequest { id: None, kind: RequestKind::Composer, method, params })
        },
        Effect::ClearComposerIfUnchanged { text } => Routed::Renderer(
            HostRequest {
                id: None,
                kind: RequestKind::ComposerClearExpected,
                method: String::new(),
                params: text_param("text", text),
            },
        ),
        Effect::OpenUrl { url } => Routed::Renderer(dispatched("openLink", text_param("url", url))),
        Effect::OpenFile { path, line, column } => {
            let mut params = text_param("path", path);
            match line {
                Some(l) => put(&mut params, "line", Json::UInt(l)),
                None => {},
            }
            match column {
                Some(c) => put(&mut params, "column", Json::UInt(c)),
                None => {},
            }
            Routed::Renderer(dispatched("openFile", params))
        },
        Effect::Copy { text } => Routed::Renderer(
            HostRequest {
                id: None,
                kind: RequestKind::Other("copy"),
                method: String::new(),
                params: text_param("text", text),
            },
        ),
        Effect::Toast { level, message } => {
            let mut params = text_param("level", level);
            put(&mut params, "message", Json::Text(message));
            Routed::Renderer(
                HostRequest {
                    id: None,
                    kind: RequestKind::Other("toast"),
                    method: String::new(),
                    params,
                },
            )
        },
        Effect::RestoreReturnedPrompt { text } => Routed::Renderer(
            HostRequest {
                id: None,
                kind: RequestKind::ReturnedPrompt,
                method: String::from_str("restore"),
                params: text_param("text", text),
            },
        ),
        Effect::MarkdownSaved { path } => Routed::Renderer(
            HostRequest {
                id: None,
                kind: RequestKind::MarkdownSaved,
                method: String::new(),
                params: text_param("path", path),
            },
        ),
        Effect::HostAction { action, params, reads_as_user_action } => {
            if same_text(action.as_str(), "selectOption") {
                match params {
                    Some(p) => if reads_as_user_action {
                        Routed::SelfAction(p)
                    } else {
                        Routed::Renderer(unrouted_request())
                    },
                    None => Routed::Renderer(unrouted_request()),
                }
            } else {
                let params = match params {
                    Some(p) => p,
                    None => no_params(),
                };
                Routed::Renderer(dispatched(action.as_str(), params))
            }
        },
        Effect::Unknown => Routed::Renderer(unrouted_request()),
    }
}

} // verus!
