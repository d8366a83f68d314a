//! The chat host's own rules around the chat brain: what each effect is counted as, how a drive
//! pass sorts what the brain asked for, what a handoff's send carries, and how much a chat with no
//! view may owe before it is released.
//!
//! The brain itself, the worker thread and the storage it performs against stay with the caller;
//! what is decided between them is here.

use vstd::prelude::*;

use crate::effects::{
    Effect, HostEffect, HostRequest, Json, JsonView, RequestKind, RequestView, Routed, RoutedView,
    effect_well_formed, json_view, params_view, put, request_view, route, route_of,
};
use crate::json_fields::{member, member_of};
use crate::keyed::KeyedMap;
use crate::refusals::count_of;
use crate::text::same_text;

verus! {

broadcast use vstd::string::group_string_axioms;

/// How many rounds of answers one drive pass feeds back into the brain before it stops.
pub const MAX_SETTLE_ROUNDS: usize = 12;

/// How many requests a chat with no attached view may owe before the chat is released.
pub const MAX_HELD_REQUESTS: usize = 128;

/// The counter name of one effect: its variant, never its payload.
pub open spec fn effect_name_of(effect: Effect) -> &'static str {
    match effect {
        Effect::SendRpc { .. } => "sendRpc",
        Effect::Subscribe { .. } => "subscribe",
        Effect::Unsubscribe => "unsubscribe",
        Effect::Reconnect => "reconnect",
        Effect::Host(HostEffect::ReadStorage) => "readStorage",
        Effect::Host(HostEffect::ReadStorageBatch) => "readStorageBatch",
        Effect::Host(HostEffect::ReadComposerBoot) => "readComposerBoot",
        Effect::Host(HostEffect::WriteStorage) => "writeStorage",
        Effect::Host(HostEffect::WriteStorageBatch) => "writeStorageBatch",
        Effect::Host(HostEffect::FlushStorage) => "flushStorage",
        Effect::Host(HostEffect::SetTimer) => "setTimer",
        Effect::SetComposerText { .. } => "setComposerText",
        Effect::ClearComposerIfUnchanged { .. } => "clearComposerIfUnchanged",
        Effect::OpenUrl { .. } => "open",
        Effect::OpenFile { .. } => "open",
        Effect::Copy { .. } => "copy",
        Effect::Toast { .. } => "toast",
        Effect::RestoreReturnedPrompt { .. } => "restoreReturnedPrompt",
        Effect::MarkdownSaved { .. } => "markdownSaved",
        Effect::HostAction { .. } => "hostAction",
        Effect::Unknown => "unrouted",
    }
}

/// The counter name of one effect.
pub fn effect_name(effect: &Effect) -> (name: &'static str)
    ensures
        name == effect_name_of(*effect),
{
    match effect {
        Effect::SendRpc { .. } => "sendRpc",
        Effect::Subscribe { .. } => "subscribe",
        Effect::Unsubscribe => "unsubscribe",
        Effect::Reconnect => "reconnect",
        Effect::Host(HostEffect::ReadStorage) => "readStorage",
        Effect::Host(HostEffect::ReadStorageBatch) => "readStorageBatch",
        Effect::Host(HostEffect::ReadComposerBoot) => "readComposerBoot",
        Effect::Host(HostEffect::WriteStorage) => "writeStorage",
        Effect::Host(HostEffect::WriteStorageBatch) => "writeStorageBatch",
        Effect::Host(HostEffect::FlushStorage) => "flushStorage",
        Effect::Host(HostEffect::SetTimer) => "setTimer",
        Effect::SetComposerText { .. } => "setComposerText",
        Effect::ClearComposerIfUnchanged { .. } => "clearComposerIfUnchanged",
        Effect::OpenUrl { .. } => "open",
        Effect::OpenFile { .. } => "open",
        Effect::Copy { .. } => "copy",
        Effect::Toast { .. } => "toast",
        Effect::RestoreReturnedPrompt { .. } => "restoreReturnedPrompt",
        Effect::MarkdownSaved { .. } => "markdownSaved",
        Effect::HostAction { .. } => "hostAction",
        Effect::Unknown => "unrouted",
    }
}

/// Whether `c` is a lower-case hexadecimal digit.
pub open spec fn is_lower_hex(c: char) -> bool {
    ('0' <= c && c <= '9') || ('a' <= c && c <= 'f')
}

/// The shape of a random version-4 UUID in its hyphenated lower-case form: 36 characters, hyphens
/// at 8, 13, 18 and 23, the version digit `4` at 14, lower-case hex digits everywhere else.
pub open spec fn is_v4_text(id: Seq<char>) -> bool {
    &&& id.len() == 36
    &&& forall|i: int|
        0 <= i < 36 ==> if i == 8 || i == 13 || i == 18 || i == 23 {
            #[trigger] id[i] == '-'
        } else {
            is_lower_hex(id[i])
        }
    &&& id[14] == '4'
}

/// A fresh random draft id: `uuid::Uuid::new_v4`, printed with `to_string`.
///
/// The value is random, so nothing ties it to anything; what is stated is the printed shape,
/// which `uuid`'s hyphenated lower-hex formatter and the version bits that `new_v4` sets fix.
#[verifier::external_body]
fn new_draft_id() -> (id: String)
    ensures
        is_v4_text(id@),
{
    uuid::Uuid::new_v4().to_string()
}

/// A fresh draft identity at revision 1: `{draftId, revision: 1}`.
pub fn next_draft_version() -> (version: Json)
    ensures
        version matches Json::Object(members) && members@.len() == 2 && members@[0].0@
            == "draftId"@ && members@[1].0@ == "revision"@ && members@[1].1 == Json::UInt(1)
            && (members@[0].1 matches Json::Text(id) && is_v4_text(id@)),
{
    let id = new_draft_id();
    let mut members: Vec<(String, Json)> = Vec::new();
    members.push((String::from_str("draftId"), Json::Text(id)));
    members.push((String::from_str("revision"), Json::UInt(1)));
    Json::Object(members)
}

/// What a parked handoff left for the send that follows it.
pub struct ParkedHandoff {
    pub handoff_id: String,
    pub content: String,
    pub draft_version: Json,
}

/// The parameters a handoff's send carries once its park answer is merged in.
pub open spec fn with_park(params: Map<Seq<char>, JsonView>, park: ParkedHandoff) -> Map<
    Seq<char>,
    JsonView,
> {
    params.insert("handoffId"@, JsonView::Text(park.handoff_id@)).insert(
        "content"@,
        JsonView::Text(park.content@),
    ).insert("draftVersion"@, json_view(park.draft_version))
}

/// A request on its way to the view, with what the host mints merged in: every sent draft adopts
/// `next_version`, and a handoff's send also carries what its park left.
pub open spec fn adopted_of(
    request: RequestView,
    parked: Map<Seq<char>, ParkedHandoff>,
    key: Seq<char>,
    next_version: JsonView,
) -> RequestView {
    if request.kind != RequestKind::DraftSubmitted {
        request
    } else {
        let with_version = request.params.insert("nextVersion"@, next_version);
        let params = if request.method == "handoff"@ && parked.contains_key(key) {
            with_park(with_version, parked[key])
        } else {
            with_version
        };
        RequestView { id: request.id, kind: request.kind, method: request.method, params }
    }
}

/// The parked handoffs once `request` went past: a handoff's send takes its chat's park.
pub open spec fn parked_after(
    request: RequestView,
    parked: Map<Seq<char>, ParkedHandoff>,
    key: Seq<char>,
) -> Map<Seq<char>, ParkedHandoff> {
    if request.kind == RequestKind::DraftSubmitted && request.method == "handoff"@ {
        parked.remove(key)
    } else {
        parked
    }
}

/// Merges what the host minted into a sent draft's request.
pub fn adopt_park_answer(
    parked: &mut KeyedMap<ParkedHandoff>,
    key: &str,
    request: HostRequest,
    next_version: Json,
) -> (adopted: HostRequest)
    requires
        old(parked).well_formed(),
        request.params.well_formed(),
    ensures
        final(parked).well_formed(),
        adopted.params.well_formed(),
        request_view(adopted) == adopted_of(
            request_view(request),
            old(parked).as_map(),
            key@,
            json_view(next_version),
        ),
        final(parked).as_map() == parked_after(request_view(request), old(parked).as_map(), key@),
{
    match request.kind {
        RequestKind::DraftSubmitted => {},
        _ => {
            return request;
        },
    }
    let mut request = request;
    put(&mut request.params, "nextVersion", next_version);
    if !same_text(request.method.as_str(), "handoff") {
        return request;
    }
    match parked.index_of(key) {
        Some(i) => {
            proof {
                parked.lemma_key_index(i as int);
            }
            let (_, park) = parked.remove_at(i);
            put(&mut request.params, "handoffId", Json::Text(park.handoff_id));
            put(&mut request.params, "content", Json::Text(park.content));
            put(&mut request.params, "draftVersion", park.draft_version);
        },
        None => {
            proof {
                assert(parked.as_map().remove(key@) =~= parked.as_map());
            }
        },
    }
    request
}

/// What a chat with no attached view did with the requests it owed.
pub enum HoldOutcome {
    /// Kept, to go out when a view attaches.
    Held,
    /// Too many: the chat is released, and this many requests are forgotten with it.
    Released { forgotten: u64 },
}

/// Keeps what a chat with no attached view owes one, and releases the chat when it owes more than
/// [`MAX_HELD_REQUESTS`]: the whole chat goes, never single requests.
pub fn hold(held: &mut Vec<HostRequest>, requests: Vec<HostRequest>) -> (outcome: HoldOutcome)
    ensures
        requests@.len() == 0 ==> outcome is Held && final(held)@ == old(held)@,
        requests@.len() > 0 && old(held)@.len() + requests@.len() <= MAX_HELD_REQUESTS ==> outcome is Held
            && final(held)@ == old(held)@ + requests@,
        requests@.len() > 0 && old(held)@.len() + requests@.len() > MAX_HELD_REQUESTS ==> outcome
            == (HoldOutcome::Released { forgotten: (old(held)@.len() + requests@.len()) as u64 })
            && final(held)@.len() == 0,
        old(held)@.len() <= MAX_HELD_REQUESTS ==> final(held)@.len() <= MAX_HELD_REQUESTS,
{
    if requests.len() == 0 {
        return HoldOutcome::Held;
    }
    let mut requests = requests;
    held.append(&mut requests);
    if held.len() <= MAX_HELD_REQUESTS {
        return HoldOutcome::Held;
    }
    let forgotten = held.len() as u64;
    held.clear();
    HoldOutcome::Released { forgotten }
}

/// Whether a drive pass feeds another round of answers back into the brain.
pub fn settle_continues(pending: usize, rounds: usize) -> (more: bool)
    ensures
        more == (pending > 0 && rounds < MAX_SETTLE_ROUNDS),
{
    pending > 0 && rounds < MAX_SETTLE_ROUNDS
}

/// What the host counts of the effects it saw.
pub struct EffectCounters {
    /// Effects performed or forwarded, by [`effect_name`].
    pub effects: KeyedMap<u64>,
    /// Effects this build has no arm for.
    pub effects_unrouted: u64,
}

/// Where one effect went in a drive pass.
pub enum Performer {
    /// Performed by this host.
    Host(HostEffect),
    /// Sent to the view.
    Request(HostRequest),
    /// Fed back into the brain as a gesture, with these parameters.
    Answer(KeyedMap<Json>),
}

/// Whether a routing is the request an effect this build cannot route rides in.
pub open spec fn counts_as_unrouted(routed: RoutedView) -> bool {
    match routed {
        RoutedView::Renderer(r) => match r.kind {
            RequestKind::Other(k) => k@ == "unrouted"@,
            _ => false,
        },
        _ => false,
    }
}

/// Counts `name` once more.
pub fn bump(counts: &mut KeyedMap<u64>, name: &str)
    requires
        old(counts).well_formed(),
        count_of(old(counts).as_map(), name@) < u64::MAX,
    ensures
        final(counts).well_formed(),
        final(counts).as_map() == old(counts).as_map().insert(
            name@,
            (count_of(old(counts).as_map(), name@) + 1) as u64,
        ),
{
    let (at, found) = counts.locate(name);
    if found {
        proof {
            counts.lemma_key_index(at as int);
        }
        let held = counts.entries[at].1;
        counts.set_value_at(at, held + 1);
    } else {
        counts.insert_new(String::from_str(name), 1);
    }
}

/// Sorts one effect of a drive pass: counts it, routes it, and merges what the host minted into a
/// request on its way to the view.
pub fn take_effect(
    counters: &mut EffectCounters,
    parked: &mut KeyedMap<ParkedHandoff>,
    key: &str,
    effect: Effect,
    next_version: Json,
) -> (performer: Performer)
    requires
        old(counters).effects.well_formed(),
        count_of(old(counters).effects.as_map(), effect_name_of(effect)@) < u64::MAX,
        old(counters).effects_unrouted < u64::MAX,
        old(parked).well_formed(),
        effect_well_formed(effect),
    ensures
        final(counters).effects.well_formed(),
        final(parked).well_formed(),
        final(counters).effects.as_map() == old(counters).effects.as_map().insert(
            effect_name_of(effect)@,
            (count_of(old(counters).effects.as_map(), effect_name_of(effect)@) + 1) as u64,
        ),
        final(counters).effects_unrouted == old(counters).effects_unrouted + (if counts_as_unrouted(
            route_of(effect),
        ) {
            1int
        } else {
            0int
        }),
        match route_of(effect) {
            RoutedView::Host(e) => performer == Performer::Host(e) && final(parked).as_map()
                == old(parked).as_map(),
            RoutedView::SelfAction(p) => performer matches Performer::Answer(a) && a.well_formed()
                && params_view(a) == p && final(parked).as_map() == old(parked).as_map(),
            RoutedView::Renderer(r) => performer matches Performer::Request(q)
                && q.params.well_formed() && request_view(q) == adopted_of(
                r,
                old(parked).as_map(),
                key@,
                json_view(next_version),
            ) && final(parked).as_map() == parked_after(r, old(parked).as_map(), key@),
        },
{
    let name = effect_name(&effect);
    bump(&mut counters.effects, name);
    let routed = route(effect);
    match routed {
        Routed::Host(e) => Performer::Host(e),
        Routed::SelfAction(p) => Performer::Answer(p),
        Routed::Renderer(request) => {
            match request.kind {
                RequestKind::Other(kind) => {
                    if same_text(kind, "unrouted") {
                        counters.effects_unrouted = counters.effects_unrouted + 1;
                    }
                },
                _ => {},
            }
            Performer::Request(adopt_park_answer(parked, key, request, next_version))
        },
    }
}

/// When a chat's timer wakes it next.
#[derive(Clone, Copy, Debug, PartialEq, Eq)]
pub enum WakePlan {
    /// This many milliseconds from now: never sooner than one, so a zero delay still yields.
    After(u64),
    /// Never: the brain cancelled its timer.
    Cancel,
}

/// What a `SetTimer` effect books.
pub fn wake_plan(delay_ms: Option<u64>) -> (plan: WakePlan)
    ensures
        plan == match delay_ms {
            Some(d) => WakePlan::After(if d < 1 {
                1
            } else {
                d
            }),
            None => WakePlan::Cancel,
        },
{
    match delay_ms {
        Some(d) => if d < 1 {
            WakePlan::After(1)
        } else {
            WakePlan::After(d)
        },
        None => WakePlan::Cancel,
    }
}

/// How many of the writes were refused.
pub open spec fn refused_count(refusals: Seq<Option<&'static str>>) -> nat
    decreases refusals.len(),
{
    if refusals.len() == 0 {
        0
    } else {
        refused_count(refusals.drop_last()) + if refusals.last() is Some {
            1nat
        } else {
            0nat
        }
    }
}

/// The reason of the first refused write.
pub open spec fn first_refusal(refusals: Seq<Option<&'static str>>) -> Option<&'static str>
    decreases refusals.len(),
{
    if refusals.len() == 0 {
        None
    } else {
        match first_refusal(refusals.drop_last()) {
            Some(r) => Some(r),
            None => refusals.last(),
        }
    }
}

/// The one answer a batch of writes gets: the writes went out in the order given, each refusal is
/// counted, and the first one names the failure.
pub fn batch_outcome(refusals: &Vec<Option<&'static str>>) -> (outcome: (u64, Option<&'static str>))
    requires
        refusals@.len() < u64::MAX,
    ensures
        outcome.0 == refused_count(refusals@),
        outcome.1 == first_refusal(refusals@),
{
    let mut refused: u64 = 0;
    let mut first: Option<&'static str> = None;
    let mut i: usize = 0;
    while i < refusals.len()
        invariant
            0 <= i <= refusals@.len(),
            refusals@.len() < u64::MAX,
            refused == refused_count(refusals@.take(i as int)),
            refused <= i,
            first == first_refusal(refusals@.take(i as int)),
        decreases refusals@.len() - i,
    {
        proof {
            assert(refusals@.take(i + 1).drop_last() =~= refusals@.take(i as int));
            assert(refusals@.take(i + 1).last() == refusals@[i as int]);
        }
        match refusals[i] {
            Some(reason) => {
                refused = refused + 1;
                if first.is_none() {
                    first = Some(reason);
                }
            },
            None => {},
        }
        i = i + 1;
    }
    proof {
        assert(refusals@.take(refusals@.len() as int) =~= refusals@);
    }
    (refused, first)
}

/// Whether a drained frame carries a change: any of its five change channels, or a request.
pub open spec fn carries_change_of(frame: Seq<(String, Json)>) -> bool {
    ||| member_of(frame, "itemsSplice"@) is Some
    ||| member_of(frame, "minimap"@) is Some
    ||| member_of(frame, "subagentSplice"@) is Some
    ||| member_of(frame, "rowDetails"@) is Some
    ||| member_of(frame, "snapshot"@) is Some
    ||| member_of(frame, "requests"@) matches Some(Json::Array(r)) && r@.len() > 0
}

/// Whether a drain is worth posting. All six channels count: a drain whose only change is the
/// minimap or the subagent splice is posted too, or it would never be sent again.
pub fn envelope_carries_change(frame: &Vec<(String, Json)>) -> (carries: bool)
    ensures
        carries == carries_change_of(frame@),
{
    if member(frame, "itemsSplice").is_some() || member(frame, "minimap").is_some() || member(
        frame,
        "subagentSplice",
    ).is_some() || member(frame, "rowDetails").is_some() || member(frame, "snapshot").is_some() {
        return true;
    }
    match member(frame, "requests") {
        Some(Json::Array(r)) => r.len() > 0,
        _ => false,
    }
}

} // verus!
