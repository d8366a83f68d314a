//! The shadow comparison of the old runtime's tab list with the store's: which tabs only one side
//! lists, which fields of a shared tab differ, and whether the same tabs stand in another order.
//!
//! Titles and directories are compared in memory; what comes out names ids and field names only.
//! Each list of names is cut at 24. A difference is only reported once it has lasted: a publish
//! that repeats the difference already waiting keeps its clock, and a difference that is gone when
//! it is judged again was one side being a few frames ahead.

use vstd::prelude::*;

use crate::text::same_text;

verus! {

broadcast use vstd::string::group_string_axioms;

/// Most ids one record names per list.
pub const MAX_SHADOW_IDS: usize = 24;
/// Shapes of confirmed differences remembered for the distinct count.
pub const MAX_CONFIRMED_SIGNATURES: usize = 1024;

/// A tab's session: on a remote machine, or on this computer when `machine_id` is `None`.
#[derive(Clone, Debug, PartialEq, Eq)]
pub struct TabKey {
    pub machine_id: Option<String>,
    pub project_id: String,
    pub session_id: String,
}

/// One tab as the old runtime published it, reduced to what both sides have.
#[derive(Clone, Debug, PartialEq, Eq)]
pub struct OldTab {
    pub key: TabKey,
    pub title: String,
    pub activity: String,
    pub is_sleeping: bool,
    pub is_draft: bool,
    pub is_generating_first_prompt_title: bool,
    pub working_directory: Option<String>,
    pub agent_icon: Option<String>,
    pub agent_name: Option<String>,
    pub agent_session_id: Option<String>,
    pub has_session_note: bool,
    pub stashed_prompt_count: u64,
    pub has_switchable_agents: bool,
}

/// One tab as the store lists it, with its activity in the old bridge's words and its agent icon
/// resolved the way the old runtime resolves it.
#[derive(Clone, Debug, PartialEq, Eq)]
pub struct StoreTab {
    pub key: TabKey,
    pub title: String,
    pub activity: String,
    pub is_sleeping: bool,
    pub is_draft: bool,
    pub is_generating_first_prompt_title: bool,
    pub working_directory: Option<String>,
    pub resolved_agent_icon: Option<String>,
    pub agent_name: Option<String>,
    pub agent_session_id: Option<String>,
    pub has_session_note: bool,
    pub stashed_prompt_count: Option<u64>,
    pub has_switchable_agents: bool,
}

/// A confirmed difference between the two tab lists: ids and field names, nothing else.
#[derive(Clone, Debug, PartialEq, Eq, Hash)]
pub struct ShadowMismatch {
    /// The sidebar group id of the store's active group.
    pub store_group: String,
    pub old_tab_count: usize,
    pub store_tab_count: usize,
    /// `<project id>:<session id>` of the tabs only one side lists.
    pub only_old: Vec<String>,
    pub only_store: Vec<String>,
    /// Both sides list the same tabs in another order.
    pub order_differs: bool,
    /// Per tab both sides list: the names of the fields that differ.
    pub fields: Vec<(String, Vec<&'static str>)>,
}

/// What one comparison found.
pub enum Comparison {
    /// The store cannot answer yet, the two sides are on different projects, or the old runtime
    /// sent no tab list.
    NotComparable,
    /// The lists agree; this many shared tabs resolve their agent icon differently.
    Match { icon_differences: u64 },
    Mismatch(ShadowMismatch),
}

/// The view of an optional string.
pub open spec fn opt_view(s: Option<String>) -> Option<Seq<char>> {
    match s {
        Some(t) => Some(t@),
        None => None,
    }
}

/// The view of a tab's session.
pub open spec fn key_view(k: TabKey) -> (Option<Seq<char>>, Seq<char>, Seq<char>) {
    (opt_view(k.machine_id), k.project_id@, k.session_id@)
}

/// How a tab is named in a record: `<project id>:<session id>`.
pub open spec fn label_of(k: TabKey) -> Seq<char> {
    k.project_id@ + ":"@ + k.session_id@
}

/// `s`, with `name` added when the two sides are not the same.
pub open spec fn note_field(s: Seq<&'static str>, name: &'static str, same: bool) -> Seq<
    &'static str,
> {
    if same {
        s
    } else {
        s.push(name)
    }
}

/// The names of the fields whose values differ, in a fixed order.
pub open spec fn differing_fields_of(old: OldTab, store: StoreTab) -> Seq<&'static str> {
    let s = note_field(Seq::empty(), "title", old.title@ == store.title@);
    let s = note_field(s, "activity", old.activity@ == store.activity@);
    let s = note_field(s, "isSleeping", old.is_sleeping == store.is_sleeping);
    let s = note_field(s, "isDraft", old.is_draft == store.is_draft);
    let s = note_field(
        s,
        "isGeneratingFirstPromptTitle",
        old.is_generating_first_prompt_title == store.is_generating_first_prompt_title,
    );
    let s = note_field(
        s,
        "workingDirectory",
        opt_view(old.working_directory) == opt_view(store.working_directory),
    );
    let s = note_field(s, "agentName", opt_view(old.agent_name) == opt_view(store.agent_name));
    let s = note_field(
        s,
        "agentSessionId",
        opt_view(old.agent_session_id) == opt_view(store.agent_session_id),
    );
    let s = note_field(s, "hasSessionNote", old.has_session_note == store.has_session_note);
    let s = note_field(
        s,
        "stashedPromptCount",
        old.stashed_prompt_count == match store.stashed_prompt_count {
            Some(n) => n,
            None => 0,
        },
    );
    note_field(s, "switchableAgents", old.has_switchable_agents == store.has_switchable_agents)
}

/// The text of each field name.
pub open spec fn names_view(s: Seq<&'static str>) -> Seq<Seq<char>> {
    s.map_values(|n: &'static str| n@)
}

/// Noting a field adds its name exactly when the two sides differ in it.
proof fn lemma_note_field_names(s: Seq<&'static str>, name: &'static str, same: bool, x: Seq<char>)
    ensures
        names_view(note_field(s, name, same)).contains(x) <==> (names_view(s).contains(x) || (!same
            && name@ == x)),
{
    if !same {
        let ns = names_view(s);
        let nt = names_view(s.push(name));
        assert(nt =~= ns.push(name@));
        if nt.contains(x) {
            let i = choose|i: int| 0 <= i < nt.len() && nt[i] == x;
            if i < ns.len() {
                assert(ns[i] == x);
            }
        }
        if ns.contains(x) {
            let i = choose|i: int| 0 <= i < ns.len() && ns[i] == x;
            assert(nt[i] == x);
        }
        if name@ == x {
            assert(nt[ns.len() as int] == x);
        }
    }
}

/// Whether the two sides of a shared tab differ in the field named `x`.
pub open spec fn field_differs(old: OldTab, store: StoreTab, x: Seq<char>) -> bool {
    ||| x == "title"@ && old.title@ != store.title@
    ||| x == "activity"@ && old.activity@ != store.activity@
    ||| x == "isSleeping"@ && old.is_sleeping != store.is_sleeping
    ||| x == "isDraft"@ && old.is_draft != store.is_draft
    ||| x == "isGeneratingFirstPromptTitle"@ && old.is_generating_first_prompt_title
        != store.is_generating_first_prompt_title
    ||| x == "workingDirectory"@ && opt_view(old.working_directory) != opt_view(store.working_directory)
    ||| x == "agentName"@ && opt_view(old.agent_name) != opt_view(store.agent_name)
    ||| x == "agentSessionId"@ && opt_view(old.agent_session_id) != opt_view(store.agent_session_id)
    ||| x == "hasSessionNote"@ && old.has_session_note != store.has_session_note
    ||| x == "stashedPromptCount"@ && old.stashed_prompt_count != match store.stashed_prompt_count {
        Some(n) => n,
        None => 0,
    }
    ||| x == "switchableAgents"@ && old.has_switchable_agents != store.has_switchable_agents
}

/// [`law_a_field_is_listed_exactly_when_it_differs`], for one name.
proof fn lemma_fields_listed(old: OldTab, store: StoreTab, y: Seq<char>)
    ensures
        names_view(differing_fields_of(old, store)).contains(y) <==> field_differs(old, store, y),
{
    let s0 = Seq::<&'static str>::empty();
    assert(!names_view(s0).contains(y));
    let s1 = note_field(s0, "title", old.title@ == store.title@);
    lemma_note_field_names(s0, "title", old.title@ == store.title@, y);
    let s2 = note_field(s1, "activity", old.activity@ == store.activity@);
    lemma_note_field_names(s1, "activity", old.activity@ == store.activity@, y);
    let s3 = note_field(s2, "isSleeping", old.is_sleeping == store.is_sleeping);
    lemma_note_field_names(s2, "isSleeping", old.is_sleeping == store.is_sleeping, y);
    let s4 = note_field(s3, "isDraft", old.is_draft == store.is_draft);
    lemma_note_field_names(s3, "isDraft", old.is_draft == store.is_draft, y);
    let b5 = old.is_generating_first_prompt_title == store.is_generating_first_prompt_title;
    let s5 = note_field(s4, "isGeneratingFirstPromptTitle", b5);
    lemma_note_field_names(s4, "isGeneratingFirstPromptTitle", b5, y);
    let b6 = opt_view(old.working_directory) == opt_view(store.working_directory);
    let s6 = note_field(s5, "workingDirectory", b6);
    lemma_note_field_names(s5, "workingDirectory", b6, y);
    let b7 = opt_view(old.agent_name) == opt_view(store.agent_name);
    let s7 = note_field(s6, "agentName", b7);
    lemma_note_field_names(s6, "agentName", b7, y);
    let b8 = opt_view(old.agent_session_id) == opt_view(store.agent_session_id);
    let s8 = note_field(s7, "agentSessionId", b8);
    lemma_note_field_names(s7, "agentSessionId", b8, y);
    let b9 = old.has_session_note == store.has_session_note;
    let s9 = note_field(s8, "hasSessionNote", b9);
    lemma_note_field_names(s8, "hasSessionNote", b9, y);
    let b10 = old.stashed_prompt_count == match store.stashed_prompt_count {
        Some(n) => n,
        None => 0,
    };
    let s10 = note_field(s9, "stashedPromptCount", b10);
    lemma_note_field_names(s9, "stashedPromptCount", b10, y);
    let b11 = old.has_switchable_agents == store.has_switchable_agents;
    lemma_note_field_names(s10, "switchableAgents", b11, y);
    assert(differing_fields_of(old, store) == note_field(s10, "switchableAgents", b11));
}

/// A field's name is listed exactly when the two sides differ in that field: the title, the
/// activity, the sleeping, draft and first-prompt-title flags, the working directory, the agent's
/// name and session id, the session note, the stashed prompt count (none counting as zero) and
/// whether agents can be switched. Nothing else is ever listed.
pub proof fn law_a_field_is_listed_exactly_when_it_differs(old: OldTab, store: StoreTab, x: Seq<char>)
    ensures
        names_view(differing_fields_of(old, store)).contains(x) <==> field_differs(old, store, x),
        differing_fields_of(old, store).len() == 0 <==> forall|y: Seq<char>| !field_differs(old, store, y),
{
    assert forall|y: Seq<char>| names_view(differing_fields_of(old, store)).contains(y) <==> field_differs(old, store, y) by {
        lemma_fields_listed(old, store, y);
    }
    if differing_fields_of(old, store).len() == 0 {
        assert forall|y: Seq<char>| !field_differs(old, store, y) by {
            assert(!names_view(differing_fields_of(old, store)).contains(y));
        }
    } else {
        let y = differing_fields_of(old, store)[0]@;
        assert(names_view(differing_fields_of(old, store))[0] == y);
        assert(field_differs(old, store, y));
    }
}

/// The store tab a key finds: the last one listed with it.
pub open spec fn store_match(store: Seq<StoreTab>, k: TabKey) -> Option<int>
    decreases store.len(),
{
    if store.len() == 0 {
        None
    } else if key_view(store.last().key) == key_view(k) {
        Some(store.len() - 1)
    } else {
        store_match(store.drop_last(), k)
    }
}

/// Whether the old list holds a key.
pub open spec fn old_holds(old: Seq<OldTab>, k: TabKey) -> bool {
    exists|i: int| 0 <= i < old.len() && key_view(#[trigger] old[i].key) == key_view(k)
}

/// The labels of the old tabs the store does not list, in order.
pub open spec fn only_old_of(old: Seq<OldTab>, store: Seq<StoreTab>) -> Seq<Seq<char>>
    decreases old.len(),
{
    if old.len() == 0 {
        Seq::empty()
    } else {
        let rest = only_old_of(old.drop_last(), store);
        if store_match(store, old.last().key) is None {
            rest.push(label_of(old.last().key))
        } else {
            rest
        }
    }
}

/// The labels of the store tabs the old list does not hold, in order.
pub open spec fn only_store_of(old: Seq<OldTab>, store: Seq<StoreTab>) -> Seq<Seq<char>>
    decreases store.len(),
{
    if store.len() == 0 {
        Seq::empty()
    } else {
        let rest = only_store_of(old, store.drop_last());
        if !old_holds(old, store.last().key) {
            rest.push(label_of(store.last().key))
        } else {
            rest
        }
    }
}

/// Per shared tab with differences, in the old list's order: its label and the fields.
pub open spec fn fields_of(old: Seq<OldTab>, store: Seq<StoreTab>) -> Seq<
    (Seq<char>, Seq<&'static str>),
>
    decreases old.len(),
{
    if old.len() == 0 {
        Seq::empty()
    } else {
        let rest = fields_of(old.drop_last(), store);
        match store_match(store, old.last().key) {
            Some(j) => {
                let f = differing_fields_of(old.last(), store[j]);
                if f.len() > 0 {
                    rest.push((label_of(old.last().key), f))
                } else {
                    rest
                }
            },
            None => rest,
        }
    }
}

/// How many shared tabs resolve their agent icon differently.
pub open spec fn icon_differences_of(old: Seq<OldTab>, store: Seq<StoreTab>) -> int
    decreases old.len(),
{
    if old.len() == 0 {
        0
    } else {
        icon_differences_of(old.drop_last(), store) + match store_match(store, old.last().key) {
            Some(j) => if opt_view(old.last().agent_icon) != opt_view(store[j].resolved_agent_icon) {
                1int
            } else {
                0int
            },
            None => 0int,
        }
    }
}

/// At most [`MAX_SHADOW_IDS`] of `s`, the first ones.
pub open spec fn capped<T>(s: Seq<T>) -> Seq<T> {
    if s.len() <= MAX_SHADOW_IDS {
        s
    } else {
        s.take(MAX_SHADOW_IDS as int)
    }
}

/// The keys of the old list, in order.
pub open spec fn old_keys(old: Seq<OldTab>) -> Seq<(Option<Seq<char>>, Seq<char>, Seq<char>)> {
    old.map_values(|t: OldTab| key_view(t.key))
}

/// The keys of the store's list, in order.
pub open spec fn store_keys(store: Seq<StoreTab>) -> Seq<(Option<Seq<char>>, Seq<char>, Seq<char>)> {
    store.map_values(|t: StoreTab| key_view(t.key))
}

/// The view of a mismatch's per-tab fields.
pub open spec fn fields_view(f: Seq<(String, Vec<&'static str>)>) -> Seq<(Seq<char>, Seq<&'static str>)> {
    f.map_values(|e: (String, Vec<&'static str>)| (e.0@, e.1@))
}

/// The view of a list of labels.
pub open spec fn labels_view(s: Seq<String>) -> Seq<Seq<char>> {
    s.map_values(|l: String| l@)
}

/// Whether two sessions are the same session.
pub fn same_key(a: &TabKey, b: &TabKey) -> (same: bool)
    ensures
        same == (key_view(*a) == key_view(*b)),
{
    let machine = match (&a.machine_id, &b.machine_id) {
        (Some(x), Some(y)) => same_text(x.as_str(), y.as_str()),
        (None, None) => true,
        _ => false,
    };
    machine && same_text(a.project_id.as_str(), b.project_id.as_str()) && same_text(
        a.session_id.as_str(),
        b.session_id.as_str(),
    )
}

/// Whether two optional strings hold the same text, or are both absent.
fn same_opt(a: &Option<String>, b: &Option<String>) -> (same: bool)
    ensures
        same == (opt_view(*a) == opt_view(*b)),
{
    match (a, b) {
        (Some(x), Some(y)) => same_text(x.as_str(), y.as_str()),
        (None, None) => true,
        _ => false,
    }
}

/// `<project id>:<session id>`.
pub fn label(k: &TabKey) -> (text: String)
    ensures
        text@ == label_of(*k),
{
    let mut text = k.project_id.clone();
    text.append(":");
    text.append(k.session_id.as_str());
    text
}

/// Adds `name` when the two sides are not the same.
fn note(fields: &mut Vec<&'static str>, name: &'static str, same: bool)
    ensures
        final(fields)@ == note_field(old(fields)@, name, same),
{
    if !same {
        fields.push(name);
    }
}

/// The names of the fields of a shared tab whose values differ.
pub fn differing_fields(old: &OldTab, store: &StoreTab) -> (fields: Vec<&'static str>)
    ensures
        fields@ == differing_fields_of(*old, *store),
{
    let mut fields: Vec<&'static str> = Vec::new();
    note(&mut fields, "title", same_text(old.title.as_str(), store.title.as_str()));
    note(&mut fields, "activity", same_text(old.activity.as_str(), store.activity.as_str()));
    note(&mut fields, "isSleeping", old.is_sleeping == store.is_sleeping);
    note(&mut fields, "isDraft", old.is_draft == store.is_draft);
    note(
        &mut fields,
        "isGeneratingFirstPromptTitle",
        old.is_generating_first_prompt_title == store.is_generating_first_prompt_title,
    );
    note(&mut fields, "workingDirectory", same_opt(&old.working_directory, &store.working_directory));
    note(&mut fields, "agentName", same_opt(&old.agent_name, &store.agent_name));
    note(&mut fields, "agentSessionId", same_opt(&old.agent_session_id, &store.agent_session_id));
    note(&mut fields, "hasSessionNote", old.has_session_note == store.has_session_note);
    let stashed = match store.stashed_prompt_count {
        Some(n) => n,
        None => 0,
    };
    note(&mut fields, "stashedPromptCount", old.stashed_prompt_count == stashed);
    note(&mut fields, "switchableAgents", old.has_switchable_agents == store.has_switchable_agents);
    fields
}

/// The store tab a key finds: the last one listed with it.
fn find_store(store: &Vec<StoreTab>, k: &TabKey) -> (found: Option<usize>)
    ensures
        match found {
            Some(j) => store_match(store@, *k) == Some(j as int) && j < store@.len(),
            None => store_match(store@, *k) is None,
        },
{
    let mut n: usize = store.len();
    proof {
        assert(store@.take(n as int) =~= store@);
    }
    while n > 0
        invariant
            n <= store@.len(),
            store_match(store@, *k) == store_match(store@.take(n as int), *k),
        decreases n,
    {
        proof {
            assert(store@.take(n as int).drop_last() =~= store@.take(n as int - 1));
            assert(store@.take(n as int).last() == store@[n as int - 1]);
        }
        if same_key(&store[n - 1].key, k) {
            return Some(n - 1);
        }
        n = n - 1;
    }
    None
}

/// Whether the old list holds a key.
fn holds_old(old: &Vec<OldTab>, k: &TabKey) -> (found: bool)
    ensures
        found == old_holds(old@, *k),
{
    let mut i: usize = 0;
    while i < old.len()
        invariant
            0 <= i <= old@.len(),
            forall|j: int| 0 <= j < i ==> key_view(#[trigger] old@[j].key) != key_view(*k),
        decreases old@.len() - i,
    {
        if same_key(&old[i].key, k) {
            return true;
        }
        i = i + 1;
    }
    false
}

/// Whether both lists hold the same keys in the same order.
fn same_order(old: &Vec<OldTab>, store: &Vec<StoreTab>) -> (same: bool)
    ensures
        same == (old_keys(old@) == store_keys(store@)),
{
    if old.len() != store.len() {
        proof {
            assert(old_keys(old@).len() != store_keys(store@).len());
        }
        return false;
    }
    let mut i: usize = 0;
    while i < old.len()
        invariant
            0 <= i <= old@.len(),
            old@.len() == store@.len(),
            forall|j: int| 0 <= j < i ==> old_keys(old@)[j] == store_keys(store@)[j],
        decreases old@.len() - i,
    {
        if !same_key(&old[i].key, &store[i].key) {
            proof {
                assert(old_keys(old@)[i as int] != store_keys(store@)[i as int]);
            }
            return false;
        }
        i = i + 1;
    }
    proof {
        assert(old_keys(old@) =~= store_keys(store@));
    }
    true
}

/// The first [`MAX_SHADOW_IDS`] entries.
fn cap<T>(items: &mut Vec<T>)
    ensures
        final(items)@ == capped(old(items)@),
{
    if items.len() > MAX_SHADOW_IDS {
        items.truncate(MAX_SHADOW_IDS);
    }
}

/// What the comparison of two tab lists found, as the contracts speak of it: the labels only one
/// side lists, the differing fields of shared tabs, each cut at 24, and whether the same tabs stand
/// in another order.
pub open spec fn mismatch_of(
    old: Seq<OldTab>,
    store: Seq<StoreTab>,
    m: ShadowMismatch,
    store_group: Seq<char>,
) -> bool {
    &&& m.store_group@ == store_group
    &&& m.old_tab_count == old.len()
    &&& m.store_tab_count == store.len()
    &&& labels_view(m.only_old@) == capped(only_old_of(old, store))
    &&& labels_view(m.only_store@) == capped(only_store_of(old, store))
    &&& fields_view(m.fields@) == capped(fields_of(old, store))
    &&& m.order_differs == (only_old_of(old, store).len() == 0 && only_store_of(old, store).len()
        == 0 && old_keys(old) != store_keys(store))
}

/// Whether the two lists disagree.
pub open spec fn lists_differ(old: Seq<OldTab>, store: Seq<StoreTab>) -> bool {
    only_old_of(old, store).len() > 0 || only_store_of(old, store).len() > 0 || fields_of(
        old,
        store,
    ).len() > 0 || old_keys(old) != store_keys(store)
}

/// With no differing shared tab recorded, no shared tab differs in any field.
proof fn lemma_no_fields_no_difference(old: Seq<OldTab>, store: Seq<StoreTab>, i: int)
    requires
        fields_of(old, store).len() == 0,
        0 <= i < old.len(),
        store_match(store, old[i].key) is Some,
    ensures
        differing_fields_of(old[i], store[store_match(store, old[i].key)->0]).len() == 0,
    decreases old.len(),
{
    let rest = fields_of(old.drop_last(), store);
    match store_match(store, old.last().key) {
        Some(j) => {
            let f = differing_fields_of(old.last(), store[j]);
            if f.len() > 0 {
                assert(fields_of(old, store).len() == rest.len() + 1);
            }
        },
        None => {},
    }
    assert(rest.len() == 0);
    if i < old.len() - 1 {
        assert(old.drop_last()[i] == old[i]);
        lemma_no_fields_no_difference(old.drop_last(), store, i);
    }
}

/// The lists match only when no tab both sides list differs in any compared field: a comparison
/// of two lists that do not disagree finds, for every old tab the store also lists, no field in
/// which the two sides differ.
pub proof fn law_a_match_has_no_differing_shared_tab(old: Seq<OldTab>, store: Seq<StoreTab>)
    requires
        !lists_differ(old, store),
    ensures
        forall|i: int, y: Seq<char>|
            0 <= i < old.len() && store_match(store, old[i].key) is Some ==> !#[trigger] field_differs(
                old[i],
                store[store_match(store, old[i].key)->0],
                y,
            ),
{
    assert forall|i: int, y: Seq<char>|
        0 <= i < old.len() && store_match(store, old[i].key) is Some implies !#[trigger] field_differs(
        old[i],
        store[store_match(store, old[i].key)->0],
        y,
    ) by {
        lemma_no_fields_no_difference(old, store, i);
        law_a_field_is_listed_exactly_when_it_differs(
            old[i],
            store[store_match(store, old[i].key)->0],
            y,
        );
    }
}

/// Compares the old runtime's tab list with the store's active one. Nothing is comparable when the
/// old runtime sent no list, the two sides have different projects active (`same_project`), or the
/// store has no list loaded.
pub fn compare(
    old_tabs: Option<&Vec<OldTab>>,
    same_project: bool,
    store_tabs: Option<&Vec<StoreTab>>,
    store_group: &str,
) -> (found: Comparison)
    ensures
        match (old_tabs, store_tabs) {
            (Some(old), Some(store)) if same_project => if lists_differ(old@, store@) {
                found matches Comparison::Mismatch(m) && mismatch_of(old@, store@, m, store_group@)
            } else {
                found == Comparison::Match {
                    icon_differences: icon_differences_of(old@, store@) as u64,
                } && icon_differences_of(old@, store@) <= old@.len()
            },
            _ => found is NotComparable,
        },
{
    let old = match old_tabs {
        Some(old) => old,
        None => return Comparison::NotComparable,
    };
    if !same_project {
        return Comparison::NotComparable;
    }
    let store = match store_tabs {
        Some(store) => store,
        None => return Comparison::NotComparable,
    };
    let mut only_old: Vec<String> = Vec::new();
    let mut fields: Vec<(String, Vec<&'static str>)> = Vec::new();
    let mut icons: u64 = 0;
    let mut i: usize = 0;
    while i < old.len()
        invariant
            0 <= i <= old@.len(),
            labels_view(only_old@) == only_old_of(old@.take(i as int), store@),
            fields_view(fields@) == fields_of(old@.take(i as int), store@),
            icons == icon_differences_of(old@.take(i as int), store@),
            icons <= i,
        decreases old@.len() - i,
    {
        proof {
            assert(old@.take(i as int + 1).drop_last() =~= old@.take(i as int));
            assert(old@.take(i as int + 1).last() == old@[i as int]);
        }
        let tab = &old[i];
        match find_store(store, &tab.key) {
            None => {
                let ghost was = only_old@;
                only_old.push(label(&tab.key));
                proof {
                    assert(labels_view(only_old@) =~= labels_view(was).push(label_of(tab.key)));
                }
            },
            Some(j) => {
                let differing = differing_fields(tab, &store[j]);
                if differing.len() > 0 {
                    let ghost was = fields@;
                    fields.push((label(&tab.key), differing));
                    proof {
                        assert(fields_view(fields@) =~= fields_view(was).push(
                            (label_of(tab.key), differing_fields_of(*tab, store@[j as int])),
                        ));
                    }
                }
                if !same_opt(&tab.agent_icon, &store[j].resolved_agent_icon) {
                    icons = icons + 1;
                }
            },
        }
        i = i + 1;
    }
    proof {
        assert(old@.take(old@.len() as int) =~= old@);
    }
    let mut only_store: Vec<String> = Vec::new();
    let mut k: usize = 0;
    while k < store.len()
        invariant
            0 <= k <= store@.len(),
            labels_view(only_store@) == only_store_of(old@, store@.take(k as int)),
        decreases store@.len() - k,
    {
        proof {
            assert(store@.take(k as int + 1).drop_last() =~= store@.take(k as int));
            assert(store@.take(k as int + 1).last() == store@[k as int]);
        }
        if !holds_old(old, &store[k].key) {
            let ghost was = only_store@;
            only_store.push(label(&store[k].key));
            proof {
                assert(labels_view(only_store@) =~= labels_view(was).push(label_of(store@[k as int].key)));
            }
        }
        k = k + 1;
    }
    proof {
        assert(store@.take(store@.len() as int) =~= store@);
    }
    let order_differs = only_old.len() == 0 && only_store.len() == 0 && !same_order(old, store);
    let differs = only_old.len() > 0 || only_store.len() > 0 || fields.len() > 0 || !same_order(
        old,
        store,
    );
    if !differs {
        return Comparison::Match { icon_differences: icons };
    }
    let ghost all_old = labels_view(only_old@);
    let ghost all_store = labels_view(only_store@);
    let ghost all_fields = fields_view(fields@);
    cap(&mut only_old);
    cap(&mut only_store);
    cap(&mut fields);
    proof {
        assert(labels_view(only_old@) =~= capped(all_old));
        assert(labels_view(only_store@) =~= capped(all_store));
        assert(fields_view(fields@) =~= capped(all_fields));
    }
    Comparison::Mismatch(
        ShadowMismatch {
            store_group: String::from_str(store_group),
            old_tab_count: old.len(),
            store_tab_count: store.len(),
            only_old,
            only_store,
            order_differs,
            fields,
        },
    )
}

/// What the comparison counted since the app started.
#[derive(Clone, Copy, Debug, Default, PartialEq, Eq)]
pub struct ShadowCounters {
    /// Focus states the old runtime published.
    pub observed: u64,
    pub not_comparable: u64,
    pub matches: u64,
    /// Differences that were gone when judged again.
    pub transient: u64,
    /// Differences that lasted, one per confirmation.
    pub mismatches: u64,
    /// Each shape of a lasting difference once.
    pub distinct_mismatches: u64,
    /// Shared tabs whose resolved agent icon differs.
    pub icon_differences: u64,
    /// Publishes that named a remote machine, neither mirrored nor compared.
    pub remote_skipped: u64,
    /// Focus updates of the old runtime dropped as older than a local selection.
    pub stale_external_focus: u64,
}

/// What a publish of the old runtime meant for the store's focus.
#[derive(Clone, Copy, Debug, PartialEq, Eq)]
pub enum ObservedFocus {
    /// Produced against an older stamp than the newest local selection: not applied.
    Stale,
    /// Applied; the focused session is a local session, or nothing is focused.
    Local,
    /// Applied; the focused row is not a local session the store holds.
    Foreign,
}

/// The focus part of the old runtime's last publish.
#[derive(Clone, Debug, PartialEq, Eq)]
pub struct OldFocus {
    pub active_project_id: Option<String>,
    pub focused_session_id: Option<String>,
    pub visible_session_ids: Vec<String>,
    /// The store stamp the old runtime had been told when it published.
    pub observed_stamp: u64,
}

/// A difference waiting to be judged again: since when, and its shape.
#[derive(Clone, Copy, Debug, PartialEq, Eq)]
pub struct PendingDifference {
    pub since_ms: u64,
    pub signature: u64,
}

/// The comparison's state between publishes.
pub struct ShadowDiff {
    pub counters: ShadowCounters,
    pub old_focus: Option<OldFocus>,
    pub old_tabs: Option<Vec<OldTab>>,
    pub pending: Option<PendingDifference>,
    /// The shapes of the differences confirmed so far, each once.
    pub confirmed_signatures: Vec<u64>,
    /// What mirroring the old focus again meant, while judging a waiting difference.
    pub remirrored: Option<ObservedFocus>,
}

/// The shape of a difference: `std::hash::BuildHasher::hash_one` with `std`'s default hasher over
/// the whole mismatch.
///
/// Nothing is stated of the number: which one comes out is the hasher's, which a Rust release may
/// change, and the bytes it hashes for an integer follow the machine's byte order, so no name can
/// stand for it that would hold on every machine.
#[verifier::external_body]
fn signature(mismatch: &ShadowMismatch) -> u64 {
    std::hash::BuildHasher::hash_one(
        &std::hash::BuildHasherDefault::<std::hash::DefaultHasher>::default(),
        mismatch,
    )
}

/// What waits after a mismatch: a difference is waiting; one that repeats the shape of the one
/// already waiting is that one, its clock kept; any other starts waiting at `now_ms`.
pub open spec fn waits_after_mismatch(
    before: Option<PendingDifference>,
    after: Option<PendingDifference>,
    now_ms: u64,
) -> bool {
    match after {
        Some(p) => match before {
            Some(q) => if q.signature == p.signature {
                p == q
            } else {
                p.since_ms == now_ms
            },
            None => p.since_ms == now_ms,
        },
        None => false,
    }
}

/// Whether some old tab is a remote machine's.
pub open spec fn lists_remote_tab_of(tabs: Option<Vec<OldTab>>) -> bool {
    match tabs {
        Some(t) => exists|i: int| 0 <= i < t@.len() && (#[trigger] t@[i]).key.machine_id is Some,
        None => false,
    }
}

/// How long ago `since` was, never negative.
pub open spec fn elapsed_of(now_ms: u64, since_ms: u64) -> int {
    if now_ms >= since_ms {
        now_ms - since_ms
    } else {
        0
    }
}

/// The counters with every field but those named left alone.
pub open spec fn counters_except_observed_and_skips(a: ShadowCounters, b: ShadowCounters) -> bool {
    &&& a.not_comparable == b.not_comparable
    &&& a.matches == b.matches
    &&& a.transient == b.transient
    &&& a.mismatches == b.mismatches
    &&& a.distinct_mismatches == b.distinct_mismatches
    &&& a.icon_differences == b.icon_differences
    &&& a.stale_external_focus == b.stale_external_focus
}

impl ShadowDiff {
    /// Nothing observed yet.
    pub fn new() -> (diff: Self)
        ensures
            diff.counters == (ShadowCounters {
                observed: 0,
                not_comparable: 0,
                matches: 0,
                transient: 0,
                mismatches: 0,
                distinct_mismatches: 0,
                icon_differences: 0,
                remote_skipped: 0,
                stale_external_focus: 0,
            }),
            diff.old_focus is None && diff.old_tabs is None && diff.pending is None,
            diff.confirmed_signatures@.len() == 0,
            diff.remirrored is None,
    {
        ShadowDiff {
            counters: ShadowCounters {
                observed: 0,
                not_comparable: 0,
                matches: 0,
                transient: 0,
                mismatches: 0,
                distinct_mismatches: 0,
                icon_differences: 0,
                remote_skipped: 0,
                stale_external_focus: 0,
            },
            old_focus: None,
            old_tabs: None,
            pending: None,
            confirmed_signatures: Vec::new(),
            remirrored: None,
        }
    }

    /// What was counted.
    pub fn counters(&self) -> (counters: ShadowCounters)
        ensures
            counters == self.counters,
    {
        self.counters
    }

    /// Whether a difference waits to be judged again.
    pub fn is_pending(&self) -> (pending: bool)
        ensures
            pending == self.pending is Some,
    {
        self.pending.is_some()
    }

    /// When the waiting difference was first seen.
    pub fn pending_since(&self) -> (since: Option<u64>)
        ensures
            since == match self.pending {
                Some(p) => Some(p.since_ms),
                None => None,
            },
    {
        match self.pending {
            Some(p) => Some(p.since_ms),
            None => None,
        }
    }

    /// The outcome of the newest repeat mirror, once.
    pub fn take_remirrored(&mut self) -> (outcome: Option<ObservedFocus>)
        ensures
            outcome == old(self).remirrored,
            final(self).remirrored is None,
            final(self).pending == old(self).pending,
            final(self).counters == old(self).counters,
    {
        let outcome = self.remirrored;
        self.remirrored = None;
        outcome
    }

    /// The old runtime published a focus state. A publish whose focus is on a remote machine
    /// (`remote_focus`) is neither mirrored nor compared: it drops what was kept of the last
    /// publish and any waiting difference, and is answered at once, stale when it was produced
    /// before the newest local selection (`stale`). Any other publish is kept for mirroring and
    /// comparing, and `None` asks the caller to mirror it.
    pub fn begin_observe(
        &mut self,
        remote_focus: bool,
        stale: bool,
        old_focus: OldFocus,
        old_tabs: Option<Vec<OldTab>>,
    ) -> (answer: Option<ObservedFocus>)
        requires
            old(self).counters.observed < u64::MAX,
            old(self).counters.remote_skipped < u64::MAX,
        ensures
            final(self).counters.observed == old(self).counters.observed + 1,
            counters_except_observed_and_skips(final(self).counters, old(self).counters),
            final(self).confirmed_signatures == old(self).confirmed_signatures,
            remote_focus ==> {
                &&& answer == Some(
                    if stale {
                        ObservedFocus::Stale
                    } else {
                        ObservedFocus::Foreign
                    },
                )
                &&& final(self).counters.remote_skipped == old(self).counters.remote_skipped + 1
                &&& final(self).old_focus is None
                &&& final(self).old_tabs is None
                &&& final(self).pending is None
            },
            !remote_focus ==> {
                &&& answer is None
                &&& final(self).counters.remote_skipped == old(self).counters.remote_skipped
                &&& final(self).old_focus == Some(old_focus)
                &&& final(self).old_tabs == old_tabs
                &&& final(self).pending == old(self).pending
            },
    {
        self.counters.observed = self.counters.observed + 1;
        if remote_focus {
            self.counters.remote_skipped = self.counters.remote_skipped + 1;
            self.old_focus = None;
            self.old_tabs = None;
            self.pending = None;
            return Some(
                if stale {
                    ObservedFocus::Stale
                } else {
                    ObservedFocus::Foreign
                },
            );
        }
        self.old_tabs = old_tabs;
        self.old_focus = Some(old_focus);
        None
    }

    /// What mirroring the kept focus meant: nothing kept is stale, an update the store ignored
    /// as older than a local selection is counted and stale, else foreign or local.
    pub fn note_mirror(&mut self, ignored: bool, foreign: bool) -> (observed: ObservedFocus)
        requires
            old(self).counters.stale_external_focus < u64::MAX,
        ensures
            observed == if old(self).old_focus is None {
                ObservedFocus::Stale
            } else if ignored {
                ObservedFocus::Stale
            } else if foreign {
                ObservedFocus::Foreign
            } else {
                ObservedFocus::Local
            },
            final(self).counters.stale_external_focus == old(self).counters.stale_external_focus
                + if old(self).old_focus is Some && ignored {
                1int
            } else {
                0int
            },
            final(self).counters.observed == old(self).counters.observed,
            final(self).pending == old(self).pending,
            final(self).old_tabs == old(self).old_tabs,
            final(self).old_focus == old(self).old_focus,
    {
        if self.old_focus.is_none() {
            return ObservedFocus::Stale;
        }
        if ignored {
            self.counters.stale_external_focus = self.counters.stale_external_focus + 1;
            ObservedFocus::Stale
        } else if foreign {
            ObservedFocus::Foreign
        } else {
            ObservedFocus::Local
        }
    }

    /// A difference of shape `signature` was seen at `now_ms`: a difference already waiting with
    /// the same shape keeps its clock; any other starts waiting now.
    pub fn note_difference(&mut self, signature: u64, now_ms: u64)
        ensures
            final(self).pending == match old(self).pending {
                Some(p) if p.signature == signature => Some(p),
                _ => Some(PendingDifference { since_ms: now_ms, signature }),
            },
            final(self).counters == old(self).counters,
            final(self).old_tabs == old(self).old_tabs,
            final(self).confirmed_signatures == old(self).confirmed_signatures,
    {
        let keep = match self.pending {
            Some(p) => p.signature == signature,
            None => false,
        };
        if !keep {
            self.pending = Some(PendingDifference { since_ms: now_ms, signature });
        }
    }

    /// Whether the kept tab list holds a remote machine's tab.
    pub fn lists_remote_tab(&self) -> (remote: bool)
        ensures
            remote == lists_remote_tab_of(self.old_tabs),
    {
        match &self.old_tabs {
            Some(tabs) => {
                let mut i: usize = 0;
                while i < tabs.len()
                    invariant
                        0 <= i <= tabs@.len(),
                        self.old_tabs is Some,
                        self.old_tabs->0@ == tabs@,
                        forall|j: int| 0 <= j < i ==> (#[trigger] tabs@[j]).key.machine_id is None,
                    decreases tabs@.len() - i,
                {
                    if tabs[i].key.machine_id.is_some() {
                        proof {
                            assert(self.old_tabs->0@[i as int].key.machine_id is Some);
                        }
                        return true;
                    }
                    i = i + 1;
                }
                false
            },
            None => false,
        }
    }

    /// Ends an observation with what comparing the kept list with the store's found. A kept list
    /// with a remote machine's tab has no counterpart in the store and is skipped; otherwise a
    /// comparison that is not possible or matches clears the waiting difference, and a mismatch
    /// waits to be judged again, keeping its clock when it repeats the one already waiting.
    pub fn finish_observe(&mut self, comparison: Comparison, now_ms: u64)
        requires
            old(self).counters.remote_skipped < u64::MAX,
            old(self).counters.not_comparable < u64::MAX,
            old(self).counters.matches < u64::MAX,
            comparison matches Comparison::Match { icon_differences } ==> old(self).counters.icon_differences + icon_differences <= u64::MAX,
        ensures
            final(self).confirmed_signatures == old(self).confirmed_signatures,
            final(self).counters.observed == old(self).counters.observed,
            lists_remote_tab_of(old(self).old_tabs) ==> final(self).counters.remote_skipped == old(self).counters.remote_skipped + 1 && final(self).pending is None && final(self).counters.matches
                == old(self).counters.matches,
            !lists_remote_tab_of(old(self).old_tabs) ==> match comparison {
                Comparison::NotComparable => final(self).counters.not_comparable == old(self).counters.not_comparable + 1 && final(self).pending is None,
                Comparison::Match { icon_differences } => final(self).counters.matches == old(self).counters.matches + 1 && final(self).counters.icon_differences == old(self).counters.icon_differences + icon_differences && final(self).pending is None,
                Comparison::Mismatch(_) => waits_after_mismatch(old(self).pending, final(self).pending, now_ms) && final(self).counters == old(self).counters,
            },
    {
        if self.lists_remote_tab() {
            self.counters.remote_skipped = self.counters.remote_skipped + 1;
            self.pending = None;
            return;
        }
        match comparison {
            Comparison::NotComparable => {
                self.counters.not_comparable = self.counters.not_comparable + 1;
                self.pending = None;
            },
            Comparison::Match { icon_differences } => {
                self.counters.matches = self.counters.matches + 1;
                self.counters.icon_differences = self.counters.icon_differences + icon_differences;
                self.pending = None;
            },
            Comparison::Mismatch(mismatch) => {
                let shape = signature(&mismatch);
                self.note_difference(shape, now_ms);
            },
        }
    }

    /// Remembers a confirmed shape: counted as distinct when it is new and fewer than
    /// [`MAX_CONFIRMED_SIGNATURES`] are remembered.
    pub fn confirm_signature(&mut self, signature: u64)
        requires
            old(self).counters.distinct_mismatches < u64::MAX,
        ensures
            ({
                let counted = old(self).confirmed_signatures@.len() < MAX_CONFIRMED_SIGNATURES
                    && !old(self).confirmed_signatures@.contains(signature);
                &&& final(self).confirmed_signatures@ == if counted {
                    old(self).confirmed_signatures@.push(signature)
                } else {
                    old(self).confirmed_signatures@
                }
                &&& final(self).counters.distinct_mismatches == old(self).counters.distinct_mismatches + if counted {
                    1int
                } else {
                    0int
                }
            }),
            final(self).counters.mismatches == old(self).counters.mismatches,
            final(self).counters.transient == old(self).counters.transient,
            final(self).pending == old(self).pending,
            final(self).remirrored == old(self).remirrored,
            final(self).old_tabs == old(self).old_tabs,
            final(self).old_focus == old(self).old_focus,
            old(self).confirmed_signatures@.len() <= MAX_CONFIRMED_SIGNATURES ==> final(self).confirmed_signatures@.len() <= MAX_CONFIRMED_SIGNATURES,
    {
        if self.confirmed_signatures.len() >= MAX_CONFIRMED_SIGNATURES {
            return;
        }
        let mut i: usize = 0;
        while i < self.confirmed_signatures.len()
            invariant
                0 <= i <= self.confirmed_signatures@.len(),
                forall|j: int| 0 <= j < i ==> self.confirmed_signatures@[j] != signature,
            decreases self.confirmed_signatures@.len() - i,
        {
            if self.confirmed_signatures[i] == signature {
                return;
            }
            i = i + 1;
        }
        self.confirmed_signatures.push(signature);
        self.counters.distinct_mismatches = self.counters.distinct_mismatches + 1;
    }

    /// Judges the waiting difference again with what comparing found now (after mirroring the
    /// kept focus again, whose outcome is `mirrored`). A difference that is gone was transient;
    /// one younger than `settle_ms` keeps waiting; one that lasted is counted, its shape
    /// remembered, and handed back.
    pub fn settle(
        &mut self,
        mirrored: ObservedFocus,
        comparison: Comparison,
        settle_ms: u64,
        now_ms: u64,
    ) -> (confirmed: Option<ShadowMismatch>)
        requires
            old(self).counters.transient < u64::MAX,
            old(self).counters.mismatches < u64::MAX,
            old(self).counters.distinct_mismatches < u64::MAX,
            comparison matches Comparison::Match { icon_differences } ==> old(self).counters.icon_differences + icon_differences <= u64::MAX,
        ensures
            old(self).pending is None ==> confirmed is None && final(self).counters == old(self).counters && final(self).pending is None && final(self).remirrored == old(self).remirrored,
            old(self).pending is Some ==> final(self).remirrored == Some(mirrored),
            old(self).pending matches Some(p) ==> {
                match comparison {
                    Comparison::NotComparable => confirmed is None && final(self).pending is None
                        && final(self).counters.transient == old(self).counters.transient + 1,
                    Comparison::Match { icon_differences } => confirmed is None && final(self).pending is None && final(self).counters.transient == old(self).counters.transient + 1 && final(self).counters.icon_differences == old(self).counters.icon_differences + icon_differences,
                    Comparison::Mismatch(m) => if elapsed_of(now_ms, p.since_ms) < settle_ms {
                        confirmed is None && final(self).pending == old(self).pending && final(self).counters == old(self).counters
                    } else {
                        confirmed == Some(m) && final(self).pending is None && final(self).counters.mismatches == old(self).counters.mismatches + 1
                    },
                }
            },
            old(self).confirmed_signatures@.len() <= MAX_CONFIRMED_SIGNATURES ==> final(self).confirmed_signatures@.len() <= MAX_CONFIRMED_SIGNATURES,
    {
        if self.pending.is_none() {
            return None;
        }
        let since = match self.pending {
            Some(p) => p.since_ms,
            None => 0,
        };
        self.remirrored = Some(mirrored);
        match comparison {
            Comparison::NotComparable => {
                self.counters.transient = self.counters.transient + 1;
                self.pending = None;
                None
            },
            Comparison::Match { icon_differences } => {
                self.counters.icon_differences = self.counters.icon_differences + icon_differences;
                self.counters.transient = self.counters.transient + 1;
                self.pending = None;
                None
            },
            Comparison::Mismatch(mismatch) => {
                let elapsed = if now_ms >= since {
                    now_ms - since
                } else {
                    0
                };
                if elapsed < settle_ms {
                    return None;
                }
                self.counters.mismatches = self.counters.mismatches + 1;
                let shape = signature(&mismatch);
                self.confirm_signature(shape);
                self.pending = None;
                Some(mismatch)
            },
        }
    }
}

} // verus!
