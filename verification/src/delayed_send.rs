//! The agents a Delayed Send can wait for: the running terminal and agent sessions of the
//! receiving session's daemon, labelled `<title> (<session id>)` and sorted by label, and the
//! choice the receiving session already holds.

use vstd::prelude::*;

use crate::effects::Json;
use crate::keyed::{
    KeyOrder, compare_keys, key_less, lemma_key_less_irreflexive, lemma_key_less_transitive,
};
use crate::text::same_text;

verus! {

broadcast use vstd::string::group_string_axioms;

/// One session of a presentation snapshot, as far as the picker reads it: each field as the
/// snapshot carries it, `None` where it is absent.
pub struct SnapshotSession {
    pub lifecycle_state: Option<Json>,
    pub kind: Option<Json>,
    pub surface: Option<Json>,
    pub project_id: Option<Json>,
    pub session_id: Option<Json>,
    pub display_title: Option<Json>,
    pub title: Option<Json>,
}

/// One choice of the picker.
#[derive(Clone, Debug, PartialEq, Eq)]
pub struct AgentOption {
    pub project_id: String,
    pub session_id: String,
    pub label: String,
}

/// The text a field holds, when it is text.
pub open spec fn text_of(field: Option<Json>) -> Option<Seq<char>> {
    match field {
        Some(Json::Text(s)) => Some(s@),
        _ => None,
    }
}

/// Whether a session is offered: it runs, is a terminal or an agent, is not the commands surface,
/// and names its project and session as text.
pub open spec fn offered(s: SnapshotSession) -> bool {
    &&& text_of(s.lifecycle_state) == Some("running"@)
    &&& (text_of(s.kind) == Some("terminal"@) || text_of(s.kind) == Some("agent"@))
    &&& text_of(s.surface) != Some("commands"@)
    &&& text_of(s.project_id) is Some
    &&& text_of(s.session_id) is Some
}

/// The title a session is labelled with: its display title when it has that field, else its
/// title; the session id when the field found is not text.
pub open spec fn title_of(s: SnapshotSession) -> Seq<char> {
    let t = match s.display_title {
        Some(j) => text_of(Some(j)),
        None => text_of(s.title),
    };
    match t {
        Some(x) => x,
        None => text_of(s.session_id)->0,
    }
}

/// The choice a session offers: `(project id, session id, label)`.
pub open spec fn option_of(s: SnapshotSession) -> (Seq<char>, Seq<char>, Seq<char>) {
    let session = text_of(s.session_id)->0;
    (text_of(s.project_id)->0, session, title_of(s) + " ("@ + session + ")"@)
}

/// The choices of the offered sessions, in the snapshot's order.
pub open spec fn offered_options(s: Seq<SnapshotSession>) -> Seq<(Seq<char>, Seq<char>, Seq<char>)>
    decreases s.len(),
{
    if s.len() == 0 {
        Seq::empty()
    } else {
        let rest = offered_options(s.drop_last());
        if offered(s.last()) {
            rest.push(option_of(s.last()))
        } else {
            rest
        }
    }
}

/// How many leading choices of `t` do not sort after `label`.
pub open spec fn leading_not_after(t: Seq<(Seq<char>, Seq<char>, Seq<char>)>, label: Seq<char>) -> nat
    decreases t.len(),
{
    if t.len() == 0 {
        0
    } else if !key_less(label, t[0].2) {
        1 + leading_not_after(t.drop_first(), label)
    } else {
        0
    }
}

/// The choices sorted by label, stably: each in turn goes after every leading choice that does
/// not sort after it.
pub open spec fn sorted_by_label(s: Seq<(Seq<char>, Seq<char>, Seq<char>)>) -> Seq<
    (Seq<char>, Seq<char>, Seq<char>),
>
    decreases s.len(),
{
    if s.len() == 0 {
        Seq::empty()
    } else {
        let t = sorted_by_label(s.drop_last());
        t.insert(leading_not_after(t, s.last().2) as int, s.last())
    }
}

/// The view of a list of choices.
pub open spec fn options_view(o: Seq<AgentOption>) -> Seq<(Seq<char>, Seq<char>, Seq<char>)> {
    o.map_values(|a: AgentOption| (a.project_id@, a.session_id@, a.label@))
}

/// Whether a field holds exactly this text.
fn field_is(field: &Option<Json>, text: &str) -> (is: bool)
    ensures
        is == (text_of(*field) == Some(text@)),
{
    match field {
        Some(Json::Text(s)) => same_text(s.as_str(), text),
        _ => false,
    }
}

/// The text a field holds, copied.
fn field_text(field: &Option<Json>) -> (text: Option<String>)
    ensures
        match text {
            Some(t) => text_of(*field) == Some(t@),
            None => text_of(*field) is None,
        },
{
    match field {
        Some(Json::Text(s)) => Some(s.clone()),
        _ => None,
    }
}

/// The choice one session offers, when it is offered.
fn offer(s: &SnapshotSession) -> (choice: Option<AgentOption>)
    ensures
        match choice {
            Some(c) => offered(*s) && (c.project_id@, c.session_id@, c.label@) == option_of(*s),
            None => !offered(*s),
        },
{
    if !field_is(&s.lifecycle_state, "running") {
        return None;
    }
    if !field_is(&s.kind, "terminal") && !field_is(&s.kind, "agent") {
        return None;
    }
    if field_is(&s.surface, "commands") {
        return None;
    }
    let project_id = match field_text(&s.project_id) {
        Some(p) => p,
        None => return None,
    };
    let session_id = match field_text(&s.session_id) {
        Some(id) => id,
        None => return None,
    };
    let found = match &s.display_title {
        Some(_) => field_text(&s.display_title),
        None => field_text(&s.title),
    };
    let mut label = match found {
        Some(t) => t,
        None => session_id.clone(),
    };
    label.append(" (");
    label.append(session_id.as_str());
    label.append(")");
    Some(AgentOption { project_id, session_id, label })
}

/// Whether `a` sorts strictly before `b`.
fn sorts_before(a: &str, b: &str) -> (before: bool)
    ensures
        before == key_less(a@, b@),
{
    match compare_keys(a, b) {
        KeyOrder::Before => true,
        _ => false,
    }
}

/// The running terminal and agent sessions the picker offers, labelled `<title> (<session id>)`
/// and sorted by label; sessions with the same label keep the snapshot's order.
pub fn delayed_send_options(sessions: &Vec<SnapshotSession>) -> (options: Vec<AgentOption>)
    ensures
        options_view(options@) == sorted_by_label(offered_options(sessions@)),
{
    let mut sorted: Vec<AgentOption> = Vec::new();
    let mut i: usize = 0;
    while i < sessions.len()
        invariant
            0 <= i <= sessions@.len(),
            options_view(sorted@) == sorted_by_label(offered_options(sessions@.take(i as int))),
        decreases sessions@.len() - i,
    {
        proof {
            assert(sessions@.take(i as int + 1).drop_last() =~= sessions@.take(i as int));
            assert(sessions@.take(i as int + 1).last() == sessions@[i as int]);
        }
        let ghost rest = offered_options(sessions@.take(i as int));
        match offer(&sessions[i]) {
            Some(choice) => {
                let ghost t = options_view(sorted@);
                let ghost label = choice.label@;
                let mut p: usize = 0;
                proof {
                    assert(t.skip(0) =~= t);
                }
                while p < sorted.len() && !sorts_before(choice.label.as_str(), sorted[p].label.as_str())
                    invariant
                        0 <= p <= sorted@.len(),
                        t == options_view(sorted@),
                        label == choice.label@,
                        leading_not_after(t, label) == p + leading_not_after(t.skip(p as int), label),
                    decreases sorted@.len() - p,
                {
                    proof {
                        assert(t.skip(p as int).drop_first() =~= t.skip(p as int + 1));
                        assert(t.skip(p as int)[0] == t[p as int]);
                    }
                    p = p + 1;
                }
                proof {
                    if p < sorted@.len() {
                        assert(t.skip(p as int)[0] == t[p as int]);
                    } else {
                        assert(t.skip(p as int).len() == 0);
                    }
                    assert(leading_not_after(t, label) == p);
                }
                let ghost placed = choice;
                sorted.insert(p, choice);
                proof {
                    let o = (placed.project_id@, placed.session_id@, placed.label@);
                    assert(options_view(sorted@) =~= t.insert(p as int, o));
                    assert(offered_options(sessions@.take(i as int + 1)) == rest.push(o));
                    assert(rest.push(o).drop_last() =~= rest);
                    assert(rest.push(o).last() == o);
                }
            },
            None => {
                proof {
                    assert(offered_options(sessions@.take(i as int + 1)) == rest);
                }
            },
        }
        i = i + 1;
    }
    proof {
        assert(sessions@.take(sessions@.len() as int) =~= sessions@);
    }
    sorted
}

/// Whether a session is the target `(project id, session id)`.
pub open spec fn is_target(s: SnapshotSession, project: Seq<char>, session: Seq<char>) -> bool {
    text_of(s.project_id) == Some(project) && text_of(s.session_id) == Some(session)
}

/// The first session that is the receiving session `target`, whose Delayed Send choice is the
/// picker's active one; `None` when there is no target or no such session.
pub fn delayed_send_active(sessions: &Vec<SnapshotSession>, target: Option<(&str, &str)>) -> (found:
    Option<usize>)
    ensures
        match target {
            None => found is None,
            Some((project, session)) => match found {
                Some(i) => i < sessions@.len() && is_target(sessions@[i as int], project@, session@)
                    && forall|j: int| 0 <= j < i ==> !is_target(#[trigger] sessions@[j], project@, session@),
                None => forall|j: int|
                    0 <= j < sessions@.len() ==> !is_target(#[trigger] sessions@[j], project@, session@),
            },
        },
{
    match target {
        Some((project, session)) => first_target(sessions, project, session),
        None => None,
    }
}

/// The first session that is `(project, session)`.
fn first_target(sessions: &Vec<SnapshotSession>, project: &str, session: &str) -> (found: Option<
    usize,
>)
    ensures
        match found {
            Some(i) => i < sessions@.len() && is_target(sessions@[i as int], project@, session@)
                && forall|j: int| 0 <= j < i ==> !is_target(#[trigger] sessions@[j], project@, session@),
            None => forall|j: int|
                0 <= j < sessions@.len() ==> !is_target(#[trigger] sessions@[j], project@, session@),
        },
{
    let mut i: usize = 0;
    while i < sessions.len()
        invariant
            0 <= i <= sessions@.len(),
            forall|j: int| 0 <= j < i ==> !is_target(#[trigger] sessions@[j], project@, session@),
        decreases sessions@.len() - i,
    {
        if field_is(&sessions[i].project_id, project) && field_is(&sessions[i].session_id, session) {
            return Some(i);
        }
        i = i + 1;
    }
    None
}

/// No choice sorts before one listed ahead of it.
pub open spec fn labels_in_order(t: Seq<(Seq<char>, Seq<char>, Seq<char>)>) -> bool {
    forall|i: int, j: int| 0 <= i < j < t.len() ==> !key_less(#[trigger] t[j].2, #[trigger] t[i].2)
}

/// The leading choices counted by `leading_not_after` do not sort after `label`, and the one
/// after them does.
proof fn lemma_leading_not_after(t: Seq<(Seq<char>, Seq<char>, Seq<char>)>, label: Seq<char>)
    ensures
        leading_not_after(t, label) <= t.len(),
        forall|i: int| 0 <= i < leading_not_after(t, label) ==> !key_less(label, #[trigger] t[i].2),
        leading_not_after(t, label) < t.len() ==> key_less(label, t[leading_not_after(t, label) as int].2),
    decreases t.len(),
{
    if t.len() > 0 && !key_less(label, t[0].2) {
        let rest = t.drop_first();
        lemma_leading_not_after(rest, label);
        assert forall|i: int| 0 <= i < leading_not_after(t, label) implies !key_less(
            label,
            #[trigger] t[i].2,
        ) by {
            if i > 0 {
                assert(t[i] == rest[i - 1]);
            }
        }
        if leading_not_after(t, label) < t.len() {
            assert(t[leading_not_after(t, label) as int] == rest[leading_not_after(rest, label) as int]);
        }
    }
}

/// The choices the picker offers come out in label order, every one of them once.
pub proof fn law_choices_sorted_by_label(s: Seq<(Seq<char>, Seq<char>, Seq<char>)>)
    ensures
        labels_in_order(sorted_by_label(s)),
        sorted_by_label(s).len() == s.len(),
        sorted_by_label(s).to_multiset() == s.to_multiset(),
    decreases s.len(),
{
    if s.len() > 0 {
        let rest = s.drop_last();
        let x = s.last();
        law_choices_sorted_by_label(rest);
        let t = sorted_by_label(rest);
        let p = leading_not_after(t, x.2) as int;
        lemma_leading_not_after(t, x.2);
        let u = t.insert(p, x);
        assert forall|i: int, j: int| 0 <= i < j < u.len() implies !key_less(
            #[trigger] u[j].2,
            #[trigger] u[i].2,
        ) by {
            if j < p {
                assert(u[i] == t[i] && u[j] == t[j]);
            } else if j == p {
                assert(u[i] == t[i] && u[j] == x);
            } else if i < p {
                assert(u[i] == t[i] && u[j] == t[j - 1]);
                if key_less(t[j - 1].2, t[i].2) {
                    assert(!key_less(x.2, t[i].2));
                    if p < t.len() {
                        assert(key_less(x.2, t[p].2));
                        if j - 1 > p {
                            assert(!key_less(t[j - 1].2, t[p].2));
                        }
                        lemma_key_less_transitive(t[j - 1].2, t[i].2, x.2);
                    }
                }
            } else if i == p {
                assert(u[i] == x && u[j] == t[j - 1]);
                if key_less(t[j - 1].2, x.2) {
                    assert(key_less(x.2, t[p].2));
                    lemma_key_less_transitive(t[j - 1].2, x.2, t[p].2);
                    if j - 1 == p {
                        lemma_key_less_irreflexive(t[p].2);
                    } else {
                        assert(!key_less(t[j - 1].2, t[p].2));
                    }
                }
            } else {
                assert(u[i] == t[i - 1] && u[j] == t[j - 1]);
            }
        }
        vstd::seq_lib::to_multiset_insert(t, p, x);
        vstd::seq_lib::to_multiset_build(rest, x);
        assert(s == rest.push(x));
        assert(sorted_by_label(s) == u);
    } else {
        assert(sorted_by_label(s) =~= s);
    }
}

} // verus!
