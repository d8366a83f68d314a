//! The draft-recovery dismissal ranges: per-revision markers folded into `[start, end]` pairs.
//!
//! A dismissed checkpoint is not kept as a record of its own: the markers of one draft are folded
//! into inclusive revision ranges, gaps preserved, under one record per draft. The stored ranges
//! and the new revisions are sorted by their start (a stable sort, so two ranges with one start
//! keep the order they came in) and then folded left: a range joins the previous one when it
//! starts at most one past that one's end.

use vstd::prelude::*;

use crate::effects::Json;
use crate::json_text::{json_array_text, json_int_text, json_string_text};
use crate::json_fields::{
    as_i64, as_text, as_true, element, element_of, get, get_of, i64_of, is_true, text_of,
};

verus! {

broadcast use vstd::seq_lib::group_seq_properties;

/// `(start, end)` of one inclusive revision range.
pub type RevisionRange = (i64, i64);

/// How many leading ranges of `t` start at or before `k`.
pub open spec fn leading_at_most(t: Seq<RevisionRange>, k: i64) -> nat
    decreases t.len(),
{
    if t.len() == 0 {
        0
    } else if t[0].0 <= k {
        1 + leading_at_most(t.drop_first(), k)
    } else {
        0
    }
}

/// `r` placed after every leading range that starts at or before it.
pub open spec fn insert_by_start(t: Seq<RevisionRange>, r: RevisionRange) -> Seq<RevisionRange> {
    t.insert(leading_at_most(t, r.0) as int, r)
}

/// The stable sort by start: each range in turn goes after everything already placed that starts
/// at or before it.
pub open spec fn stably_sorted(s: Seq<RevisionRange>) -> Seq<RevisionRange>
    decreases s.len(),
{
    if s.len() == 0 {
        Seq::empty()
    } else {
        insert_by_start(stably_sorted(s.drop_last()), s.last())
    }
}

/// The starts never go down.
pub open spec fn sorted_by_start(s: Seq<RevisionRange>) -> bool {
    forall|i: int, j: int| 0 <= i < j < s.len() ==> s[i].0 <= s[j].0
}

/// The ranges that start at `k`, in their order.
pub open spec fn starting_at(s: Seq<RevisionRange>, k: i64) -> Seq<RevisionRange> {
    s.filter(|r: RevisionRange| r.0 == k)
}

/// One step of the fold: join the last range when `r` starts at most one past its end.
pub open spec fn merge_step(merged: Seq<RevisionRange>, r: RevisionRange) -> Seq<RevisionRange> {
    if merged.len() > 0 && r.0 <= merged.last().1 + 1 {
        let last = merged.last();
        let end = if last.1 >= r.1 {
            last.1
        } else {
            r.1
        };
        merged.drop_last().push((last.0, end))
    } else {
        merged.push(r)
    }
}

/// The fold of `merge_step` over `s`, from the left.
pub open spec fn merge_in_order(s: Seq<RevisionRange>) -> Seq<RevisionRange>
    decreases s.len(),
{
    if s.len() == 0 {
        Seq::empty()
    } else {
        merge_step(merge_in_order(s.drop_last()), s.last())
    }
}

/// What the stored record holds after the new revisions are folded in.
pub open spec fn merged_ranges(
    previous: Seq<RevisionRange>,
    added: Seq<RevisionRange>,
) -> Seq<RevisionRange> {
    merge_in_order(stably_sorted(previous + added))
}

/// Whether revision `v` lies in one of the ranges.
pub open spec fn covers(s: Seq<RevisionRange>, v: int) -> bool {
    exists|i: int| 0 <= i < s.len() && (#[trigger] s[i]).0 <= v <= s[i].1
}

/// Every range starts at or before its end.
pub open spec fn well_formed(s: Seq<RevisionRange>) -> bool {
    forall|i: int| 0 <= i < s.len() ==> s[i].0 <= s[i].1
}

/// No two consecutive ranges touch or overlap, so none of them could be joined.
pub open spec fn separated(s: Seq<RevisionRange>) -> bool {
    forall|i: int| 0 <= i < s.len() - 1 ==> s[i].1 + 1 < s[i + 1].0
}

/// No range ends at the largest revision, where "one past the end" does not exist.
pub open spec fn ends_below_max(s: Seq<RevisionRange>) -> bool {
    forall|i: int| 0 <= i < s.len() ==> s[i].1 < i64::MAX
}

proof fn lemma_leading_at_most(t: Seq<RevisionRange>, k: i64, p: int)
    requires
        0 <= p <= t.len(),
        forall|j: int| 0 <= j < p ==> t[j].0 <= k,
        p == t.len() || t[p].0 > k,
    ensures
        leading_at_most(t, k) == p,
    decreases t.len(),
{
    if t.len() > 0 && p > 0 {
        let rest = t.drop_first();
        assert forall|j: int| 0 <= j < p - 1 implies rest[j].0 <= k by {
            assert(rest[j] == t[j + 1]);
        }
        if p < t.len() {
            assert(rest[p - 1] == t[p]);
        }
        lemma_leading_at_most(rest, k, p - 1);
    }
}

proof fn lemma_leading_bounds(t: Seq<RevisionRange>, k: i64)
    ensures
        leading_at_most(t, k) <= t.len(),
        forall|j: int| 0 <= j < leading_at_most(t, k) ==> t[j].0 <= k,
        leading_at_most(t, k) < t.len() ==> t[leading_at_most(t, k) as int].0 > k,
    decreases t.len(),
{
    if t.len() > 0 && t[0].0 <= k {
        let rest = t.drop_first();
        lemma_leading_bounds(rest, k);
        assert forall|j: int| 0 <= j < leading_at_most(t, k) implies t[j].0 <= k by {
            if j > 0 {
                assert(t[j] == rest[j - 1]);
            }
        }
        if leading_at_most(t, k) < t.len() {
            assert(t[leading_at_most(t, k) as int] == rest[leading_at_most(rest, k) as int]);
        }
    }
}

proof fn lemma_insert_sorted(t: Seq<RevisionRange>, r: RevisionRange)
    requires
        sorted_by_start(t),
    ensures
        sorted_by_start(insert_by_start(t, r)),
        insert_by_start(t, r).len() == t.len() + 1,
        forall|k: i64|
            #![trigger starting_at(insert_by_start(t, r), k)]
            starting_at(insert_by_start(t, r), k) == if r.0 == k {
                starting_at(t, k).push(r)
            } else {
                starting_at(t, k)
            },
{
    lemma_leading_bounds(t, r.0);
    let p = leading_at_most(t, r.0) as int;
    let u = insert_by_start(t, r);
    assert(u == t.take(p) + seq![r] + t.skip(p));
    assert forall|i: int, j: int| 0 <= i < j < u.len() implies u[i].0 <= u[j].0 by {
        if j < p {
            assert(u[i] == t[i] && u[j] == t[j]);
        } else if j == p {
            assert(u[i] == t[i]);
        } else if i < p {
            assert(u[i] == t[i] && u[j] == t[j - 1]);
            assert(t[p].0 > r.0);
        } else if i == p {
            assert(u[j] == t[j - 1]);
            assert(t[p].0 > r.0);
        } else {
            assert(u[i] == t[i - 1] && u[j] == t[j - 1]);
        }
    }
    assert forall|k: i64|
        #![trigger starting_at(insert_by_start(t, r), k)]
        starting_at(insert_by_start(t, r), k) == if r.0 == k {
            starting_at(t, k).push(r)
        } else {
            starting_at(t, k)
        } by {
        let pred = |x: RevisionRange| x.0 == k;
        let a = t.take(p);
        let b = t.skip(p);
        Seq::filter_distributes_over_add(a + seq![r], b, pred);
        Seq::filter_distributes_over_add(a, seq![r], pred);
        Seq::filter_distributes_over_add(a, b, pred);
        assert(t == a + b);
        reveal_with_fuel(Seq::filter, 2);
        assert(seq![r].drop_last() =~= Seq::<RevisionRange>::empty());
        if r.0 == k {
            assert forall|j: int| 0 <= j < b.len() implies !pred(b[j]) by {
                assert(b[j] == t[p + j]);
                assert(t[p].0 <= t[p + j].0);
            }
            b.lemma_all_neg_filter_empty(pred);
            assert(b.filter(pred) =~= Seq::<RevisionRange>::empty());
            assert(a.filter(pred) + seq![r] + b.filter(pred) =~= (a.filter(pred) + b.filter(pred)).push(r));
        } else {
            assert(seq![r].filter(pred) =~= Seq::<RevisionRange>::empty());
            assert(a.filter(pred) + seq![r].filter(pred) =~= a.filter(pred));
        }
    }
}

/// The stable sort really is one: the starts never go down, and the ranges that share a start
/// come out in the order they went in.
pub proof fn law_stable_sort(s: Seq<RevisionRange>)
    ensures
        sorted_by_start(stably_sorted(s)),
        stably_sorted(s).len() == s.len(),
        forall|k: i64| #[trigger] starting_at(stably_sorted(s), k) == starting_at(s, k),
    decreases s.len(),
{
    if s.len() > 0 {
        let rest = s.drop_last();
        law_stable_sort(rest);
        lemma_insert_sorted(stably_sorted(rest), s.last());
        assert(s == rest.push(s.last()));
        assert forall|k: i64| #[trigger] starting_at(stably_sorted(s), k) == starting_at(s, k) by {
            rest.lemma_filter_push(s.last(), |x: RevisionRange| x.0 == k);
            assert(starting_at(stably_sorted(rest), k) == starting_at(rest, k));
        }
    } else {
        assert(starting_at(s, 0) == s) by {
            reveal(Seq::filter);
        }
        assert forall|k: i64| #[trigger] starting_at(stably_sorted(s), k) == starting_at(s, k) by {
            reveal(Seq::filter);
        }
    }
}

/// A range is in the sorted sequence exactly when it is in the input.
proof fn lemma_sort_contains(s: Seq<RevisionRange>, x: RevisionRange)
    ensures
        stably_sorted(s).contains(x) <==> s.contains(x),
{
    law_stable_sort(s);
    let pred = |r: RevisionRange| r.0 == x.0;
    let t = stably_sorted(s);
    if s.contains(x) {
        let i = choose|i: int| 0 <= i < s.len() && s[i] == x;
        s.lemma_filter_contains(pred, i);
        assert(starting_at(t, x.0) == starting_at(s, x.0));
        t.lemma_filter_contains_rev(pred, x);
    }
    if t.contains(x) {
        let i = choose|i: int| 0 <= i < t.len() && t[i] == x;
        t.lemma_filter_contains(pred, i);
        assert(starting_at(t, x.0) == starting_at(s, x.0));
        s.lemma_filter_contains_rev(pred, x);
    }
}

proof fn lemma_covers_same_elements(a: Seq<RevisionRange>, b: Seq<RevisionRange>, v: int)
    requires
        forall|x: RevisionRange| a.contains(x) <==> b.contains(x),
    ensures
        covers(a, v) <==> covers(b, v),
{
    if covers(a, v) {
        let i = choose|i: int| 0 <= i < a.len() && (#[trigger] a[i]).0 <= v <= a[i].1;
        assert(a.contains(a[i]));
        let j = choose|j: int| 0 <= j < b.len() && b[j] == a[i];
        assert(b[j].0 <= v <= b[j].1);
    }
    if covers(b, v) {
        let i = choose|i: int| 0 <= i < b.len() && (#[trigger] b[i]).0 <= v <= b[i].1;
        assert(b.contains(b[i]));
        let j = choose|j: int| 0 <= j < a.len() && a[j] == b[i];
        assert(a[j].0 <= v <= a[j].1);
    }
}

/// What the fold keeps true of `m = merge_in_order(s)`: its ranges are well formed, separated,
/// start where some input range starts, and cover what the input covers.
pub open spec fn fold_facts(s: Seq<RevisionRange>, m: Seq<RevisionRange>) -> bool {
    &&& well_formed(m)
    &&& separated(m)
    &&& forall|i: int|
        0 <= i < m.len() ==> exists|j: int| 0 <= j < s.len() && s[j].0 == #[trigger] m[i].0
    &&& forall|v: int| covers(m, v) <==> covers(s, v)
    &&& s.len() > 0 ==> m.len() > 0
}

/// The step that joins `r` to the last range keeps the fold's facts.
proof fn lemma_join_step(s: Seq<RevisionRange>)
    requires
        s.len() > 0,
        sorted_by_start(s),
        well_formed(s),
        fold_facts(s.drop_last(), merge_in_order(s.drop_last())),
        merge_in_order(s.drop_last()).len() > 0,
        s.last().0 <= merge_in_order(s.drop_last()).last().1 + 1,
        forall|i: int|
            0 <= i < merge_in_order(s.drop_last()).len() ==> merge_in_order(s.drop_last())[i].0
                <= s.last().0,
    ensures
        fold_facts(s, merge_in_order(s)),
{
    let rest = s.drop_last();
    let r = s.last();
    let m = merge_in_order(rest);
    let n = merge_in_order(s);
    let last = m.last();
    let end = if last.1 >= r.1 {
        last.1
    } else {
        r.1
    };
    assert(n == m.drop_last().push((last.0, end)));
    assert(s[s.len() - 1] == r);
    assert forall|i: int| 0 <= i < n.len() implies n[i].0 <= n[i].1 by {
        if i < n.len() - 1 {
            assert(n[i] == m[i]);
        }
    }
    assert forall|i: int| 0 <= i < n.len() - 1 implies n[i].1 + 1 < n[i + 1].0 by {
        assert(n[i] == m[i]);
        if i + 1 < n.len() - 1 {
            assert(n[i + 1] == m[i + 1]);
        } else {
            assert(n[i + 1].0 == m[i + 1].0);
        }
    }
    assert forall|i: int| 0 <= i < n.len() implies exists|j: int|
        0 <= j < s.len() && s[j].0 == #[trigger] n[i].0 by {
        if i < n.len() - 1 {
            assert(n[i] == m[i]);
        } else {
            assert(n[i].0 == m[m.len() - 1].0);
        }
        let j = choose|j: int| 0 <= j < rest.len() && rest[j].0 == m[i].0;
        assert(s[j] == rest[j]);
    }
    assert forall|v: int| covers(n, v) implies covers(s, v) by {
        let i = choose|i: int| 0 <= i < n.len() && (#[trigger] n[i]).0 <= v <= n[i].1;
        if i < n.len() - 1 || v <= last.1 {
            if i < n.len() - 1 {
                assert(n[i] == m[i]);
            } else {
                assert(m[m.len() - 1].0 <= v <= m[m.len() - 1].1);
            }
            assert(covers(m, v));
            let j = choose|j: int| 0 <= j < rest.len() && (#[trigger] rest[j]).0 <= v <= rest[j].1;
            assert(s[j] == rest[j]);
        } else {
            assert(m[m.len() - 1].0 <= r.0);
        }
    }
    assert forall|v: int| covers(s, v) implies covers(n, v) by {
        let j = choose|j: int| 0 <= j < s.len() && (#[trigger] s[j]).0 <= v <= s[j].1;
        if j < s.len() - 1 {
            assert(rest[j] == s[j]);
            assert(covers(rest, v));
            let i = choose|i: int| 0 <= i < m.len() && (#[trigger] m[i]).0 <= v <= m[i].1;
            if i < m.len() - 1 {
                assert(n[i] == m[i]);
            } else {
                assert(n[n.len() - 1].0 <= v <= n[n.len() - 1].1);
            }
        } else {
            assert(n[n.len() - 1].0 <= v <= n[n.len() - 1].1);
        }
    }
}

/// The step that appends `r` as a range of its own keeps the fold's facts.
proof fn lemma_push_step(s: Seq<RevisionRange>)
    requires
        s.len() > 0,
        sorted_by_start(s),
        well_formed(s),
        fold_facts(s.drop_last(), merge_in_order(s.drop_last())),
        merge_in_order(s.drop_last()).len() == 0 || s.last().0 > merge_in_order(
            s.drop_last(),
        ).last().1 + 1,
    ensures
        fold_facts(s, merge_in_order(s)),
{
    let rest = s.drop_last();
    let r = s.last();
    let m = merge_in_order(rest);
    let n = merge_in_order(s);
    assert(n == m.push(r));
    assert(s[s.len() - 1] == r);
    assert forall|i: int| 0 <= i < n.len() implies n[i].0 <= n[i].1 by {
        if i < n.len() - 1 {
            assert(n[i] == m[i]);
        }
    }
    assert forall|i: int| 0 <= i < n.len() - 1 implies n[i].1 + 1 < n[i + 1].0 by {
        assert(n[i] == m[i]);
        if i + 1 < n.len() - 1 {
            assert(n[i + 1] == m[i + 1]);
        }
    }
    assert forall|i: int| 0 <= i < n.len() implies exists|j: int|
        0 <= j < s.len() && s[j].0 == #[trigger] n[i].0 by {
        if i < n.len() - 1 {
            assert(n[i] == m[i]);
            let j = choose|j: int| 0 <= j < rest.len() && rest[j].0 == m[i].0;
            assert(s[j] == rest[j]);
        } else {
            assert(s[s.len() - 1].0 == n[i].0);
        }
    }
    assert forall|v: int| covers(n, v) implies covers(s, v) by {
        let i = choose|i: int| 0 <= i < n.len() && (#[trigger] n[i]).0 <= v <= n[i].1;
        if i < n.len() - 1 {
            assert(n[i] == m[i]);
            assert(covers(m, v));
            let j = choose|j: int| 0 <= j < rest.len() && (#[trigger] rest[j]).0 <= v <= rest[j].1;
            assert(s[j] == rest[j]);
        }
    }
    assert forall|v: int| covers(s, v) implies covers(n, v) by {
        let j = choose|j: int| 0 <= j < s.len() && (#[trigger] s[j]).0 <= v <= s[j].1;
        if j < s.len() - 1 {
            assert(rest[j] == s[j]);
            assert(covers(rest, v));
            let i = choose|i: int| 0 <= i < m.len() && (#[trigger] m[i]).0 <= v <= m[i].1;
            assert(n[i] == m[i]);
        } else {
            assert(n[n.len() - 1] == r);
        }
    }
}

/// The fold keeps its facts over the whole of a sorted, well-formed input.
proof fn lemma_merge_in_order(s: Seq<RevisionRange>)
    requires
        sorted_by_start(s),
        well_formed(s),
    ensures
        fold_facts(s, merge_in_order(s)),
    decreases s.len(),
{
    if s.len() > 0 {
        let rest = s.drop_last();
        let r = s.last();
        assert forall|i: int, j: int| 0 <= i < j < rest.len() implies rest[i].0 <= rest[j].0 by {
            assert(rest[i] == s[i] && rest[j] == s[j]);
        }
        assert forall|i: int| 0 <= i < rest.len() implies rest[i].0 <= rest[i].1 by {
            assert(rest[i] == s[i]);
        }
        lemma_merge_in_order(rest);
        let m = merge_in_order(rest);
        assert forall|i: int| 0 <= i < m.len() implies m[i].0 <= r.0 by {
            let j = choose|j: int| 0 <= j < rest.len() && rest[j].0 == m[i].0;
            assert(rest[j] == s[j]);
        }
        if m.len() > 0 && r.0 <= m.last().1 + 1 {
            lemma_join_step(s);
        } else {
            lemma_push_step(s);
        }
    } else {
        assert(merge_in_order(s) == Seq::<RevisionRange>::empty());
    }
}

/// Folding the new revisions into the stored ranges loses no revision and invents none, and
/// leaves ranges that are well formed, in order, and separated by at least one revision, so no two
/// of them could be joined: the fewest ranges that cover the same revisions.
pub proof fn law_merged_ranges_cover_the_same_revisions(
    previous: Seq<RevisionRange>,
    added: Seq<RevisionRange>,
)
    requires
        well_formed(previous + added),
    ensures
        forall|v: int|
            covers(merged_ranges(previous, added), v) <==> covers(previous, v) || covers(added, v),
        well_formed(merged_ranges(previous, added)),
        separated(merged_ranges(previous, added)),
{
    let all = previous + added;
    let sorted = stably_sorted(all);
    law_stable_sort(all);
    assert forall|x: RevisionRange| sorted.contains(x) <==> all.contains(x) by {
        lemma_sort_contains(all, x);
    }
    assert forall|i: int| 0 <= i < sorted.len() implies sorted[i].0 <= sorted[i].1 by {
        assert(sorted.contains(sorted[i]));
        let j = choose|j: int| 0 <= j < all.len() && all[j] == sorted[i];
    }
    lemma_merge_in_order(sorted);
    assert forall|v: int|
        covers(merged_ranges(previous, added), v) <==> covers(previous, v) || covers(added, v) by {
        lemma_covers_same_elements(sorted, all, v);
        if covers(all, v) {
            let i = choose|i: int| 0 <= i < all.len() && (#[trigger] all[i]).0 <= v <= all[i].1;
            if i < previous.len() {
                assert(all[i] == previous[i]);
            } else {
                assert(all[i] == added[i - previous.len()]);
            }
        }
        if covers(previous, v) {
            let i = choose|i: int| 0 <= i < previous.len() && (#[trigger] previous[i]).0 <= v <= previous[i].1;
            assert(all[i] == previous[i]);
        }
        if covers(added, v) {
            let i = choose|i: int| 0 <= i < added.len() && (#[trigger] added[i]).0 <= v <= added[i].1;
            assert(all[previous.len() + i] == added[i]);
        }
    }
}

/// Sorts the ranges by start, stably.
pub fn sort_by_start(items: Vec<RevisionRange>) -> (sorted: Vec<RevisionRange>)
    ensures
        sorted@ == stably_sorted(items@),
{
    let mut sorted: Vec<RevisionRange> = Vec::new();
    let mut i: usize = 0;
    while i < items.len()
        invariant
            0 <= i <= items.len(),
            sorted@ == stably_sorted(items@.take(i as int)),
            sorted_by_start(sorted@),
        decreases items.len() - i,
    {
        let r = items[i];
        let mut p: usize = 0;
        while p < sorted.len() && sorted[p].0 <= r.0
            invariant
                0 <= p <= sorted.len(),
                forall|j: int| 0 <= j < p ==> sorted@[j].0 <= r.0,
            decreases sorted.len() - p,
        {
            p = p + 1;
        }
        proof {
            lemma_leading_at_most(sorted@, r.0, p as int);
            lemma_insert_sorted(sorted@, r);
            assert(items@.take(i as int + 1).drop_last() == items@.take(i as int));
            assert(items@.take(i as int + 1).last() == r);
        }
        sorted.insert(p, r);
        i = i + 1;
    }
    proof {
        assert(items@.take(items.len() as int) == items@);
    }
    sorted
}

/// Folds sorted ranges left, joining a range to the previous one when it starts at most one past
/// that one's end.
pub fn merge_in_order_ranges(sorted: &Vec<RevisionRange>) -> (merged: Vec<RevisionRange>)
    requires
        ends_below_max(sorted@),
    ensures
        merged@ == merge_in_order(sorted@),
{
    let mut merged: Vec<RevisionRange> = Vec::new();
    let mut i: usize = 0;
    while i < sorted.len()
        invariant
            0 <= i <= sorted.len(),
            ends_below_max(sorted@),
            merged@ == merge_in_order(sorted@.take(i as int)),
            ends_below_max(merged@),
        decreases sorted.len() - i,
    {
        let (start, end) = sorted[i];
        proof {
            assert(sorted@.take(i as int + 1).drop_last() == sorted@.take(i as int));
            assert(sorted@.take(i as int + 1).last() == (start, end));
        }
        let n = merged.len();
        if n > 0 && start <= merged[n - 1].1 + 1 {
            let last = merged[n - 1];
            let joined_end = if last.1 >= end {
                last.1
            } else {
                end
            };
            merged.set(n - 1, (last.0, joined_end));
            proof {
                let m = merge_in_order(sorted@.take(i as int));
                assert(merged@ == m.drop_last().push((last.0, joined_end)));
            }
        } else {
            merged.push((start, end));
        }
        i = i + 1;
    }
    proof {
        assert(sorted@.take(sorted.len() as int) == sorted@);
    }
    merged
}

/// The stored ranges with the new revisions folded in, as the record stores them.
pub fn merge_revision_ranges(previous: Vec<RevisionRange>, added: Vec<RevisionRange>) -> (merged:
    Vec<RevisionRange>)
    requires
        ends_below_max(previous@ + added@),
    ensures
        merged@ == merged_ranges(previous@, added@),
{
    let mut all = previous;
    let mut extra = added;
    all.append(&mut extra);
    let sorted = sort_by_start(all);
    proof {
        assert forall|i: int| 0 <= i < sorted@.len() implies sorted@[i].1 < i64::MAX by {
            lemma_sort_contains(previous@ + added@, sorted@[i]);
            assert(sorted@.contains(sorted@[i]));
            let all_view = previous@ + added@;
            let j = choose|j: int| 0 <= j < all_view.len() && all_view[j] == sorted@[i];
            assert(all_view[j].1 < i64::MAX);
        }
    }
    merge_in_order_ranges(&sorted)
}

} // verus!

verus! {

/// The compact JSON text of one `[start, end]` pair.
pub open spec fn pair_json_text(pair: RevisionRange) -> Seq<char> {
    json_array_text(seq![json_int_text(pair.0 as int), json_int_text(pair.1 as int)])
}

/// The compact JSON text of a list of `[start, end]` pairs: `[[1,3],[5,5]]`.
pub open spec fn pairs_json_text(pairs: Seq<RevisionRange>) -> Seq<char> {
    json_array_text(pairs.map_values(|p: RevisionRange| pair_json_text(p)))
}

/// Writes the pairs as a JSON array of two-element arrays with `serde_json`'s `Value` and its
/// `Display`, which writes compact JSON: the contract states the exact text.
#[verifier::external_body]
fn pairs_json(pairs: &Vec<RevisionRange>) -> (text: String)
    ensures
        text@ == pairs_json_text(pairs@),
{
    serde_json::Value::Array(
        pairs.iter().map(
            |&(start, end)|
                serde_json::Value::Array(
                    vec![serde_json::Value::from(start), serde_json::Value::from(end)],
                ),
        ).collect(),
    ).to_string()
}

/// The stored ranges and the new revisions, merged into the fewest inclusive `[start, end]`
/// pairs, as the record's text.
pub fn ranges(previous: Vec<RevisionRange>, added: Vec<RevisionRange>) -> (text: String)
    requires
        ends_below_max(previous@ + added@),
    ensures
        text@ == pairs_json_text(merged_ranges(previous@, added@)),
{
    let merged = merge_revision_ranges(previous, added);
    pairs_json(&merged)
}

/// The compact JSON text of the marker `[sessionKey, draftId, revision]`.
pub open spec fn marker_json_text(session_key: Seq<char>, draft_id: Seq<char>, revision: i64) -> Seq<
    char,
> {
    json_array_text(
        seq![json_string_text(session_key), json_string_text(draft_id), json_int_text(revision as int)],
    )
}

/// Writes the marker `[sessionKey, draftId, revision]` with `serde_json`'s `Value` and its
/// `Display`, which writes compact JSON: the contract states the exact text.
#[verifier::external_body]
fn marker_json(session_key: &str, draft_id: &str, revision: i64) -> (text: String)
    ensures
        text@ == marker_json_text(session_key@, draft_id@, revision),
{
    serde_json::Value::Array(
        vec![
            serde_json::Value::String(session_key.to_string()),
            serde_json::Value::String(draft_id.to_string()),
            serde_json::Value::from(revision),
        ],
    ).to_string()
}

/// The compact JSON text of a draft's `recoveryDismissed` suffix, `["<sessionKey>","<draftId>"]`.
pub open spec fn dismissal_suffix_text(session_key: Seq<char>, draft_id: Seq<char>) -> Seq<char> {
    json_array_text(seq![json_string_text(session_key), json_string_text(draft_id)])
}

/// The `recoveryDismissed` suffix of one draft, `["<sessionKey>","<draftId>"]`, written with
/// `serde_json`'s `Value` and its `Display`, which writes compact JSON.
#[verifier::external_body]
fn dismissal_suffix(session_key: &str, draft_id: &str) -> (suffix: String)
    ensures
        suffix@ == dismissal_suffix_text(session_key@, draft_id@),
{
    serde_json::Value::Array(
        vec![
            serde_json::Value::String(session_key.to_string()),
            serde_json::Value::String(draft_id.to_string()),
        ],
    ).to_string()
}

/// What one marker stored under the `recovery` suffix `suffix` adds to its draft's group: the
/// suffix, the `recoveryDismissed` suffix of its draft, and its revision.
pub fn marker_entry(suffix: String, marker: &Marker) -> (entry: (String, String, i64))
    ensures
        entry.0 == suffix,
        entry.1@ == dismissal_suffix_text(marker.session_key@, marker.draft_id@),
        entry.2 == marker.revision,
{
    (suffix, dismissal_suffix(marker.session_key.as_str(), marker.draft_id.as_str()), marker.revision)
}

/// A dismissal marker as a record holds it, in its current array form or its legacy form.
#[derive(Clone, Debug, PartialEq, Eq)]
pub struct Marker {
    pub session_key: String,
    pub draft_id: String,
    pub revision: i64,
}

/// The marker a recovery record holds, read from its JSON: the array `[sessionKey, draftId,
/// revision]`, or the legacy checkpoint object with `dismissed: true`, its `sessionKey` and its
/// `version`'s `draftId` and `revision`. Anything else is a live checkpoint and holds none.
pub open spec fn marker_of(value: Json) -> Option<(Seq<char>, Seq<char>, i64)> {
    match value {
        Json::Array(_) => match (
            text_of(element_of(value, 0)),
            text_of(element_of(value, 1)),
            i64_of(element_of(value, 2)),
        ) {
            (Some(s), Some(d), Some(r)) => Some((s, d, r)),
            _ => None,
        },
        _ => if is_true(get_of(value, "dismissed"@)) {
            match get_of(value, "version"@) {
                Some(version) => match (
                    text_of(get_of(value, "sessionKey"@)),
                    text_of(get_of(version, "draftId"@)),
                    i64_of(get_of(version, "revision"@)),
                ) {
                    (Some(s), Some(d), Some(r)) => Some((s, d, r)),
                    _ => None,
                },
                None => None,
            }
        } else {
            None
        },
    }
}

/// The view of a marker.
pub open spec fn decoded_view(m: Marker) -> (Seq<char>, Seq<char>, i64) {
    (m.session_key@, m.draft_id@, m.revision)
}

/// Reads the marker a recovery record holds; `None` for a record that is no JSON.
pub fn decode_marker(value: Option<&Json>) -> (marker: Option<Marker>)
    ensures
        match marker {
            Some(m) => value matches Some(v) && marker_of(*v) == Some(decoded_view(m)),
            None => value matches Some(v) ==> marker_of(*v) is None,
        },
{
    let value = match value {
        Some(v) => v,
        None => return None,
    };
    match value {
        Json::Array(_) => {
            let revision = match as_i64(element(value, 2)) {
                Some(r) => r,
                None => return None,
            };
            let session_key = match as_text(element(value, 0)) {
                Some(s) => String::from_str(s),
                None => return None,
            };
            let draft_id = match as_text(element(value, 1)) {
                Some(d) => String::from_str(d),
                None => return None,
            };
            Some(Marker { session_key, draft_id, revision })
        },
        _ => {
            if !as_true(get(value, "dismissed")) {
                return None;
            }
            let version = match get(value, "version") {
                Some(v) => v,
                None => return None,
            };
            let session_key = match as_text(get(value, "sessionKey")) {
                Some(s) => String::from_str(s),
                None => return None,
            };
            let draft_id = match as_text(get(version, "draftId")) {
                Some(d) => String::from_str(d),
                None => return None,
            };
            let revision = match as_i64(get(version, "revision")) {
                Some(r) => r,
                None => return None,
            };
            Some(Marker { session_key, draft_id, revision })
        },
    }
}

/// The marker's array form, when it takes fewer bytes than the record `raw` holds now: a legacy
/// marker is shrunk in place before anything else is written, so the migration fits in a store
/// already at its bound.
pub fn shrunk_marker(marker: &Marker, raw: &str) -> (compact: Option<String>)
    ensures
        match compact {
            Some(c) => c@ == marker_json_text(marker.session_key@, marker.draft_id@, marker.revision)
                && vstd::utf8::encode_utf8(c@).len() < vstd::utf8::encode_utf8(raw@).len(),
            None => vstd::utf8::encode_utf8(
                marker_json_text(marker.session_key@, marker.draft_id@, marker.revision),
            ).len() >= vstd::utf8::encode_utf8(raw@).len(),
        },
{
    let compact = marker_json(marker.session_key.as_str(), marker.draft_id.as_str(), marker.revision);
    if compact.as_str().as_bytes().len() < raw.as_bytes().len() {
        Some(compact)
    } else {
        None
    }
}

/// The markers of one draft: the record their ranges live in, the marker records to remove once
/// the ranges are stored, and the revisions as one-revision ranges.
#[derive(Clone, Debug, PartialEq, Eq)]
pub struct DismissalGroup {
    pub key: String,
    pub names: Vec<String>,
    pub revisions: Vec<RevisionRange>,
}

/// The group with key `key`.
fn find_group(groups: &Vec<DismissalGroup>, key: &str) -> (found: Option<usize>)
    ensures
        match found {
            Some(g) => g < groups@.len() && groups@[g as int].key@ == key@,
            None => forall|h: int| 0 <= h < groups@.len() ==> #[trigger] groups@[h].key@ != key@,
        },
{
    let mut g: usize = 0;
    while g < groups.len()
        invariant
            0 <= g <= groups@.len(),
            forall|h: int| 0 <= h < g ==> #[trigger] groups@[h].key@ != key@,
        decreases groups@.len() - g,
    {
        if crate::text::same_text(groups[g].key.as_str(), key) {
            return Some(g);
        }
        g = g + 1;
    }
    None
}

/// A group as the contracts speak of it.
pub struct GroupView {
    pub key: Seq<char>,
    pub names: Seq<Seq<char>>,
    pub revisions: Seq<RevisionRange>,
}

/// The view of a group.
pub open spec fn group_view(g: DismissalGroup) -> GroupView {
    GroupView { key: g.key@, names: g.names@.map_values(|n: String| n@), revisions: g.revisions@ }
}

/// The view of a list of groups.
pub open spec fn groups_view(groups: Seq<DismissalGroup>) -> Seq<GroupView> {
    groups.map_values(|g: DismissalGroup| group_view(g))
}

/// The view of a `(record suffix, group key, revision)` marker.
pub open spec fn marker_view(m: (String, String, i64)) -> (Seq<char>, Seq<char>, i64) {
    (m.0@, m.1@, m.2)
}

/// Whether some group has key `key`.
pub open spec fn has_key(groups: Seq<GroupView>, key: Seq<char>) -> bool {
    exists|g: int| 0 <= g < groups.len() && #[trigger] groups[g].key == key
}

/// The group with key `key`.
pub open spec fn key_position(groups: Seq<GroupView>, key: Seq<char>) -> int {
    choose|g: int| 0 <= g < groups.len() && #[trigger] groups[g].key == key
}

/// The groups once one more marker is folded in: it joins the group of its key, or starts one
/// at the end.
pub open spec fn add_marker(groups: Seq<GroupView>, m: (Seq<char>, Seq<char>, i64)) -> Seq<
    GroupView,
> {
    if has_key(groups, m.1) {
        let g = key_position(groups, m.1);
        groups.update(
            g,
            GroupView {
                key: groups[g].key,
                names: groups[g].names.push(m.0),
                revisions: groups[g].revisions.push((m.2, m.2)),
            },
        )
    } else {
        groups.push(GroupView { key: m.1, names: seq![m.0], revisions: seq![(m.2, m.2)] })
    }
}

/// The markers folded into groups, from the first.
pub open spec fn grouped_of(markers: Seq<(Seq<char>, Seq<char>, i64)>) -> Seq<GroupView>
    decreases markers.len(),
{
    if markers.len() == 0 {
        Seq::empty()
    } else {
        add_marker(grouped_of(markers.drop_last()), markers.last())
    }
}

/// Folds `(record suffix, group key, revision)` markers into one group per key, in the order the
/// keys first appear, each with its markers' suffixes and one-revision ranges in order.
pub fn group_dismissals(markers: &Vec<(String, String, i64)>) -> (groups: Vec<DismissalGroup>)
    ensures
        groups_view(groups@) == grouped_of(markers@.map_values(|m: (String, String, i64)| marker_view(m))),
        forall|g: int, h: int|
            0 <= g < h < groups@.len() ==> #[trigger] groups@[g].key@ != #[trigger] groups@[h].key@,
{
    let ghost all = markers@.map_values(|m: (String, String, i64)| marker_view(m));
    let mut groups: Vec<DismissalGroup> = Vec::new();
    let mut i: usize = 0;
    proof {
        assert(groups_view(groups@) =~= grouped_of(all.take(0)));
    }
    while i < markers.len()
        invariant
            0 <= i <= markers@.len(),
            all == markers@.map_values(|m: (String, String, i64)| marker_view(m)),
            groups_view(groups@) == grouped_of(all.take(i as int)),
            forall|g: int, h: int|
                0 <= g < h < groups@.len() ==> #[trigger] groups@[g].key@ != #[trigger] groups@[h].key@,
        decreases markers@.len() - i,
    {
        let (suffix, key, revision) = (&markers[i].0, &markers[i].1, markers[i].2);
        let ghost before = groups@;
        let ghost view = groups_view(before);
        let ghost m = all[i as int];
        proof {
            assert(all.take(i as int + 1).drop_last() =~= all.take(i as int));
            assert(all.take(i as int + 1).last() == m);
            assert(m == (suffix@, key@, revision));
        }
        match find_group(&groups, key.as_str()) {
            Some(g) => {
                proof {
                    assert(view[g as int].key == key@);
                    assert(has_key(view, key@));
                    let c = key_position(view, key@);
                    if c != g as int {
                        if c < g {
                            assert(before[c].key@ != before[g as int].key@);
                        } else {
                            assert(before[g as int].key@ != before[c].key@);
                        }
                    }
                }
                let mut group = groups.remove(g);
                group.names.push(suffix.clone());
                group.revisions.push((revision, revision));
                let ghost grown = group;
                groups.insert(g, group);
                proof {
                    assert(groups@ =~= before.update(g as int, grown));
                    assert(group_view(grown).names =~= view[g as int].names.push(suffix@));
                    assert(groups_view(groups@) =~= add_marker(view, m));
                }
            },
            None => {
                proof {
                    assert(!has_key(view, key@));
                }
                let mut names: Vec<String> = Vec::new();
                names.push(suffix.clone());
                let mut revisions: Vec<RevisionRange> = Vec::new();
                revisions.push((revision, revision));
                groups.push(DismissalGroup { key: key.clone(), names, revisions });
                proof {
                    assert(group_view(groups@[groups@.len() - 1]).names =~= seq![suffix@]);
                    assert(groups_view(groups@) =~= add_marker(view, m));
                }
            },
        }
        i = i + 1;
    }
    proof {
        assert(all.take(markers@.len() as int) =~= all);
    }
    groups
}

/// One storage step of a draft's dismissal compaction.
#[derive(Clone, Debug, PartialEq, Eq)]
pub enum DismissalWrite {
    /// Store the draft's ranges record under this suffix.
    Ranges { suffix: String, text: String },
    /// Remove one marker record.
    RemoveMarker { suffix: String },
}

/// The steps for one draft, in order: its ranges record first, with the stored ranges
/// (`previous`) and its markers' revisions merged, then the removal of each of its markers. A
/// crash between the two leaves markers that a range already covers, never a lost dismissal.
pub fn dismissal_writes(group: DismissalGroup, previous: Vec<RevisionRange>) -> (writes: Vec<
    DismissalWrite,
>)
    requires
        ends_below_max(previous@ + group.revisions@),
    ensures
        writes@.len() == group.names@.len() + 1,
        writes@[0] matches DismissalWrite::Ranges { suffix, text } && suffix@ == group.key@
            && text@ == pairs_json_text(merged_ranges(previous@, group.revisions@)),
        forall|i: int|
            0 <= i < group.names@.len() ==> (#[trigger] writes@[i + 1] matches DismissalWrite::RemoveMarker {
                suffix,
            } && suffix@ == group.names@[i]@),
{
    let DismissalGroup { key, names, revisions } = group;
    let text = ranges(previous, revisions);
    let mut writes: Vec<DismissalWrite> = Vec::new();
    writes.push(DismissalWrite::Ranges { suffix: key, text });
    let mut i: usize = 0;
    while i < names.len()
        invariant
            0 <= i <= names@.len(),
            writes@.len() == i + 1,
            writes@[0] matches DismissalWrite::Ranges { suffix, text: t } && suffix@ == key@
                && t@ == text@,
            forall|j: int|
                0 <= j < i ==> (#[trigger] writes@[j + 1] matches DismissalWrite::RemoveMarker {
                    suffix,
                } && suffix@ == names@[j]@),
        decreases names@.len() - i,
    {
        writes.push(DismissalWrite::RemoveMarker { suffix: names[i].clone() });
        i = i + 1;
    }
    writes
}

} // verus!
