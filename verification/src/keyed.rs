//! A map keyed by strings and kept in key order, the way a `BTreeMap<String, V>` walks its entries.
//!
//! Strings order byte by byte, which for UTF-8 is the order of their characters' code points.

use vstd::prelude::*;

use crate::text::chars_of;

verus! {

/// Whether `a` sorts strictly before `b`.
pub open spec fn key_less(a: Seq<char>, b: Seq<char>) -> bool
    decreases a.len(),
{
    if a.len() == 0 {
        b.len() > 0
    } else if b.len() == 0 {
        false
    } else if a[0] != b[0] {
        a[0] < b[0]
    } else {
        key_less(a.drop_first(), b.drop_first())
    }
}

/// No string sorts before itself.
pub proof fn lemma_key_less_irreflexive(a: Seq<char>)
    ensures
        !key_less(a, a),
    decreases a.len(),
{
    if a.len() > 0 {
        lemma_key_less_irreflexive(a.drop_first());
    }
}

/// The order is transitive.
pub proof fn lemma_key_less_transitive(a: Seq<char>, b: Seq<char>, c: Seq<char>)
    requires
        key_less(a, b),
        key_less(b, c),
    ensures
        key_less(a, c),
    decreases a.len(),
{
    if a.len() > 0 && b.len() > 0 && c.len() > 0 {
        if a[0] == b[0] && b[0] == c[0] {
            lemma_key_less_transitive(a.drop_first(), b.drop_first(), c.drop_first());
        } else {
            
        }
    }
}

/// Two different strings are ordered one way or the other.
pub proof fn lemma_key_less_total(a: Seq<char>, b: Seq<char>)
    ensures
        a == b || key_less(a, b) || key_less(b, a),
    decreases a.len(),
{
    if a.len() > 0 && b.len() > 0 {
        if a[0] == b[0] {
            lemma_key_less_total(a.drop_first(), b.drop_first());
            if a.drop_first() == b.drop_first() {
                assert(a =~= seq![a[0]] + a.drop_first());
                assert(b =~= seq![b[0]] + b.drop_first());
            }
        } else {
            
        }
    } else if a.len() == 0 && b.len() == 0 {
        assert(a =~= b);
    }
}

/// Where `a` sorts against `b`.
#[derive(Clone, Copy, Debug, PartialEq, Eq)]
pub enum KeyOrder {
    Before,
    Same,
    After,
}

/// Compares two strings the way `String`'s order does.
pub fn compare_keys(a: &str, b: &str) -> (order: KeyOrder)
    ensures
        order == KeyOrder::Before <==> key_less(a@, b@),
        order == KeyOrder::Same <==> a@ == b@,
        order == KeyOrder::After <==> key_less(b@, a@),
{
    let x = chars_of(a);
    let y = chars_of(b);
    let mut i: usize = 0;
    proof {
        assert(a@.skip(0) == a@);
        assert(b@.skip(0) == b@);
    }
    while i < x.len() && i < y.len() && x[i] == y[i]
        invariant
            0 <= i <= x.len(),
            i <= y.len(),
            x@ == a@,
            y@ == b@,
            x@.take(i as int) == y@.take(i as int),
            key_less(a@, b@) == key_less(a@.skip(i as int), b@.skip(i as int)),
            key_less(b@, a@) == key_less(b@.skip(i as int), a@.skip(i as int)),
        decreases x.len() - i,
    {
        proof {
            assert(a@.skip(i as int).drop_first() == a@.skip(i as int + 1));
            assert(b@.skip(i as int).drop_first() == b@.skip(i as int + 1));
            assert(x@.take(i as int + 1) == x@.take(i as int).push(x@[i as int]));
            assert(y@.take(i as int + 1) == y@.take(i as int).push(y@[i as int]));
        }
        i = i + 1;
    }
    proof {
        lemma_key_less_irreflexive(a@);
        lemma_key_less_total(a@, b@);
    }
    if i == x.len() && i == y.len() {
        proof {
            assert(x@ == x@.take(i as int));
            assert(y@ == y@.take(i as int));
        }
        KeyOrder::Same
    } else if i == x.len() {
        proof {
            assert(a@ != b@) by {
                assert(a@.len() != b@.len());
            }
            assert(a@.skip(i as int).len() == 0);
        }
        KeyOrder::Before
    } else if i == y.len() {
        proof {
            assert(a@.len() != b@.len());
            assert(b@.skip(i as int).len() == 0);
        }
        KeyOrder::After
    } else {
        proof {
            assert(a@[i as int] != b@[i as int]);
            assert(a@ != b@);
            assert(a@.skip(i as int)[0] == a@[i as int]);
            assert(b@.skip(i as int)[0] == b@[i as int]);
        }
        if x[i] < y[i] {
            KeyOrder::Before
        } else {
            KeyOrder::After
        }
    }
}

/// The keys of `entries`, in their order.
pub open spec fn keys_of<V>(entries: Seq<(String, V)>) -> Seq<Seq<char>> {
    entries.map_values(|e: (String, V)| e.0@)
}

/// The keys strictly increase.
pub open spec fn strictly_increasing(keys: Seq<Seq<char>>) -> bool {
    forall|i: int, j: int| 0 <= i < j < keys.len() ==> key_less(keys[i], keys[j])
}

/// A map from strings to `V` whose entries are kept in key order, each key once.
pub struct KeyedMap<V> {
    pub entries: Vec<(String, V)>,
}

impl<V> KeyedMap<V> {
    /// The keys are in order and distinct.
    pub open spec fn well_formed(&self) -> bool {
        strictly_increasing(keys_of(self.entries@))
    }

    /// The keys, in order.
    pub open spec fn keys(&self) -> Seq<Seq<char>> {
        keys_of(self.entries@)
    }

    /// Whether the map holds `key`.
    pub open spec fn has(&self, key: Seq<char>) -> bool {
        self.keys().contains(key)
    }

    /// Where `key` sits among the entries.
    pub open spec fn key_index(&self, key: Seq<char>) -> int {
        choose|i: int| 0 <= i < self.entries@.len() && self.keys()[i] == key
    }

    /// The map the entries spell: each key to its value.
    pub open spec fn as_map(&self) -> Map<Seq<char>, V> {
        Map::new(|k: Seq<char>| self.has(k), |k: Seq<char>| self.entries@[self.key_index(k)].1)
    }

    /// A key appears once, so the entry that holds it is the one `key_index` finds.
    pub proof fn lemma_key_index(&self, i: int)
        requires
            self.well_formed(),
            0 <= i < self.entries@.len(),
        ensures
            self.has(self.keys()[i]),
            self.key_index(self.keys()[i]) == i,
            self.as_map().contains_key(self.keys()[i]),
            self.as_map()[self.keys()[i]] == self.entries@[i].1,
    {
        let k = self.keys()[i];
        assert(self.keys()[i] == k);
        assert(self.has(k));
        let j = self.key_index(k);
        assert(0 <= j < self.entries@.len() && self.keys()[j] == k);
        if j < i {
            assert(key_less(self.keys()[j], self.keys()[i]));
            lemma_key_less_irreflexive(k);
        } else if j > i {
            assert(key_less(self.keys()[i], self.keys()[j]));
            lemma_key_less_irreflexive(k);
        }
    }

    /// An empty map.
    pub fn new() -> (map: Self)
        ensures
            map.well_formed(),
            map.entries@.len() == 0,
    {
        KeyedMap { entries: Vec::new() }
    }

    /// How many entries the map holds.
    pub fn len(&self) -> (n: usize)
        ensures
            n == self.entries@.len(),
    {
        self.entries.len()
    }

    /// Where `key` is, or where it would go: the first index whose key does not sort before it.
    pub fn locate(&self, key: &str) -> (found: (usize, bool))
        requires
            self.well_formed(),
        ensures
            found.0 <= self.entries@.len(),
            forall|j: int| 0 <= j < found.0 ==> key_less(self.keys()[j], key@),
            found.1 <==> (found.0 < self.entries@.len() && self.keys()[found.0 as int] == key@),
            found.0 < self.entries@.len() && !found.1 ==> key_less(
                key@,
                self.keys()[found.0 as int],
            ),
            found.1 <==> self.has(key@),
    {
        let mut i: usize = 0;
        while i < self.entries.len()
            invariant
                self.well_formed(),
                0 <= i <= self.entries@.len(),
                forall|j: int| 0 <= j < i ==> key_less(self.keys()[j], key@),
            decreases self.entries@.len() - i,
        {
            let order = compare_keys(self.entries[i].0.as_str(), key);
            match order {
                KeyOrder::Before => {
                    i = i + 1;
                },
                KeyOrder::Same => {
                    proof {
                        assert(self.keys()[i as int] == key@);
                        assert(self.has(key@));
                    }
                    return (i, true);
                },
                KeyOrder::After => {
                    proof {
                        assert(self.keys()[i as int] == self.entries@[i as int].0@);
                        assert forall|j: int| 0 <= j < self.keys().len() implies self.keys()[j]
                            != key@ by {
                            if j < i {
                                lemma_key_less_irreflexive(key@);
                            } else if j > i {
                                assert(key_less(self.keys()[i as int], self.keys()[j]));
                                lemma_key_less_transitive(key@, self.keys()[i as int], self.keys()[j]);
                                lemma_key_less_irreflexive(key@);
                            } else {
                                lemma_key_less_irreflexive(key@);
                            }
                        }
                    }
                    return (i, false);
                },
            }
        }
        proof {
            assert forall|j: int| 0 <= j < self.keys().len() implies self.keys()[j] != key@ by {
                lemma_key_less_irreflexive(key@);
            }
        }
        (i, false)
    }

    /// The index of `key`, or `None` when the map does not hold it.
    pub fn index_of(&self, key: &str) -> (index: Option<usize>)
        requires
            self.well_formed(),
        ensures
            index is Some ==> index->0 < self.entries@.len() && self.keys()[index->0 as int]
                == key@,
            index is None <==> !self.has(key@),
    {
        let (i, found) = self.locate(key);
        if found {
            Some(i)
        } else {
            None
        }
    }

    /// Puts a new key in its place. The key must not be held yet.
    pub fn insert_new(&mut self, key: String, value: V) -> (index: usize)
        requires
            old(self).well_formed(),
            !old(self).has(key@),
        ensures
            final(self).well_formed(),
            index <= old(self).entries@.len(),
            final(self).entries@ == old(self).entries@.insert(index as int, (key, value)),
            final(self).as_map() == old(self).as_map().insert(key@, value),
    {
        let ghost before: KeyedMap<V> = *self;
        let ghost key_view = key@;
        let ghost stored = value;
        let (i, _) = self.locate(key.as_str());
        proof {
            let keys = self.keys();
            let new_entries = self.entries@.insert(i as int, (key, value));
            let new_keys = keys_of(new_entries);
            assert(new_keys == keys.insert(i as int, key@));
            assert forall|a: int, b: int| 0 <= a < b < new_keys.len() implies key_less(
                new_keys[a],
                new_keys[b],
            ) by {
                if b < i {
                } else if b == i {
                } else if a < i {
                    assert(new_keys[b] == keys[b - 1]);
                    assert(key_less(key@, keys[i as int]));
                    lemma_key_less_transitive(keys[a], key@, keys[i as int]);
                    if b - 1 > i {
                        lemma_key_less_transitive(keys[a], keys[i as int], keys[b - 1]);
                    }
                } else if a == i {
                    assert(new_keys[b] == keys[b - 1]);
                    if b - 1 > i {
                        lemma_key_less_transitive(key@, keys[i as int], keys[b - 1]);
                    }
                } else {
                    assert(new_keys[a] == keys[a - 1]);
                    assert(new_keys[b] == keys[b - 1]);
                }
            }
        }
        self.entries.insert(i, (key, value));
        proof {
            lemma_insert_as_map(before, *self, i as int, key_view, stored);
        }
        i
    }

    /// Puts `value` under `key`, replacing what was there.
    pub fn put(&mut self, key: &str, value: V)
        requires
            old(self).well_formed(),
        ensures
            final(self).well_formed(),
            final(self).as_map() == old(self).as_map().insert(key@, value),
    {
        let (i, found) = self.locate(key);
        if found {
            self.set_value_at(i, value);
        } else {
            self.insert_new(String::from_str(key), value);
        }
    }

    /// Takes `key` out, with the value it held.
    pub fn remove(&mut self, key: &str) -> (removed: Option<V>)
        requires
            old(self).well_formed(),
        ensures
            final(self).well_formed(),
            final(self).as_map() == old(self).as_map().remove(key@),
            match removed {
                Some(v) => old(self).as_map().contains_key(key@) && old(self).as_map()[key@] == v,
                None => !old(self).as_map().contains_key(key@),
            },
    {
        match self.index_of(key) {
            Some(i) => {
                proof {
                    self.lemma_key_index(i as int);
                }
                let (_, value) = self.remove_at(i);
                Some(value)
            },
            None => None,
        }
    }

    /// The value `key` holds.
    pub fn get(&self, key: &str) -> (found: Option<&V>)
        requires
            self.well_formed(),
        ensures
            match found {
                Some(v) => self.as_map().contains_key(key@) && self.as_map()[key@] == *v,
                None => !self.as_map().contains_key(key@),
            },
    {
        match self.index_of(key) {
            Some(i) => {
                proof {
                    self.lemma_key_index(i as int);
                }
                Some(&self.entries[i].1)
            },
            None => None,
        }
    }

    /// Removes the entry at `index`.
    pub fn remove_at(&mut self, index: usize) -> (removed: (String, V))
        requires
            old(self).well_formed(),
            index < old(self).entries@.len(),
        ensures
            final(self).well_formed(),
            removed == old(self).entries@[index as int],
            final(self).entries@ == old(self).entries@.remove(index as int),
            final(self).as_map() == old(self).as_map().remove(old(self).keys()[index as int]),
    {
        let ghost before: KeyedMap<V> = *self;
        proof {
            let keys = self.keys();
            let new_keys = keys_of(self.entries@.remove(index as int));
            assert(new_keys == keys.remove(index as int));
            assert forall|a: int, b: int| 0 <= a < b < new_keys.len() implies key_less(
                new_keys[a],
                new_keys[b],
            ) by {
                if a >= index {
                    assert(new_keys[a] == keys[a + 1]);
                }
                if b >= index {
                    assert(new_keys[b] == keys[b + 1]);
                }
                if a < index {
                    assert(new_keys[a] == keys[a]);
                }
                if b < index {
                    assert(new_keys[b] == keys[b]);
                }
            }
        }
        let removed = self.entries.remove(index);
        proof {
            lemma_remove_as_map(before, *self, index as int);
        }
        removed
    }

    /// Replaces the value at `index`, keeping its key.
    pub fn set_value_at(&mut self, index: usize, value: V)
        requires
            old(self).well_formed(),
            index < old(self).entries@.len(),
        ensures
            final(self).well_formed(),
            final(self).keys() == old(self).keys(),
            final(self).entries@.len() == old(self).entries@.len(),
            final(self).as_map() == old(self).as_map().insert(old(self).keys()[index as int], value),
    {
        let ghost before: KeyedMap<V> = *self;
        let ghost stored = value;
        let (key, _) = self.entries.remove(index);
        self.entries.insert(index, (key, value));
        proof {
            assert(self.keys() =~= before.keys());
            lemma_set_as_map(before, *self, index as int, stored);
        }
    }
}

/// The map after one new key went in at `i`.
proof fn lemma_insert_as_map<V>(
    before: KeyedMap<V>,
    after: KeyedMap<V>,
    i: int,
    key: Seq<char>,
    value: V,
)
    requires
        before.well_formed(),
        after.well_formed(),
        0 <= i <= before.entries@.len(),
        !before.has(key),
        after.entries@.len() == before.entries@.len() + 1,
        after.keys()[i] == key,
        after.entries@[i].1 == value,
        forall|j: int| 0 <= j < i ==> after.entries@[j] == before.entries@[j],
        forall|j: int| i < j < after.entries@.len() ==> after.entries@[j] == before.entries@[j - 1],
    ensures
        after.as_map() == before.as_map().insert(key, value),
{
    let want = before.as_map().insert(key, value);
    after.lemma_key_index(i);
    assert forall|k: Seq<char>| #[trigger] after.as_map().contains_key(k) <==> want.contains_key(k) by {
        if after.has(k) {
            let j = choose|j: int| 0 <= j < after.entries@.len() && after.keys()[j] == k;
            if j < i {
                assert(before.keys()[j] == k);
                assert(before.has(k));
            } else if j > i {
                assert(before.keys()[j - 1] == k);
                assert(before.has(k));
            }
        }
        if before.has(k) {
            let j = choose|j: int| 0 <= j < before.entries@.len() && before.keys()[j] == k;
            if j < i {
                assert(after.keys()[j] == k);
            } else {
                assert(after.keys()[j + 1] == k);
            }
            assert(after.has(k));
        }
    }
    assert forall|k: Seq<char>| after.as_map().contains_key(k) implies #[trigger] after.as_map()[k]
        == want[k] by {
        if k != key {
            let j = choose|j: int| 0 <= j < before.entries@.len() && before.keys()[j] == k;
            before.lemma_key_index(j);
            if j < i {
                assert(after.keys()[j] == k);
                after.lemma_key_index(j);
            } else {
                assert(after.keys()[j + 1] == k);
                after.lemma_key_index(j + 1);
            }
        }
    }
    assert(after.as_map() =~= want);
}

/// The map after the entry at `i` went out.
proof fn lemma_remove_as_map<V>(before: KeyedMap<V>, after: KeyedMap<V>, i: int)
    requires
        before.well_formed(),
        after.well_formed(),
        0 <= i < before.entries@.len(),
        after.entries@ == before.entries@.remove(i),
    ensures
        after.as_map() == before.as_map().remove(before.keys()[i]),
{
    let key = before.keys()[i];
    let want = before.as_map().remove(key);
    before.lemma_key_index(i);
    assert forall|k: Seq<char>| #[trigger] after.as_map().contains_key(k) <==> want.contains_key(k) by {
        if after.has(k) {
            let j = choose|j: int| 0 <= j < after.entries@.len() && after.keys()[j] == k;
            if j < i {
                assert(before.keys()[j] == k);
                assert(key_less(k, key));
                lemma_key_less_irreflexive(k);
            } else {
                assert(before.keys()[j + 1] == k);
                assert(key_less(key, k));
                lemma_key_less_irreflexive(k);
            }
            assert(before.has(k));
        }
        if before.has(k) && k != key {
            let j = choose|j: int| 0 <= j < before.entries@.len() && before.keys()[j] == k;
            if j < i {
                assert(after.keys()[j] == k);
            } else {
                assert(j != i);
                assert(after.keys()[j - 1] == k);
            }
            assert(after.has(k));
        }
    }
    assert forall|k: Seq<char>| after.as_map().contains_key(k) implies #[trigger] after.as_map()[k]
        == want[k] by {
        let j = choose|j: int| 0 <= j < after.entries@.len() && after.keys()[j] == k;
        after.lemma_key_index(j);
        if j < i {
            before.lemma_key_index(j);
        } else {
            before.lemma_key_index(j + 1);
        }
    }
    assert(after.as_map() =~= want);
}

/// The map after the value at `i` was replaced.
proof fn lemma_set_as_map<V>(before: KeyedMap<V>, after: KeyedMap<V>, i: int, value: V)
    requires
        before.well_formed(),
        0 <= i < before.entries@.len(),
        after.keys() == before.keys(),
        after.entries@.len() == before.entries@.len(),
        after.entries@[i].1 == value,
        forall|j: int| 0 <= j < after.entries@.len() && j != i ==> after.entries@[j] == before.entries@[j],
    ensures
        after.well_formed(),
        after.as_map() == before.as_map().insert(before.keys()[i], value),
{
    let key = before.keys()[i];
    let want = before.as_map().insert(key, value);
    assert(after.well_formed());
    before.lemma_key_index(i);
    after.lemma_key_index(i);
    assert forall|k: Seq<char>| #[trigger] after.as_map().contains_key(k) <==> want.contains_key(k) by {
        assert(after.has(k) == before.has(k));
    }
    assert forall|k: Seq<char>| after.as_map().contains_key(k) implies #[trigger] after.as_map()[k]
        == want[k] by {
        if k != key {
            let j = choose|j: int| 0 <= j < after.entries@.len() && after.keys()[j] == k;
            after.lemma_key_index(j);
            before.lemma_key_index(j);
        }
    }
    assert(after.as_map() =~= want);
}

} // verus!
