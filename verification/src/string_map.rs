//! A map with text keys, kept in the order of its keys.

use crate::text::{chars_of, same_text, text_before};
use vstd::prelude::*;

verus! {

/// A map from text to values. Its entries stand in the order of their keys,
/// and no two have the same key.
#[derive(Debug, Clone, Default)]
pub struct StringMap<V> {
    entries: Vec<(String, V)>,
}

/// The keys stand in ascending order.
pub open spec fn ascending(keys: Seq<Seq<char>>) -> bool {
    forall|i: int, j: int| 0 <= i < j < keys.len() ==> text_before(#[trigger] keys[i], #[trigger] keys[j])
}

/// An index at which a key stands.
pub open spec fn key_index(keys: Seq<Seq<char>>, key: Seq<char>) -> int {
    choose|i: int| 0 <= i < keys.len() && keys[i] == key
}

impl<V> StringMap<V> {
    /// The keys, in the order of the entries.
    pub closed spec fn keys(&self) -> Seq<Seq<char>> {
        self.entries@.map_values(|e: (String, V)| e.0@)
    }

    /// The values, in the order of the entries.
    pub closed spec fn values(&self) -> Seq<V> {
        self.entries@.map_values(|e: (String, V)| e.1)
    }

    /// The entries stand in the order of their keys.
    pub open spec fn well_formed(&self) -> bool {
        &&& ascending(self.keys())
        &&& self.keys().len() == self.values().len()
    }
}

impl<V> View for StringMap<V> {
    type V = Map<Seq<char>, V>;

    open spec fn view(&self) -> Map<Seq<char>, V> {
        map_of(self.keys(), self.values())
    }
}

// ---------------------------------------------------------------------------
// The order of text
// ---------------------------------------------------------------------------

/// No text stands before itself, and of two texts at most one stands before
/// the other.
pub proof fn lemma_before_is_strict(a: Seq<char>, b: Seq<char>)
    ensures
        text_before(a, b) ==> !text_before(b, a) && a != b,
    decreases a.len(),
{
    if a.len() > 0 && b.len() > 0 && a[0] == b[0] {
        lemma_before_is_strict(a.skip(1), b.skip(1));
    }
}

/// Of two different texts one stands before the other.
pub proof fn lemma_before_is_total(a: Seq<char>, b: Seq<char>)
    ensures
        a == b || text_before(a, b) || text_before(b, a),
    decreases a.len(),
{
    if a.len() > 0 && b.len() > 0 && a[0] == b[0] {
        lemma_before_is_total(a.skip(1), b.skip(1));
        if a.skip(1) == b.skip(1) {
            assert(a =~= b) by {
                assert(a.len() == b.len());
                assert forall|i: int| 0 <= i < a.len() implies a[i] == b[i] by {
                    if i > 0 {
                        assert(a.skip(1)[i - 1] == b.skip(1)[i - 1]);
                    }
                }
            }
        }
    } else if a.len() == 0 && b.len() == 0 {
        assert(a =~= b);
    }
}

/// What stands before a text stands before what follows that text.
pub proof fn lemma_before_is_transitive(a: Seq<char>, b: Seq<char>, c: Seq<char>)
    requires
        text_before(a, b),
        text_before(b, c),
    ensures
        text_before(a, c),
    decreases a.len(),
{
    if a.len() > 0 && a[0] == b[0] && b[0] == c[0] {
        lemma_before_is_transitive(a.skip(1), b.skip(1), c.skip(1));
    }
}

/// Whether `a` stands before `b`.
pub fn stands_before(a: &str, b: &str) -> (before: bool)
    ensures
        before == text_before(a@, b@),
{
    let x = chars_of(a);
    let y = chars_of(b);
    let mut i: usize = 0;
    assert(x@.skip(0) =~= x@ && y@.skip(0) =~= y@);
    while i < x.len() && i < y.len()
        invariant
            x@ == a@,
            y@ == b@,
            i <= x@.len(),
            i <= y@.len(),
            text_before(x@, y@) == text_before(x@.skip(i as int), y@.skip(i as int)),
        decreases x@.len() - i,
    {
        let p: char = x[i];
        let q: char = y[i];
        assert(x@.skip(i as int)[0] == p && y@.skip(i as int)[0] == q);
        if p != q {
            return p < q;
        }
        assert(x@.skip(i as int).skip(1) =~= x@.skip(i + 1));
        assert(y@.skip(i as int).skip(1) =~= y@.skip(i + 1));
        i += 1;
    }
    i < y.len()
}

// ---------------------------------------------------------------------------
// The map
// ---------------------------------------------------------------------------

/// In ascending keys, every key stands at one index.
proof fn lemma_key_index(keys: Seq<Seq<char>>, i: int)
    requires
        ascending(keys),
        0 <= i < keys.len(),
    ensures
        keys.contains(keys[i]),
        key_index(keys, keys[i]) == i,
{
    let j = key_index(keys, keys[i]);
    assert(0 <= j < keys.len() && keys[j] == keys[i]);
    if j < i {
        lemma_before_is_strict(keys[j], keys[i]);
    } else if i < j {
        lemma_before_is_strict(keys[i], keys[j]);
    }
}

/// The map of some keys and values.
pub open spec fn map_of<V>(keys: Seq<Seq<char>>, values: Seq<V>) -> Map<Seq<char>, V> {
    Map::new(|key: Seq<char>| keys.contains(key), |key: Seq<char>| values[key_index(keys, key)])
}

/// To change the value at an index is to change the value of the key there.
proof fn lemma_changed_value<V>(keys: Seq<Seq<char>>, values: Seq<V>, at: int, value: V)
    requires
        ascending(keys),
        keys.len() == values.len(),
        0 <= at < keys.len(),
    ensures
        map_of(keys, values.update(at, value)) == map_of(keys, values).insert(keys[at], value),
{
    lemma_key_index(keys, at);
    assert forall|other: Seq<char>| keys.contains(other) && other != keys[at] implies key_index(
        keys,
        other,
    ) != at by {}
    assert(map_of(keys, values.update(at, value)) =~= map_of(keys, values).insert(
        keys[at],
        value,
    ));
}

impl<V> StringMap<V> {
    /// A map without entries.
    pub fn new() -> (map: Self)
        ensures
            map.well_formed(),
            map@ == Map::<Seq<char>, V>::empty(),
            map.keys().len() == 0,
    {
        let map = StringMap { entries: Vec::new() };
        assert(map@ =~= Map::<Seq<char>, V>::empty());
        map
    }

    /// An entry of the map is one of its keys with the value of that key.
    pub proof fn lemma_entry(&self, index: int)
        requires
            self.well_formed(),
            0 <= index < self.keys().len(),
        ensures
            self@.contains_key(self.keys()[index]),
            self@[self.keys()[index]] == self.values()[index],
    {
        lemma_key_index(self.keys(), index);
    }

    /// The number of entries.
    pub fn len(&self) -> (n: usize)
        ensures
            n == self.keys().len(),
    {
        self.entries.len()
    }

    /// The key of the entry at an index.
    pub fn key_at(&self, index: usize) -> (key: &String)
        requires
            index < self.keys().len(),
        ensures
            key@ == self.keys()[index as int],
    {
        &self.entries[index].0
    }

    /// The value of the entry at an index.
    pub fn value_at(&self, index: usize) -> (value: &V)
        requires
            self.well_formed(),
            index < self.keys().len(),
        ensures
            *value == self.values()[index as int],
            self@.contains_key(self.keys()[index as int]),
            *value == self@[self.keys()[index as int]],
    {
        proof {
            lemma_key_index(self.keys(), index as int);
        }
        &self.entries[index].1
    }

    /// How many keys stand before a key.
    fn lower_bound(&self, key: &str) -> (at: usize)
        requires
            self.well_formed(),
        ensures
            at <= self.keys().len(),
            forall|i: int| 0 <= i < at ==> text_before(#[trigger] self.keys()[i], key@),
            forall|i: int|
                at <= i < self.keys().len() ==> !text_before(#[trigger] self.keys()[i], key@),
    {
        let mut low: usize = 0;
        let mut high: usize = self.entries.len();
        while low < high
            invariant
                low <= high <= self.entries.len(),
                self.entries.len() == self.keys().len(),
                self.well_formed(),
                forall|i: int| 0 <= i < low ==> text_before(#[trigger] self.keys()[i], key@),
                forall|i: int|
                    high <= i < self.keys().len() ==> !text_before(#[trigger] self.keys()[i], key@),
            decreases high - low,
        {
            let mid: usize = low + (high - low) / 2;
            let before = stands_before(&self.entries[mid].0, key);
            assert(self.keys()[mid as int] == self.entries@[mid as int].0@);
            if before {
                assert forall|i: int| 0 <= i < mid + 1 implies text_before(
                    #[trigger] self.keys()[i],
                    key@,
                ) by {
                    if i < mid {
                        lemma_before_is_transitive(self.keys()[i], self.keys()[mid as int], key@);
                    }
                }
                low = mid + 1;
            } else {
                assert forall|i: int| mid <= i < self.keys().len() implies !text_before(
                    #[trigger] self.keys()[i],
                    key@,
                ) by {
                    if mid < i && text_before(self.keys()[i], key@) {
                        lemma_before_is_transitive(self.keys()[mid as int], self.keys()[i], key@);
                    }
                }
                high = mid;
            }
        }
        low
    }

    /// The value of a key.
    pub fn get(&self, key: &str) -> (value: Option<&V>)
        requires
            self.well_formed(),
        ensures
            value is Some <==> self@.contains_key(key@),
            value matches Some(v) ==> *v == self@[key@],
    {
        let at = self.lower_bound(key);
        if at < self.entries.len() && same_text(&self.entries[at].0, key) {
            proof {
                assert(self.keys()[at as int] == key@);
                lemma_key_index(self.keys(), at as int);
            }
            Some(&self.entries[at].1)
        } else {
            proof {
                if self.keys().contains(key@) {
                    let i = key_index(self.keys(), key@);
                    lemma_before_is_strict(key@, key@);
                    assert(at <= i);
                    assert(self.keys()[at as int] == self.entries@[at as int].0@);
                    assert(at < i);
                    assert(text_before(self.keys()[at as int], self.keys()[i]));
                }
            }
            None
        }
    }

    /// Whether a key has a value.
    pub fn contains_key(&self, key: &str) -> (found: bool)
        requires
            self.well_formed(),
        ensures
            found == self@.contains_key(key@),
    {
        self.get(key).is_some()
    }

    /// Gives a key a value, in place of the one that it had.
    pub fn insert(&mut self, key: String, value: V)
        requires
            old(self).well_formed(),
        ensures
            final(self).well_formed(),
            final(self)@ == old(self)@.insert(key@, value),
    {
        let at = self.lower_bound(&key);
        let ghost keys = self.keys();
        let ghost values = self.values();
        let ghost k = key@;
        if at < self.entries.len() && same_text(&self.entries[at].0, &key) {
            assert(keys[at as int] == k);
            self.entries[at] = (key, value);
            proof {
                assert(self.keys() =~= keys);
                assert(self.values() =~= values.update(at as int, value));
                lemma_changed_value(keys, values, at as int, value);
            }
        } else {
            proof {
                if at < keys.len() {
                    lemma_before_is_total(keys[at as int], k);
                    assert(keys[at as int] == self.entries@[at as int].0@);
                    assert(text_before(k, keys[at as int]));
                }
            }
            self.entries.insert(at, (key, value));
            proof {
                assert(self.keys() =~= keys.insert(at as int, k));
                assert(self.values() =~= values.insert(at as int, value));
                assert forall|i: int, j: int| 0 <= i < j < self.keys().len() implies text_before(
                    #[trigger] self.keys()[i],
                    #[trigger] self.keys()[j],
                ) by {
                    let a = if i < at { i } else { i - 1 };
                    let b = if j < at { j } else { j - 1 };
                    if i == at && j > at + 1 {
                        lemma_before_is_transitive(k, keys[at as int], keys[b]);
                    }
                }
                lemma_key_index(self.keys(), at as int);
                assert(self.keys()[at as int] == k);
                assert forall|other: Seq<char>| other != k implies (keys.contains(other)
                    <==> self.keys().contains(other)) && (keys.contains(other) ==> self.values()[key_index(self.keys(), other)]
                    == values[key_index(keys, other)]) by {
                    if keys.contains(other) {
                        let i = key_index(keys, other);
                        let n = if i < at { i } else { i + 1 };
                        assert(self.keys()[n] == other);
                        lemma_key_index(self.keys(), n);
                    }
                    if self.keys().contains(other) {
                        let n = key_index(self.keys(), other);
                        let i = if n < at { n } else { n - 1 };
                        assert(keys[i] == other);
                    }
                }
                let new = old(self)@.insert(k, value);
                assert forall|other: Seq<char>| self@.contains_key(other)
                    <==> new.contains_key(other) by {}
                assert forall|other: Seq<char>| self@.contains_key(other) implies self@[other]
                    == new[other] by {
                    if other == k {
                        assert(self.values()[at as int] == value);
                    }
                }
                assert(self@ =~= new);
            }
        }
    }

    /// The value of the entry at an index, to be changed.
    fn slot(&mut self, at: usize) -> (value: &mut V)
        requires
            at < old(self).keys().len(),
        ensures
            *value == old(self).values()[at as int],
            final(self).keys() =~= old(self).keys(),
            final(self).values() =~= old(self).values().update(at as int, *final(value)),
    {
        &mut self.entries[at].1
    }

    /// The value of a key, to be changed.
    pub fn get_mut(&mut self, key: &str) -> (value: Option<&mut V>)
        requires
            old(self).well_formed(),
        ensures
            match value {
                Some(v) => {
                    &&& old(self)@.contains_key(key@)
                    &&& *v == old(self)@[key@]
                    &&& final(self)@ == old(self)@.insert(key@, *final(v))
                    &&& final(self).keys() == old(self).keys()
                },
                None => {
                    &&& !old(self)@.contains_key(key@)
                    &&& *final(self) == *old(self)
                },
            },
            final(self).well_formed(),
    {
        let at = self.lower_bound(key);
        let ghost keys = self.keys();
        let ghost values = self.values();
        if at < self.entries.len() && same_text(&self.entries[at].0, key) {
            proof {
                assert(keys[at as int] == key@);
                lemma_key_index(keys, at as int);
            }
            let value = self.slot(at);
            proof {
                lemma_changed_value(keys, values, at as int, *final(value));
            }
            Some(value)
        } else {
            proof {
                if keys.contains(key@) {
                    let i = key_index(keys, key@);
                    lemma_before_is_strict(key@, key@);
                    assert(at <= i);
                    assert(keys[at as int] == self.entries@[at as int].0@);
                    assert(at < i);
                    assert(text_before(keys[at as int], keys[i]));
                }
            }
            None
        }
    }
}

} // verus!
