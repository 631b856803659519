//! Maps from strings to values, kept in the order of their keys.

use crate::order::{compare, lemma_precedes_asymmetric, lemma_precedes_transitive, precedes, Rank};
use vstd::prelude::*;

verus! {

/// A map keyed by strings whose entries stand in ascending order of their keys.
#[derive(Debug, PartialEq, Eq)]
pub struct TextMap<V> {
    pub(crate) entries: Vec<(String, V)>,
}

/// The keys of `entries` ascend.
pub open spec fn ascending<V>(entries: Seq<(String, V)>) -> bool {
    forall|i: int, j: int| #![trigger entries[i], entries[j]]
        0 <= i < j < entries.len() ==> precedes(entries[i].0@, entries[j].0@)
}

/// `key` is the key of the entry at `i`.
pub open spec fn keyed_at<V>(entries: Seq<(String, V)>, key: Seq<char>, i: int) -> bool {
    0 <= i < entries.len() && entries[i].0@ == key
}

/// The map that `entries` list.
pub open spec fn listed<V>(entries: Seq<(String, V)>) -> Map<Seq<char>, V> {
    Map::new(
        |key: Seq<char>| exists|i: int| keyed_at(entries, key, i),
        |key: Seq<char>| entries[choose|i: int| keyed_at(entries, key, i)].1,
    )
}

/// In ascending entries a key stands once.
pub proof fn lemma_keyed_once<V>(entries: Seq<(String, V)>, i: int)
    requires
        ascending(entries),
        0 <= i < entries.len(),
    ensures
        listed(entries).contains_key(entries[i].0@),
        listed(entries)[entries[i].0@] == entries[i].1,
{
    let key = entries[i].0@;
    assert(keyed_at(entries, key, i));
    let k = choose|k: int| keyed_at(entries, key, k);
    if k < i {
        lemma_precedes_asymmetric(entries[k].0@, entries[i].0@);
    } else if i < k {
        lemma_precedes_asymmetric(entries[i].0@, entries[k].0@);
    }
}

impl<V> View for TextMap<V> {
    type V = Map<Seq<char>, V>;

    closed spec fn view(&self) -> Map<Seq<char>, V> {
        listed(self.entries@)
    }
}

impl<V> TextMap<V> {
    #[verifier::type_invariant]
    pub(crate) closed spec fn ordered(self) -> bool {
        ascending(self.entries@)
    }

    pub(crate) proof fn lemma_view(&self)
        ensures
            self@ == listed(self.entries@),
    {
    }

    /// The keys in ascending order.
    pub closed spec fn keys(&self) -> Seq<Seq<char>> {
        Seq::new(self.entries@.len(), |i: int| self.entries@[i].0@)
    }

    /// The empty map.
    pub fn new() -> (out: Self)
        ensures
            out@ == Map::<Seq<char>, V>::empty(),
            out.keys() == Seq::<Seq<char>>::empty(),
    {
        let out = TextMap { entries: Vec::new() };
        proof {
            assert(out@ =~= Map::<Seq<char>, V>::empty());
        }
        out
    }

    /// The number of entries. The keys ascend, and they are the keys of the map.
    pub fn len(&self) -> (n: usize)
        ensures
            n == self.keys().len(),
            forall|i: int, j: int| #![trigger self.keys()[i], self.keys()[j]]
                0 <= i < j < self.keys().len() ==> precedes(self.keys()[i], self.keys()[j]),
            forall|key: Seq<char>| #[trigger]
                self@.contains_key(key) <==> self.keys().contains(key),
    {
        proof {
            use_type_invariant(self);
            lemma_keys(self.entries@);
        }
        self.entries.len()
    }

    /// The position of the entry for a key, or the position where it belongs.
    fn position(&self, key: &str) -> (at: Result<usize, usize>)
        ensures
            match at {
                Ok(at) => keyed_at(self.entries@, key@, at as int),
                Err(at) => {
                    &&& at <= self.entries@.len()
                    &&& forall|i: int| 0 <= i < at ==> precedes(#[trigger] self.entries@[i].0@, key@)
                    &&& forall|i: int|
                        at <= i < self.entries@.len() ==> precedes(
                            key@,
                            #[trigger] self.entries@[i].0@,
                        )
                },
            },
    {
        proof {
            use_type_invariant(self);
        }
        let mut i: usize = 0;
        while i < self.entries.len()
            invariant
                ascending(self.entries@),
                i <= self.entries@.len(),
                forall|j: int| 0 <= j < i ==> precedes(#[trigger] self.entries@[j].0@, key@),
            decreases self.entries@.len() - i,
        {
            match compare(self.entries[i].0.as_str(), key) {
                Rank::Before => {},
                Rank::Same => {
                    return Ok(i);
                },
                Rank::After => {
                    proof {
                        assert forall|j: int| i <= j < self.entries@.len() implies precedes(
                            key@,
                            #[trigger] self.entries@[j].0@,
                        ) by {
                            if i < j {
                                lemma_precedes_transitive(
                                    key@,
                                    self.entries@[i as int].0@,
                                    self.entries@[j].0@,
                                );
                            }
                        }
                    }
                    return Err(i);
                },
            }
            i = i + 1;
        }
        Err(i)
    }

    /// The value of a key.
    pub fn get(&self, key: &str) -> (out: Option<&V>)
        ensures
            match out {
                Some(value) => self@.contains_key(key@) && *value == self@[key@],
                None => !self@.contains_key(key@),
            },
    {
        proof {
            use_type_invariant(self);
        }
        match self.position(key) {
            Ok(at) => {
                proof {
                    lemma_keyed_once(self.entries@, at as int);
                }
                Some(&self.entries[at].1)
            },
            Err(_) => {
                proof {
                    self.lemma_absent(key@);
                }
                None
            },
        }
    }

    proof fn lemma_absent(&self, key: Seq<char>)
        requires
            forall|i: int|
                0 <= i < self.entries@.len() ==> precedes(#[trigger] self.entries@[i].0@, key)
                    || precedes(key, self.entries@[i].0@),
        ensures
            !self@.contains_key(key),
    {
        if self@.contains_key(key) {
            let i = choose|i: int| keyed_at(self.entries@, key, i);
            if precedes(self.entries@[i].0@, key) {
                lemma_precedes_asymmetric(self.entries@[i].0@, key);
            } else {
                lemma_precedes_asymmetric(key, self.entries@[i].0@);
            }
        }
    }

    /// Tests for a key.
    pub fn contains(&self, key: &str) -> (yes: bool)
        ensures
            yes == self@.contains_key(key@),
    {
        self.get(key).is_some()
    }

    /// The key at a position.
    pub fn key_at(&self, i: usize) -> (key: &String)
        requires
            i < self.keys().len(),
        ensures
            key@ == self.keys()[i as int],
    {
        &self.entries[i].0
    }

    /// The value at a position.
    pub fn value_at(&self, i: usize) -> (value: &V)
        requires
            i < self.keys().len(),
        ensures
            self@.contains_key(self.keys()[i as int]),
            *value == self@[self.keys()[i as int]],
            decreases_to!(*self => *value),
    {
        proof {
            use_type_invariant(self);
            lemma_keyed_once(self.entries@, i as int);
        }
        &self.entries[i].1
    }

    /// Puts a value under a key, in place of the one it had.
    pub fn insert(&mut self, key: String, value: V)
        ensures
            final(self)@ == old(self)@.insert(key@, value),
    {
        let at = self.position(key.as_str());
        proof {
            use_type_invariant(&*self);
        }
        let ghost before = self.entries@;
        let mut entries: Vec<(String, V)> = Vec::new();
        std::mem::swap(&mut self.entries, &mut entries);
        match at {
            Ok(at) => {
                entries.set(at, (key, value));
                proof {
                    lemma_replaced(before, at as int, (key, value));
                }
            },
            Err(at) => {
                entries.insert(at, (key, value));
                proof {
                    lemma_inserted(before, at as int, (key, value));
                }
            },
        }
        self.entries = entries;
    }

    /// Takes a key and its value out.
    pub fn remove(&mut self, key: &str) -> (out: Option<V>)
        ensures
            final(self)@ == old(self)@.remove(key@),
            match out {
                Some(value) => old(self)@.contains_key(key@) && value == old(self)@[key@],
                None => !old(self)@.contains_key(key@),
            },
    {
        let at = self.position(key);
        proof {
            use_type_invariant(&*self);
        }
        let ghost before = self.entries@;
        match at {
            Ok(at) => {
                let mut entries: Vec<(String, V)> = Vec::new();
                std::mem::swap(&mut self.entries, &mut entries);
                proof {
                    lemma_keyed_once(before, at as int);
                    lemma_removed(before, at as int);
                }
                let (_, value) = entries.remove(at);
                self.entries = entries;
                Some(value)
            },
            Err(_) => {
                proof {
                    self.lemma_absent(key@);
                    assert(self@ =~= self@.remove(key@));
                }
                None
            },
        }
    }
}

impl<V: View> TextMap<V> {
    /// What the values stand for, under their keys.
    pub open spec fn deep(&self) -> Map<Seq<char>, V::V> {
        self@.map_values(|value: V| value@)
    }
}

pub(crate) proof fn lemma_keys<V>(entries: Seq<(String, V)>)
    ensures
        forall|key: Seq<char>| #[trigger]
            listed(entries).contains_key(key) <==> Seq::new(
                entries.len(),
                |i: int| entries[i].0@,
            ).contains(key),
{
    let keys = Seq::new(entries.len(), |i: int| entries[i].0@);
    assert forall|key: Seq<char>| #[trigger]
        listed(entries).contains_key(key) <==> keys.contains(key) by {
        if listed(entries).contains_key(key) {
            let i = choose|i: int| keyed_at(entries, key, i);
            assert(keys[i] == key);
        }
        if keys.contains(key) {
            let i = choose|i: int| 0 <= i < keys.len() && keys[i] == key;
            assert(keyed_at(entries, key, i));
        }
    }
}

pub(crate) proof fn lemma_replaced<V>(entries: Seq<(String, V)>, at: int, entry: (String, V))
    requires
        ascending(entries),
        keyed_at(entries, entry.0@, at),
    ensures
        ascending(entries.update(at, entry)),
        listed(entries.update(at, entry)) == listed(entries).insert(entry.0@, entry.1),
{
    let after = entries.update(at, entry);
    assert forall|key: Seq<char>| #[trigger]
        listed(after).contains_key(key) <==> listed(entries).contains_key(key) by {
        if listed(after).contains_key(key) {
            let i = choose|i: int| keyed_at(after, key, i);
            assert(keyed_at(entries, key, i));
        }
        if listed(entries).contains_key(key) {
            let i = choose|i: int| keyed_at(entries, key, i);
            assert(keyed_at(after, key, i));
        }
    }
    assert(listed(entries).contains_key(entry.0@));
    assert forall|key: Seq<char>| listed(after).contains_key(key) implies #[trigger] listed(
        after,
    )[key] == listed(entries).insert(entry.0@, entry.1)[key] by {
        let i = choose|i: int| keyed_at(after, key, i);
        lemma_keyed_once(after, i);
        lemma_keyed_once(entries, i);
        lemma_keyed_once(after, at);
        if i != at {
            if i < at {
                lemma_precedes_asymmetric(after[i].0@, after[at].0@);
            } else {
                lemma_precedes_asymmetric(after[at].0@, after[i].0@);
            }
        }
    }
    assert(listed(after) =~= listed(entries).insert(entry.0@, entry.1));
}

pub(crate) proof fn lemma_inserted<V>(entries: Seq<(String, V)>, at: int, entry: (String, V))
    requires
        ascending(entries),
        0 <= at <= entries.len(),
        forall|i: int| 0 <= i < at ==> precedes(#[trigger] entries[i].0@, entry.0@),
        forall|i: int| at <= i < entries.len() ==> precedes(entry.0@, #[trigger] entries[i].0@),
    ensures
        ascending(entries.insert(at, entry)),
        listed(entries.insert(at, entry)) == listed(entries).insert(entry.0@, entry.1),
{
    let after = entries.insert(at, entry);
    assert forall|i: int, j: int| 0 <= i < j < after.len() implies precedes(
        #[trigger] after[i].0@,
        #[trigger] after[j].0@,
    ) by {
        let a = if i < at { i } else { i - 1 };
        let b = if j < at { j } else { j - 1 };
        if i != at && j != at {
            assert(precedes(entries[a].0@, entries[b].0@));
        } else if i == at {
            assert(precedes(entry.0@, entries[b].0@));
        } else {
            assert(precedes(entries[a].0@, entry.0@));
        }
    }
    let expected = listed(entries).insert(entry.0@, entry.1);
    assert forall|key: Seq<char>| #[trigger]
        listed(after).contains_key(key) <==> expected.contains_key(key) by {
        if listed(after).contains_key(key) {
            let i = choose|i: int| keyed_at(after, key, i);
            if i != at {
                let a = if i < at { i } else { i - 1 };
                assert(keyed_at(entries, key, a));
            }
        }
        if listed(entries).contains_key(key) {
            let i = choose|i: int| keyed_at(entries, key, i);
            let b = if i < at { i } else { i + 1 };
            assert(keyed_at(after, key, b));
        }
        assert(keyed_at(after, entry.0@, at));
    }
    assert forall|key: Seq<char>| listed(after).contains_key(key) implies #[trigger] listed(
        after,
    )[key] == expected[key] by {
        let i = choose|i: int| keyed_at(after, key, i);
        lemma_keyed_once(after, i);
        if i != at {
            let a = if i < at { i } else { i - 1 };
            lemma_keyed_once(entries, a);
            if i < at {
                lemma_precedes_asymmetric(after[i].0@, after[at].0@);
            } else {
                lemma_precedes_asymmetric(after[at].0@, after[i].0@);
            }
        }
    }
    assert(listed(after) =~= expected);
}

pub(crate) proof fn lemma_removed<V>(entries: Seq<(String, V)>, at: int)
    requires
        ascending(entries),
        0 <= at < entries.len(),
    ensures
        ascending(entries.remove(at)),
        listed(entries.remove(at)) == listed(entries).remove(entries[at].0@),
{
    let after = entries.remove(at);
    let expected = listed(entries).remove(entries[at].0@);
    assert forall|i: int, j: int| 0 <= i < j < after.len() implies precedes(
        #[trigger] after[i].0@,
        #[trigger] after[j].0@,
    ) by {
        let a = if i < at { i } else { i + 1 };
        let b = if j < at { j } else { j + 1 };
        assert(precedes(entries[a].0@, entries[b].0@));
    }
    assert forall|key: Seq<char>| #[trigger]
        listed(after).contains_key(key) <==> expected.contains_key(key) by {
        if listed(after).contains_key(key) {
            let i = choose|i: int| keyed_at(after, key, i);
            let a = if i < at { i } else { i + 1 };
            assert(keyed_at(entries, key, a));
            if a < at {
                lemma_precedes_asymmetric(entries[a].0@, entries[at].0@);
            } else {
                lemma_precedes_asymmetric(entries[at].0@, entries[a].0@);
            }
        }
        if expected.contains_key(key) {
            let i = choose|i: int| keyed_at(entries, key, i);
            let b = if i < at { i } else { i - 1 };
            assert(keyed_at(after, key, b));
        }
    }
    assert forall|key: Seq<char>| listed(after).contains_key(key) implies #[trigger] listed(
        after,
    )[key] == expected[key] by {
        let i = choose|i: int| keyed_at(after, key, i);
        let a = if i < at { i } else { i + 1 };
        lemma_keyed_once(after, i);
        lemma_keyed_once(entries, a);
    }
    assert(listed(after) =~= expected);
}

} // verus!
