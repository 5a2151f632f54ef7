//! Maps keyed by text, in the order in which the keys were first stored.

use vstd::prelude::*;

use crate::text;

verus! {

/// A map from texts to values. A key occurs at most once; storing under a
/// key that is present replaces its value.
#[derive(Debug)]
pub struct TextMap<V> {
    entries: Vec<(String, V)>,
}

/// Whether one of `entries` has the key `k`.
pub open spec fn holds_key<V>(entries: Seq<(String, V)>, k: Seq<char>) -> bool {
    exists|i: int| 0 <= i < entries.len() && #[trigger] entries[i].0@ == k
}

/// The value of an entry with the key `k`.
pub open spec fn value_of<V>(entries: Seq<(String, V)>, k: Seq<char>) -> V {
    entries[choose|i: int| 0 <= i < entries.len() && #[trigger] entries[i].0@ == k].1
}

/// The map that `entries` write down.
pub open spec fn entries_map<V>(entries: Seq<(String, V)>) -> Map<Seq<char>, V> {
    Map::new(|k: Seq<char>| holds_key(entries, k), |k: Seq<char>| value_of(entries, k))
}

/// No key occurs twice.
pub open spec fn distinct_keys<V>(entries: Seq<(String, V)>) -> bool {
    forall|i: int, j: int|
        0 <= i < j < entries.len() ==> #[trigger] entries[i].0@ != #[trigger] entries[j].0@
}

impl<V> View for TextMap<V> {
    type V = Map<Seq<char>, V>;

    closed spec fn view(&self) -> Map<Seq<char>, V> {
        entries_map(self.entries@)
    }
}

impl<V> TextMap<V> {
    #[verifier::type_invariant]
    spec fn inv(self) -> bool {
        distinct_keys(self.entries@)
    }

    /// The map without keys.
    pub fn new() -> (r: Self)
        ensures
            r@ == Map::<Seq<char>, V>::empty(),
    {
        let entries: Vec<(String, V)> = Vec::new();
        proof {
            assert(entries_map(entries@) =~= Map::<Seq<char>, V>::empty());
        }
        TextMap { entries }
    }

    /// The position of `k` among the entries.
    fn position(&self, k: &str) -> (r: Option<usize>)
        ensures
            match r {
                Some(i) => i < self.entries@.len() && self.entries@[i as int].0@ == k@,
                None => !holds_key(self.entries@, k@),
            },
    {
        let mut i: usize = 0;
        while i < self.entries.len()
            invariant
                i <= self.entries@.len(),
                forall|j: int| 0 <= j < i ==> #[trigger] self.entries@[j].0@ != k@,
            decreases self.entries@.len() - i,
        {
            if text::same(self.entries[i].0.as_str(), k) {
                return Some(i);
            }
            i = i + 1;
        }
        None
    }

    /// The value stored under `k`.
    pub fn get(&self, k: &str) -> (r: Option<&V>)
        ensures
            match r {
                Some(v) => self@.contains_key(k@) && *v == self@[k@],
                None => !self@.contains_key(k@),
            },
    {
        proof {
            use_type_invariant(self);
        }
        match self.position(k) {
            Some(i) => {
                proof {
                    lemma_value(self.entries@, i as int);
                }
                Some(&self.entries[i].1)
            },
            None => None,
        }
    }

    /// Stores `v` under `k`, in place of what was stored there.
    pub fn insert(&mut self, k: &str, v: V)
        ensures
            final(self)@ == old(self)@.insert(k@, v),
    {
        proof {
            use_type_invariant(&*self);
        }
        let at = self.position(k);
        let mut entries: Vec<(String, V)> = Vec::new();
        std::mem::swap(&mut entries, &mut self.entries);
        let ghost before = entries@;
        match at {
            Some(i) => {
                entries.set(i, (k.to_string(), v));
                proof {
                    lemma_replace(before, i as int, entries@[i as int]);
                }
            },
            None => {
                entries.push((k.to_string(), v));
                proof {
                    lemma_add(before, entries@.last());
                }
            },
        }
        self.entries = entries;
    }

    /// The number of keys. They are listed once each, and are all of the map.
    pub fn len(&self) -> (r: usize)
        ensures
            r == self.keys().len(),
            self.keys().no_duplicates(),
            forall|k: Seq<char>| #[trigger]
                self@.contains_key(k) == self.keys().contains(k),
    {
        proof {
            use_type_invariant(self);
            let listed = self.keys();
            assert forall|k: Seq<char>| #[trigger] self@.contains_key(k) == listed.contains(k) by {
                if holds_key(self.entries@, k) {
                    let i = choose|i: int|
                        0 <= i < self.entries@.len() && #[trigger] self.entries@[i].0@ == k;
                    assert(listed[i] == k);
                }
                if listed.contains(k) {
                    let i = choose|i: int| 0 <= i < listed.len() && listed[i] == k;
                    assert(self.entries@[i].0@ == k);
                }
            }
        }
        self.entries.len()
    }

    /// The keys in the order in which they were first stored.
    pub closed spec fn keys(self) -> Seq<Seq<char>> {
        Seq::new(self.entries@.len(), |i: int| self.entries@[i].0@)
    }

    /// The entry at position `i`.
    pub fn entry(&self, i: usize) -> (r: (&str, &V))
        requires
            i < self.keys().len(),
        ensures
            r.0@ == self.keys()[i as int],
            self@.contains_key(r.0@),
            *r.1 == self@[r.0@],
    {
        proof {
            use_type_invariant(self);
            lemma_value(self.entries@, i as int);
        }
        (self.entries[i].0.as_str(), &self.entries[i].1)
    }
}

/// The map has the key of every entry, with the value of that entry.
pub proof fn lemma_value<V>(entries: Seq<(String, V)>, i: int)
    requires
        distinct_keys(entries),
        0 <= i < entries.len(),
    ensures
        holds_key(entries, entries[i].0@),
        value_of(entries, entries[i].0@) == entries[i].1,
{
    let k = entries[i].0@;
    assert(entries[i].0@ == k);
    let j = choose|j: int| 0 <= j < entries.len() && #[trigger] entries[j].0@ == k;
    assert(entries[j].0@ == k);
    assert(i == j);
}

/// Replacing an entry under its own key stores the new value there.
proof fn lemma_replace<V>(entries: Seq<(String, V)>, i: int, e: (String, V))
    requires
        distinct_keys(entries),
        0 <= i < entries.len(),
        entries[i].0@ == e.0@,
    ensures
        distinct_keys(entries.update(i, e)),
        entries_map(entries.update(i, e)) == entries_map(entries).insert(e.0@, e.1),
{
    let after = entries.update(i, e);
    assert forall|k: Seq<char>| holds_key(after, k) == (k == e.0@ || holds_key(entries, k)) by {
        if holds_key(after, k) {
            let j = choose|j: int| 0 <= j < after.len() && #[trigger] after[j].0@ == k;
            assert(entries[j].0@ == k);
        }
        if holds_key(entries, k) {
            let j = choose|j: int| 0 <= j < entries.len() && #[trigger] entries[j].0@ == k;
            assert(after[j].0@ == k);
        }
        if k == e.0@ {
            assert(after[i].0@ == k);
        }
    }
    assert forall|k: Seq<char>| holds_key(after, k) implies value_of(after, k) == (if k == e.0@ {
        e.1
    } else {
        value_of(entries, k)
    }) by {
        let j = choose|j: int| 0 <= j < after.len() && #[trigger] after[j].0@ == k;
        lemma_value(after, j);
        lemma_value(entries, j);
        if k == e.0@ {
            lemma_value(after, i);
        }
    }
    assert(entries_map(after) =~= entries_map(entries).insert(e.0@, e.1));
}

/// Appending an entry under a new key adds it to the map.
proof fn lemma_add<V>(entries: Seq<(String, V)>, e: (String, V))
    requires
        distinct_keys(entries),
        !holds_key(entries, e.0@),
    ensures
        distinct_keys(entries.push(e)),
        entries_map(entries.push(e)) == entries_map(entries).insert(e.0@, e.1),
{
    let after = entries.push(e);
    assert forall|i: int, j: int| 0 <= i < j < after.len() implies #[trigger] after[i].0@
        != #[trigger] after[j].0@ by {
        assert(entries[i].0@ == after[i].0@);
        if j < entries.len() {
            assert(entries[j].0@ == after[j].0@);
        }
    }
    assert forall|k: Seq<char>| holds_key(after, k) == (k == e.0@ || holds_key(entries, k)) by {
        if holds_key(entries, k) {
            let j = choose|j: int| 0 <= j < entries.len() && #[trigger] entries[j].0@ == k;
            assert(after[j].0@ == k);
        }
        if holds_key(after, k) {
            let j = choose|j: int| 0 <= j < after.len() && #[trigger] after[j].0@ == k;
            if j < entries.len() {
                assert(entries[j].0@ == k);
            }
        }
        if k == e.0@ {
            assert(after[entries.len() as int].0@ == k);
        }
    }
    assert forall|k: Seq<char>| holds_key(after, k) implies value_of(after, k) == (if k == e.0@ {
        e.1
    } else {
        value_of(entries, k)
    }) by {
        let j = choose|j: int| 0 <= j < after.len() && #[trigger] after[j].0@ == k;
        lemma_value(after, j);
        if j < entries.len() {
            lemma_value(entries, j);
        }
    }
    assert(entries_map(after) =~= entries_map(entries).insert(e.0@, e.1));
}

/// The map of flags: what a server says of each of its capabilities.
impl Clone for TextMap<bool> {
    fn clone(&self) -> (r: Self)
        ensures
            r@ == self@,
    {
        proof {
            use_type_invariant(self);
        }
        let mut entries: Vec<(String, bool)> = Vec::new();
        let mut i: usize = 0;
        while i < self.entries.len()
            invariant
                i <= self.entries@.len(),
                entries@ =~= self.entries@.take(i as int),
            decreases self.entries@.len() - i,
        {
            entries.push((self.entries[i].0.clone(), self.entries[i].1));
            i = i + 1;
        }
        proof {
            assert(entries@ =~= self.entries@);
        }
        TextMap { entries }
    }
}

} // verus!
