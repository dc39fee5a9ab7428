//! A small map keyed by 128-bit identifiers that keeps its entries in the
//! order in which their keys were first inserted.
//!
//! The model of the map is the sequence of its entries. The operations
//! keep the keys distinct: no key occurs twice in a map that was built by
//! them from the empty map.

use vstd::prelude::*;

verus! {

/// The place of the first entry with the given key, if there is one.
pub open spec fn index_of<V>(entries: Seq<(u128, V)>, key: u128) -> Option<int>
    decreases entries.len(),
{
    if entries.len() == 0 {
        None
    } else {
        match index_of(entries.drop_last(), key) {
            Some(i) => Some(i),
            None => if entries.last().0 == key {
                Some(entries.len() - 1)
            } else {
                None
            },
        }
    }
}

/// The value held under the key, if there is one.
pub open spec fn value_of<V>(entries: Seq<(u128, V)>, key: u128) -> Option<V> {
    match index_of(entries, key) {
        Some(i) => Some(entries[i].1),
        None => None,
    }
}

/// The entries after the key is given the value: the value of an entry that
/// is there is replaced where it stands, a new entry goes to the end.
pub open spec fn inserted<V>(entries: Seq<(u128, V)>, key: u128, value: V) -> Seq<(u128, V)> {
    match index_of(entries, key) {
        Some(i) => entries.update(i, (key, value)),
        None => entries.push((key, value)),
    }
}

/// The entries without the one of the key.
pub open spec fn removed<V>(entries: Seq<(u128, V)>, key: u128) -> Seq<(u128, V)> {
    match index_of(entries, key) {
        Some(i) => entries.remove(i),
        None => entries,
    }
}

/// No key occurs twice.
pub open spec fn distinct_keys<V>(entries: Seq<(u128, V)>) -> bool {
    forall|i: int, j: int|
        0 <= i < j < entries.len() ==> (#[trigger] entries[i]).0 != (#[trigger] entries[j]).0
}

/// `index_of` finds the first entry with the key, and only such an entry.
pub proof fn lemma_index_of<V>(entries: Seq<(u128, V)>, key: u128)
    ensures
        match index_of(entries, key) {
            Some(i) => {
                &&& 0 <= i < entries.len()
                &&& entries[i].0 == key
                &&& forall|j: int| 0 <= j < i ==> (#[trigger] entries[j]).0 != key
            },
            None => forall|j: int| 0 <= j < entries.len() ==> (#[trigger] entries[j]).0 != key,
        },
    decreases entries.len(),
{
    if entries.len() > 0 {
        let front = entries.drop_last();
        lemma_index_of(front, key);
        match index_of(front, key) {
            Some(i) => {
                assert(forall|j: int| 0 <= j < i ==> #[trigger] entries[j] == front[j]);
            },
            None => {
                assert(forall|j: int|
                    0 <= j < entries.len() - 1 ==> #[trigger] entries[j] == front[j]);
            },
        }
    }
}

/// An entry with the key, before which no entry has it, is the one that
/// `index_of` finds.
pub proof fn lemma_index_of_is<V>(entries: Seq<(u128, V)>, key: u128, i: int)
    requires
        0 <= i < entries.len(),
        entries[i].0 == key,
        forall|j: int| 0 <= j < i ==> (#[trigger] entries[j]).0 != key,
    ensures
        index_of(entries, key) == Some(i),
{
    lemma_index_of(entries, key);
}

/// Inserting and removing keep the keys distinct, and change the value of no
/// other key.
pub proof fn lemma_changes<V>(entries: Seq<(u128, V)>, key: u128, value: V, other: u128)
    requires
        distinct_keys(entries),
    ensures
        distinct_keys(inserted(entries, key, value)),
        distinct_keys(removed(entries, key)),
        value_of(inserted(entries, key, value), key) == Some(value),
        value_of(removed(entries, key), key) == None::<V>,
        other != key ==> value_of(inserted(entries, key, value), other) == value_of(entries, other),
        other != key ==> value_of(removed(entries, key), other) == value_of(entries, other),
{
    lemma_index_of(entries, key);
    lemma_index_of(entries, other);
    let ins = inserted(entries, key, value);
    let rem = removed(entries, key);
    lemma_index_of(ins, key);
    lemma_index_of(ins, other);
    lemma_index_of(rem, key);
    lemma_index_of(rem, other);
    match index_of(entries, key) {
        Some(i) => {
            assert(ins[i].0 == key);
            assert(forall|j: int| 0 <= j < i ==> rem[j] == entries[j]);
            assert(forall|j: int| i <= j < rem.len() ==> rem[j] == entries[j + 1]);
            assert(forall|j: int| 0 <= j < ins.len() && j != i ==> ins[j] == entries[j]);
            if other != key {
                match index_of(entries, other) {
                    Some(k) => {
                        assert(ins[k].0 == other);
                        if k < i {
                            assert(rem[k].0 == other);
                        } else {
                            assert(rem[k - 1].0 == other);
                        }
                    },
                    None => {},
                }
            }
        },
        None => {
            assert(ins[entries.len() as int].0 == key);
            assert(forall|j: int| 0 <= j < entries.len() ==> ins[j] == entries[j]);
            if other != key {
                match index_of(entries, other) {
                    Some(k) => {
                        assert(ins[k].0 == other);
                    },
                    None => {},
                }
            }
        },
    }
}

/// A map from identifiers to values, in insertion order.
#[derive(Debug, PartialEq, Eq)]
pub struct IdMap<V> {
    entries: Vec<(u128, V)>,
}

impl<V> View for IdMap<V> {
    type V = Seq<(u128, V)>;

    closed spec fn view(&self) -> Seq<(u128, V)> {
        self.entries@
    }
}

impl<V: Copy> IdMap<V> {
    /// The empty map.
    pub fn new() -> (map: Self)
        ensures
            map@ == Seq::<(u128, V)>::empty(),
    {
        IdMap { entries: Vec::new() }
    }

    /// The number of entries.
    pub fn len(&self) -> (n: usize)
        ensures
            n == self@.len(),
    {
        self.entries.len()
    }

    /// The entry at a place, in insertion order.
    pub fn entry(&self, i: usize) -> (e: (u128, V))
        requires
            i < self@.len(),
        ensures
            e == self@[i as int],
    {
        self.entries[i]
    }

    fn position(&self, key: u128) -> (r: Option<usize>)
        ensures
            match r {
                Some(i) => index_of(self@, key) == Some(i as int) && i < self@.len(),
                None => index_of(self@, key) is None,
            },
    {
        let mut i: usize = 0;
        while i < self.entries.len()
            invariant
                i <= self.entries@.len(),
                forall|j: int| 0 <= j < i ==> (#[trigger] self.entries@[j]).0 != key,
            decreases self.entries.len() - i,
        {
            if self.entries[i].0 == key {
                proof {
                    lemma_index_of_is(self.entries@, key, i as int);
                }
                return Some(i);
            }
            i += 1;
        }
        proof {
            lemma_index_of(self.entries@, key);
        }
        None
    }

    /// The value held under the key, if there is one.
    pub fn get(&self, key: u128) -> (r: Option<V>)
        ensures
            r == value_of(self@, key),
    {
        match self.position(key) {
            Some(i) => Some(self.entries[i].1),
            None => None,
        }
    }

    /// Gives the key the value.
    pub fn insert(&mut self, key: u128, value: V)
        ensures
            final(self)@ == inserted(old(self)@, key, value),
    {
        match self.position(key) {
            Some(i) => {
                self.entries.set(i, (key, value));
            },
            None => {
                self.entries.push((key, value));
            },
        }
    }

    /// Takes the key out of the map.
    pub fn remove(&mut self, key: u128)
        ensures
            final(self)@ == removed(old(self)@, key),
    {
        match self.position(key) {
            Some(i) => {
                self.entries.remove(i);
            },
            None => {},
        }
    }

    /// Takes every key out of the map.
    pub fn clear(&mut self)
        ensures
            final(self)@ == Seq::<(u128, V)>::empty(),
    {
        self.entries.clear();
    }
}

impl<V: Copy> Clone for IdMap<V> {
    fn clone(&self) -> (copy: Self)
        ensures
            copy@ == self@,
    {
        let mut entries: Vec<(u128, V)> = Vec::new();
        let mut i: usize = 0;
        while i < self.entries.len()
            invariant
                i <= self.entries@.len(),
                entries@ == self.entries@.take(i as int),
            decreases self.entries.len() - i,
        {
            entries.push(self.entries[i]);
            assert(self.entries@.take(i + 1) == self.entries@.take(i as int).push(
                self.entries@[i as int],
            ));
            i += 1;
        }
        assert(self.entries@.take(self.entries@.len() as int) == self.entries@);
        IdMap { entries }
    }
}

} // verus!
