//! Registries keyed by wallet address.
//!
//! A registry keeps its entries in the order in which their keys were first
//! registered and never holds a key twice. Seen as mathematics it is a finite
//! map from addresses to values.

use vstd::prelude::*;

verus! {

/// The map that takes `keys[i]` to `values[i]`.
pub open spec fn keyed<V>(keys: Seq<Seq<char>>, values: Seq<V>) -> Map<Seq<char>, V> {
    Map::new(|k: Seq<char>| keys.contains(k), |k: Seq<char>| values[keys.index_of(k)])
}

/// With distinct keys, `keyed` holds `values[i]` under `keys[i]`.
pub proof fn lemma_keyed_at<V>(keys: Seq<Seq<char>>, values: Seq<V>, i: int)
    requires
        keys.no_duplicates(),
        0 <= i < keys.len(),
    ensures
        keyed(keys, values).contains_key(keys[i]),
        keyed(keys, values)[keys[i]] == values[i],
        keys.index_of(keys[i]) == i,
{
    assert(keys.contains(keys[i]));
}

/// With distinct keys, `keyed` has exactly the keys as its domain, each
/// counted once.
pub proof fn lemma_keyed_dom<V>(keys: Seq<Seq<char>>, values: Seq<V>)
    requires
        keys.no_duplicates(),
    ensures
        keyed(keys, values).dom() == keys.to_set(),
        keyed(keys, values).dom().finite(),
        keyed(keys, values).dom().len() == keys.len(),
{
    assert(keyed(keys, values).dom() =~= keys.to_set());
    keys.unique_seq_to_set();
}

/// Appending an entry under a new key is inserting it into the map.
pub proof fn lemma_keyed_push<V>(keys: Seq<Seq<char>>, values: Seq<V>, key: Seq<char>, value: V)
    requires
        keys.no_duplicates(),
        keys.len() == values.len(),
        !keys.contains(key),
    ensures
        keys.push(key).no_duplicates(),
        keyed(keys.push(key), values.push(value)) == keyed(keys, values).insert(key, value),
{
    let keys2 = keys.push(key);
    let values2 = values.push(value);
    assert forall|i: int, j: int| 0 <= i < keys2.len() && 0 <= j < keys2.len() && i != j implies keys2[i]
        != keys2[j] by {
        if i < keys.len() && j < keys.len() {
        } else if i < keys.len() {
            assert(keys.contains(keys[i]));
        } else {
            assert(keys.contains(keys[j]));
        }
    }
    let before = keyed(keys, values).insert(key, value);
    let after = keyed(keys2, values2);
    assert forall|k: Seq<char>| before.contains_key(k) <==> after.contains_key(k) by {
        if keys.contains(k) {
            let i = keys.index_of(k);
            assert(keys2[i] == k);
        }
        if keys2.contains(k) {
            let i = keys2.index_of(k);
            if i < keys.len() {
                assert(keys[i] == k);
            }
        }
        assert(keys2[keys.len() as int] == key);
    }
    assert forall|k: Seq<char>| before.contains_key(k) implies before[k] == after[k] by {
        let i = keys2.index_of(k);
        lemma_keyed_at(keys2, values2, i);
        if i < keys.len() {
            lemma_keyed_at(keys, values, i);
        }
    }
    assert(before =~= after);
}

/// Replacing the value at a position is inserting it into the map under the
/// key of that position.
pub proof fn lemma_keyed_update<V>(keys: Seq<Seq<char>>, values: Seq<V>, i: int, value: V)
    requires
        keys.no_duplicates(),
        keys.len() == values.len(),
        0 <= i < keys.len(),
    ensures
        keyed(keys, values.update(i, value)) == keyed(keys, values).insert(keys[i], value),
{
    let before = keyed(keys, values).insert(keys[i], value);
    let after = keyed(keys, values.update(i, value));
    assert(keys.contains(keys[i]));
    assert forall|k: Seq<char>| before.contains_key(k) implies before[k] == after[k] by {
        let j = keys.index_of(k);
        lemma_keyed_at(keys, values, j);
        lemma_keyed_at(keys, values.update(i, value), j);
    }
    assert(before =~= after);
}

/// The sum of a sequence of quantities.
pub open spec fn sum(quantities: Seq<u32>) -> nat
    decreases quantities.len(),
{
    if quantities.len() == 0 {
        0
    } else {
        sum(quantities.drop_last()) + quantities.last() as nat
    }
}

/// No quantity is larger than the sum of them all.
pub proof fn lemma_sum_bounds(quantities: Seq<u32>, i: int)
    requires
        0 <= i < quantities.len(),
    ensures
        quantities[i] <= sum(quantities),
    decreases quantities.len(),
{
    if i < quantities.len() - 1 {
        lemma_sum_bounds(quantities.drop_last(), i);
    }
}

/// A further quantity adds itself to the sum.
pub proof fn lemma_sum_push(quantities: Seq<u32>, quantity: u32)
    ensures
        sum(quantities.push(quantity)) == sum(quantities) + quantity,
{
    assert(quantities.push(quantity).drop_last() =~= quantities);
}

/// A replaced quantity changes the sum by the difference.
pub proof fn lemma_sum_update(quantities: Seq<u32>, i: int, quantity: u32)
    requires
        0 <= i < quantities.len(),
    ensures
        sum(quantities.update(i, quantity)) == sum(quantities) - quantities[i] + quantity,
    decreases quantities.len(),
{
    let updated = quantities.update(i, quantity);
    if i < quantities.len() - 1 {
        lemma_sum_update(quantities.drop_last(), i, quantity);
        assert(updated.drop_last() =~= quantities.drop_last().update(i, quantity));
    } else {
        assert(updated.drop_last() =~= quantities.drop_last());
    }
}

spec fn keys_of<V>(entries: Seq<(String, V)>) -> Seq<Seq<char>> {
    Seq::new(entries.len(), |i: int| entries[i].0@)
}

spec fn values_of<V>(entries: Seq<(String, V)>) -> Seq<V> {
    Seq::new(entries.len(), |i: int| entries[i].1)
}

/// Entries under distinct keys, in the order in which the keys came.
pub struct Registry<V> {
    entries: Vec<(String, V)>,
}

impl<V> View for Registry<V> {
    type V = Map<Seq<char>, V>;

    open spec fn view(&self) -> Map<Seq<char>, V> {
        keyed(self.keys(), self.values())
    }
}

impl<V> Registry<V> {
    /// The keys, in the order in which they were first registered.
    pub closed spec fn keys(&self) -> Seq<Seq<char>> {
        keys_of(self.entries@)
    }

    /// The values, each at the position of its key.
    pub closed spec fn values(&self) -> Seq<V> {
        values_of(self.entries@)
    }

    /// Holds of every registry: no key stands twice, and every key has its
    /// value.
    #[verifier::type_invariant]
    pub open spec fn distinct(self) -> bool {
        &&& self.keys().no_duplicates()
        &&& self.keys().len() == self.values().len()
    }

    /// A registry without entries.
    pub fn new() -> (registry: Registry<V>)
        ensures
            registry.keys() == Seq::<Seq<char>>::empty(),
            registry.values() == Seq::<V>::empty(),
            registry@ == Map::<Seq<char>, V>::empty(),
    {
        let registry = Registry { entries: Vec::new() };
        assert(registry.keys() =~= Seq::<Seq<char>>::empty());
        assert(registry.values() =~= Seq::<V>::empty());
        assert(registry@ =~= Map::<Seq<char>, V>::empty());
        registry
    }

    /// The number of entries.
    pub fn len(&self) -> (n: usize)
        ensures
            n == self.keys().len(),
            n == self.values().len(),
            n == self@.dom().len(),
    {
        proof {
            use_type_invariant(self);
            lemma_keyed_dom(self.keys(), self.values());
        }
        self.entries.len()
    }

    /// The position of `key`, if the registry holds it.
    pub fn position(&self, key: &String) -> (found: Option<usize>)
        ensures
            match found {
                Some(i) => i < self.keys().len() && self.keys()[i as int] == key@
                    && self.keys().index_of(key@) == i,
                None => !self.keys().contains(key@),
            },
    {
        proof {
            use_type_invariant(self);
        }
        let mut i: usize = 0;
        while i < self.entries.len()
            invariant
                i <= self.entries.len(),
                self.keys().no_duplicates(),
                forall|j: int| 0 <= j < i ==> self.keys()[j] != key@,
            decreases self.entries.len() - i,
        {
            if self.entries[i].0 == *key {
                proof {
                    lemma_keyed_at(self.keys(), self.values(), i as int);
                }
                return Some(i);
            }
            i += 1;
        }
        None
    }

    /// The value under `key`, if the registry holds that key.
    pub fn get(&self, key: &String) -> (value: Option<&V>)
        ensures
            match value {
                Some(v) => self@.contains_key(key@) && self@[key@] == *v,
                None => !self@.contains_key(key@),
            },
    {
        proof {
            use_type_invariant(self);
        }
        match self.position(key) {
            Some(i) => {
                proof {
                    lemma_keyed_at(self.keys(), self.values(), i as int);
                }
                Some(&self.entries[i].1)
            },
            None => None,
        }
    }

    /// The key at position `i`.
    pub fn key_at(&self, i: usize) -> (key: &String)
        requires
            i < self.keys().len(),
        ensures
            key@ == self.keys()[i as int],
    {
        &self.entries[i].0
    }

    /// The value at position `i`.
    pub fn value_at(&self, i: usize) -> (value: &V)
        requires
            i < self.values().len(),
        ensures
            *value == self.values()[i as int],
    {
        &self.entries[i].1
    }

    /// Puts `value` under `key` and hands back the value that stood there
    /// before. A key that is already held keeps its position; a new one goes
    /// to the end.
    pub fn insert(&mut self, key: String, value: V) -> (previous: Option<V>)
        ensures
            final(self)@ == old(self)@.insert(key@, value),
            match previous {
                Some(v) => old(self)@.contains_key(key@) && old(self)@[key@] == v,
                None => !old(self)@.contains_key(key@),
            },
            old(self)@.contains_key(key@) ==> final(self).keys() == old(self).keys()
                && final(self).values() == old(self).values().update(
                old(self).keys().index_of(key@),
                value,
            ),
            !old(self)@.contains_key(key@) ==> final(self).keys() == old(self).keys().push(key@)
                && final(self).values() == old(self).values().push(value),
    {
        proof {
            use_type_invariant(&*self);
        }
        let ghost keys = self.keys();
        let ghost values = self.values();
        let found = self.position(&key);
        let mut entries: Vec<(String, V)> = Vec::new();
        std::mem::swap(&mut entries, &mut self.entries);
        let previous = match found {
            Some(i) => {
                entries.push((key, value));
                let replaced = entries.swap_remove(i);
                proof {
                    lemma_keyed_at(keys, values, i as int);
                    lemma_keyed_update(keys, values, i as int, value);
                    assert(keys_of(entries@) =~= keys);
                    assert(values_of(entries@) =~= values.update(i as int, value));
                }
                Some(replaced.1)
            },
            None => {
                entries.push((key, value));
                proof {
                    lemma_keyed_push(keys, values, key@, value);
                    assert(keys_of(entries@) =~= keys.push(key@));
                    assert(values_of(entries@) =~= values.push(value));
                }
                None
            },
        };
        self.entries = entries;
        previous
    }
}

} // verus!
