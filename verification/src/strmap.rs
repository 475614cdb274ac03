//! A map keyed by strings, kept as a list of keys in which none occurs twice
//! and a list of their values.

use vstd::prelude::*;

verus! {

/// A map from strings to values. Entries stay in the order in which their
/// keys were first inserted.
pub struct StrMap<V> {
    /// The keys and, at the same positions, their values.
    entries: (Vec<String>, Vec<V>),
}

/// Whether `key` is the key at `i`.
spec fn key_at(keys: Seq<String>, i: int, key: Seq<char>) -> bool {
    0 <= i < keys.len() && keys[i]@ == key
}

/// Whether no key occurs twice among `keys`.
spec fn keys_distinct(keys: Seq<String>) -> bool {
    forall|i: int, j: int| 0 <= i < j < keys.len() ==> (#[trigger] keys[i])@ != (#[trigger] keys[j])@
}

/// The map that `keys` with `values` stand for.
spec fn map_of<V>(keys: Seq<String>, values: Seq<V>) -> Map<Seq<char>, V> {
    Map::new(
        |key: Seq<char>| exists|i: int| key_at(keys, i, key),
        |key: Seq<char>| values[choose|i: int| key_at(keys, i, key)],
    )
}

/// The key at `i` is in the map, with the value at `i`.
proof fn lemma_entry_in_map<V>(keys: Seq<String>, values: Seq<V>, i: int)
    requires
        keys_distinct(keys),
        0 <= i < keys.len(),
    ensures
        map_of(keys, values).dom().contains(keys[i]@),
        map_of(keys, values)[keys[i]@] == values[i],
{
    let key = keys[i]@;
    assert(key_at(keys, i, key));
    let j = choose|j: int| key_at(keys, j, key);
    assert(i == j) by {
        if i < j {
            assert(keys[i]@ != keys[j]@);
        } else if j < i {
            assert(keys[j]@ != keys[i]@);
        }
    }
}

impl<V> View for StrMap<V> {
    type V = Map<Seq<char>, V>;

    closed spec fn view(&self) -> Map<Seq<char>, V> {
        map_of(self.entries.0@, self.entries.1@)
    }
}

impl<V> StrMap<V> {
    #[verifier::type_invariant]
    spec fn well_formed(&self) -> bool {
        keys_distinct(self.entries.0@) && self.entries.0@.len() == self.entries.1@.len()
    }

    /// An empty map.
    pub fn new() -> (map: Self)
        ensures
            map@ == Map::<Seq<char>, V>::empty(),
    {
        let map = StrMap { entries: (Vec::new(), Vec::new()) };
        proof {
            assert(map@ =~= Map::<Seq<char>, V>::empty());
        }
        map
    }

    /// The number of entries.
    pub fn len(&self) -> (n: usize)
        ensures
            self@.dom().finite(),
            n == self@.dom().len(),
    {
        proof {
            use_type_invariant(self);
            lemma_domain_size(self.entries.0@, self.entries.1@);
        }
        self.entries.0.len()
    }

    /// Whether the map holds no entry.
    pub fn is_empty(&self) -> (empty: bool)
        ensures
            empty == (self@ == Map::<Seq<char>, V>::empty()),
    {
        proof {
            use_type_invariant(self);
            if self.entries.0@.len() == 0 {
                assert(self@ =~= Map::<Seq<char>, V>::empty());
            } else {
                lemma_entry_in_map(self.entries.0@, self.entries.1@, 0);
            }
        }
        self.entries.0.len() == 0
    }

    /// The position of `key`, if the map holds it.
    fn find(&self, key: &String) -> (at: Option<usize>)
        ensures
            match at {
                Some(i) => key_at(self.entries.0@, i as int, key@),
                None => !self@.dom().contains(key@),
            },
    {
        let mut i: usize = 0;
        while i < self.entries.0.len()
            invariant
                i <= self.entries.0.len(),
                forall|k: int| 0 <= k < i ==> !key_at(self.entries.0@, k, key@),
            decreases self.entries.0.len() - i,
        {
            if self.entries.0[i] == *key {
                return Some(i);
            }
            i += 1;
        }
        None
    }

    /// Whether the map holds an entry of `key`.
    pub fn contains_key(&self, key: &str) -> (held: bool)
        ensures
            held == self@.dom().contains(key@),
    {
        let owned = key.to_owned();
        match self.find(&owned) {
            Some(i) => {
                proof {
                    use_type_invariant(self);
                    lemma_entry_in_map(self.entries.0@, self.entries.1@, i as int);
                }
                true
            },
            None => false,
        }
    }

    /// The value of `key`, if the map holds one.
    pub fn get(&self, key: &str) -> (value: Option<&V>)
        ensures
            match value {
                Some(v) => self@.dom().contains(key@) && *v == self@[key@],
                None => !self@.dom().contains(key@),
            },
    {
        let owned = key.to_owned();
        match self.find(&owned) {
            Some(i) => {
                proof {
                    use_type_invariant(self);
                    lemma_entry_in_map(self.entries.0@, self.entries.1@, i as int);
                }
                Some(&self.entries.1[i])
            },
            None => None,
        }
    }

    /// The value of `key` to be changed in place, if the map holds one.
    pub fn get_mut(&mut self, key: &str) -> (value: Option<&mut V>)
        ensures
            match value {
                Some(v) => old(self)@.dom().contains(key@) && *v == old(self)@[key@]
                    && final(self)@ == old(self)@.insert(key@, *final(v)),
                None => !old(self)@.dom().contains(key@) && final(self)@ == old(self)@,
            },
    {
        proof {
            use_type_invariant(&*self);
        }
        let ghost keys = self.entries.0@;
        let ghost values = self.entries.1@;
        let owned = key.to_owned();
        match self.find(&owned) {
            Some(i) => {
                proof {
                    lemma_entry_in_map(keys, values, i as int);
                    assert forall|changed: V| #[trigger]
                        map_of(keys, values.update(i as int, changed)) == map_of(
                            keys,
                            values,
                        ).insert(key@, changed) by {
                        lemma_with_value(keys, values, i as int, changed);
                    }
                }
                Some(&mut self.entries.1[i])
            },
            None => None,
        }
    }

    /// Puts `value` under `key`, and hands back the value that was there.
    pub fn insert(&mut self, key: String, value: V) -> (previous: Option<V>)
        ensures
            final(self)@ == old(self)@.insert(key@, value),
            match previous {
                Some(v) => old(self)@.dom().contains(key@) && v == old(self)@[key@],
                None => !old(self)@.dom().contains(key@),
            },
    {
        proof {
            use_type_invariant(&*self);
        }
        let ghost before_keys = self.entries.0@;
        let ghost before_values = self.entries.1@;
        let at = self.find(&key);
        let mut entries: (Vec<String>, Vec<V>) = (Vec::new(), Vec::new());
        core::mem::swap(&mut self.entries, &mut entries);
        let (mut keys, mut values) = entries;
        let previous = match at {
            Some(i) => {
                let mut held = value;
                core::mem::swap(&mut values[i], &mut held);
                proof {
                    lemma_entry_in_map(before_keys, before_values, i as int);
                    lemma_with_value(before_keys, before_values, i as int, value);
                }
                Some(held)
            },
            None => {
                keys.push(key);
                values.push(value);
                proof {
                    assert(keys@.drop_last() =~= before_keys);
                    assert(values@.drop_last() =~= before_values);
                    lemma_with_entry(before_keys, before_values, keys@, values@);
                }
                None
            },
        };
        self.entries = (keys, values);
        previous
    }

    /// Takes the entry of `key` out, and hands back its value.
    pub fn remove(&mut self, key: &str) -> (removed: Option<V>)
        ensures
            final(self)@ == old(self)@.remove(key@),
            match removed {
                Some(v) => old(self)@.dom().contains(key@) && v == old(self)@[key@],
                None => !old(self)@.dom().contains(key@),
            },
    {
        proof {
            use_type_invariant(&*self);
        }
        let ghost before_keys = self.entries.0@;
        let ghost before_values = self.entries.1@;
        let owned = key.to_owned();
        match self.find(&owned) {
            Some(i) => {
                let mut entries: (Vec<String>, Vec<V>) = (Vec::new(), Vec::new());
                core::mem::swap(&mut self.entries, &mut entries);
                let (mut keys, mut values) = entries;
                keys.remove(i);
                let removed = values.remove(i);
                proof {
                    lemma_entry_in_map(before_keys, before_values, i as int);
                    lemma_without_entry(before_keys, before_values, i as int);
                }
                self.entries = (keys, values);
                Some(removed)
            },
            None => {
                proof {
                    assert(self@ =~= old(self)@.remove(key@));
                }
                None
            },
        }
    }
}

/// Replacing the value at `i` puts the new value under the key at `i` and
/// changes nothing else.
proof fn lemma_with_value<V>(keys: Seq<String>, values: Seq<V>, i: int, value: V)
    requires
        keys_distinct(keys),
        keys.len() == values.len(),
        0 <= i < keys.len(),
    ensures
        map_of(keys, values.update(i, value)) == map_of(keys, values).insert(keys[i]@, value),
{
    let changed = values.update(i, value);
    let left = map_of(keys, changed);
    let right = map_of(keys, values).insert(keys[i]@, value);
    assert forall|k: Seq<char>| left.dom().contains(k) <==> right.dom().contains(k) by {
        if k == keys[i]@ {
            assert(key_at(keys, i, k));
        }
    }
    assert forall|k: Seq<char>| left.dom().contains(k) implies left[k] == right[k] by {
        let a = choose|a: int| key_at(keys, a, k);
        lemma_entry_in_map(keys, changed, a);
        lemma_entry_in_map(keys, values, a);
        if a != i {
            if a < i {
                assert(keys[a]@ != keys[i]@);
            } else {
                assert(keys[i]@ != keys[a]@);
            }
        }
    }
    assert(left =~= right);
}

/// Taking the entry at `i` out of the lists takes its key out of the map and
/// changes nothing else.
proof fn lemma_without_entry<V>(keys: Seq<String>, values: Seq<V>, i: int)
    requires
        keys_distinct(keys),
        keys.len() == values.len(),
        0 <= i < keys.len(),
    ensures
        keys_distinct(keys.remove(i)),
        map_of(keys.remove(i), values.remove(i)) == map_of(keys, values).remove(keys[i]@),
{
    let rest = keys.remove(i);
    let rest_values = values.remove(i);
    let key = keys[i]@;
    assert forall|a: int, b: int| 0 <= a < b < rest.len() implies (#[trigger] rest[a])@ != (
    #[trigger] rest[b])@ by {
        let a0 = if a < i {
            a
        } else {
            a + 1
        };
        let b0 = if b < i {
            b
        } else {
            b + 1
        };
        assert(rest[a] == keys[a0]);
        assert(rest[b] == keys[b0]);
        assert(keys[a0]@ != keys[b0]@);
    }
    let left = map_of(rest, rest_values);
    let right = map_of(keys, values).remove(key);
    assert forall|k: Seq<char>| left.dom().contains(k) <==> right.dom().contains(k) by {
        if left.dom().contains(k) {
            let a = choose|a: int| key_at(rest, a, k);
            let a0 = if a < i {
                a
            } else {
                a + 1
            };
            assert(rest[a] == keys[a0]);
            assert(key_at(keys, a0, k));
            if k == key {
                if a0 < i {
                    assert(keys[a0]@ != keys[i]@);
                } else {
                    assert(keys[i]@ != keys[a0]@);
                }
            }
        }
        if right.dom().contains(k) {
            let a0 = choose|a0: int| key_at(keys, a0, k);
            let a = if a0 < i {
                a0
            } else {
                a0 - 1
            };
            assert(rest[a] == keys[a0]);
            assert(key_at(rest, a, k));
        }
    }
    assert forall|k: Seq<char>| left.dom().contains(k) implies left[k] == right[k] by {
        let a = choose|a: int| key_at(rest, a, k);
        let a0 = if a < i {
            a
        } else {
            a + 1
        };
        assert(rest[a] == keys[a0]);
        assert(rest_values[a] == values[a0]);
        lemma_entry_in_map(rest, rest_values, a);
        lemma_entry_in_map(keys, values, a0);
    }
    assert(left =~= right);
}

/// Adding an entry with a new key at the end of the lists adds it to the map
/// and changes nothing else.
proof fn lemma_with_entry<V>(
    keys: Seq<String>,
    values: Seq<V>,
    longer: Seq<String>,
    longer_values: Seq<V>,
)
    requires
        keys_distinct(keys),
        keys.len() == values.len(),
        longer.len() == keys.len() + 1,
        longer_values.len() == longer.len(),
        longer.drop_last() == keys,
        longer_values.drop_last() == values,
        !map_of(keys, values).dom().contains(longer.last()@),
    ensures
        keys_distinct(longer),
        map_of(longer, longer_values) == map_of(keys, values).insert(
            longer.last()@,
            longer_values.last(),
        ),
{
    let key = longer.last()@;
    let n = keys.len() as int;
    assert forall|a: int, b: int| 0 <= a < b < longer.len() implies (#[trigger] longer[a])@ != (
    #[trigger] longer[b])@ by {
        assert(longer[a] == keys[a]);
        if b < n {
            assert(longer[b] == keys[b]);
            assert(keys[a]@ != keys[b]@);
        } else {
            assert(key_at(keys, a, keys[a]@));
        }
    }
    let left = map_of(longer, longer_values);
    let right = map_of(keys, values).insert(key, longer_values.last());
    assert forall|k: Seq<char>| left.dom().contains(k) <==> right.dom().contains(k) by {
        if left.dom().contains(k) {
            let a = choose|a: int| key_at(longer, a, k);
            if a < n {
                assert(longer[a] == keys[a]);
                assert(key_at(keys, a, k));
            }
        }
        if right.dom().contains(k) {
            if k == key {
                assert(key_at(longer, n, k));
            } else {
                let a = choose|a: int| key_at(keys, a, k);
                assert(longer[a] == keys[a]);
                assert(key_at(longer, a, k));
            }
        }
    }
    assert forall|k: Seq<char>| left.dom().contains(k) implies left[k] == right[k] by {
        let a = choose|a: int| key_at(longer, a, k);
        lemma_entry_in_map(longer, longer_values, a);
        if a < n {
            assert(longer[a] == keys[a]);
            assert(longer_values[a] == values[a]);
            lemma_entry_in_map(keys, values, a);
        }
    }
    assert(left =~= right);
}

/// Lists without a repeated key stand for a map of as many entries.
proof fn lemma_domain_size<V>(keys: Seq<String>, values: Seq<V>)
    requires
        keys_distinct(keys),
        keys.len() == values.len(),
    ensures
        map_of(keys, values).dom().finite(),
        map_of(keys, values).dom().len() == keys.len(),
    decreases keys.len(),
{
    if keys.len() == 0 {
        assert(map_of(keys, values).dom() =~= Set::<Seq<char>>::empty());
    } else {
        let i = keys.len() - 1;
        lemma_without_entry(keys, values, i);
        lemma_entry_in_map(keys, values, i);
        lemma_domain_size(keys.remove(i), values.remove(i));
        assert(map_of(keys, values).dom() =~= map_of(keys.remove(i), values.remove(i)).dom().insert(
            keys[i]@,
        ));
    }
}

} // verus!
