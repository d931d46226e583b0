//! Tables of values under integer keys, kept in the order in which the keys
//! were first used. No key occurs twice. The arms of a policy stand in such a
//! table under their handles, the experiments of a catalog under their
//! identifiers.
use vstd::prelude::*;

verus! {

/// No key occurs twice in the sequence.
pub open spec fn distinct_keys<K, V>(s: Seq<(K, V)>) -> bool {
    forall|i: int, j: int| 0 <= i < j < s.len() ==> s[i].0 != s[j].0
}

/// Whether the sequence holds a value under the key.
pub open spec fn has_key<K, V>(s: Seq<(K, V)>, key: K) -> bool {
    exists|i: int| 0 <= i < s.len() && #[trigger] s[i].0 == key
}

/// The place of the key in the sequence, where it holds the key.
pub open spec fn place_of<K, V>(s: Seq<(K, V)>, key: K) -> int {
    choose|i: int| 0 <= i < s.len() && #[trigger] s[i].0 == key
}

/// The value under the key, where the sequence holds the key.
pub open spec fn value_of<K, V>(s: Seq<(K, V)>, key: K) -> V {
    s[place_of(s, key)].1
}

/// The set of keys in the sequence.
pub open spec fn keys_of<K, V>(s: Seq<(K, V)>) -> Set<K> {
    Set::new(|key: K| has_key(s, key))
}

/// The sequence as a map from its keys to their values.
pub open spec fn as_map<K, V>(s: Seq<(K, V)>) -> Map<K, V> {
    Map::new(|key: K| has_key(s, key), |key: K| value_of(s, key))
}

/// The sequence after a value is put under a key: a key in use keeps its
/// place and gets the new value, a new key goes to the end.
pub open spec fn with_entry<K, V>(s: Seq<(K, V)>, key: K, value: V) -> Seq<(K, V)> {
    if has_key(s, key) {
        s.update(place_of(s, key), (key, value))
    } else {
        s.push((key, value))
    }
}

/// In a sequence without repeated keys, a key stands at one place only.
pub proof fn place_is_unique<K, V>(s: Seq<(K, V)>, i: int)
    requires
        distinct_keys(s),
        0 <= i < s.len(),
    ensures
        has_key(s, s[i].0),
        place_of(s, s[i].0) == i,
        value_of(s, s[i].0) == s[i].1,
{
    let key = s[i].0;
    assert(s[i].0 == key);
    let p = place_of(s, key);
    if p < i {
        assert(s[p].0 != s[i].0);
    } else if i < p {
        assert(s[i].0 != s[p].0);
    }
}

/// Putting a value under a key that the sequence holds changes the map at
/// that key only, and keeps the keys distinct.
pub proof fn update_as_map<K, V>(s: Seq<(K, V)>, place: int, value: V)
    requires
        distinct_keys(s),
        0 <= place < s.len(),
    ensures
        distinct_keys(s.update(place, (s[place].0, value))),
        keys_of(s.update(place, (s[place].0, value))) == keys_of(s),
        as_map(s.update(place, (s[place].0, value))) == as_map(s).insert(s[place].0, value),
{
    let t = s.update(place, (s[place].0, value));
    assert forall|x: K| has_key(t, x) <==> has_key(s, x) by {
        if has_key(t, x) {
            let i = place_of(t, x);
            assert(s[i].0 == x);
        }
        if has_key(s, x) {
            let i = place_of(s, x);
            assert(t[i].0 == x);
        }
    }
    assert(keys_of(t) =~= keys_of(s));
    assert forall|x: K| has_key(t, x) implies value_of(t, x) == if x == s[place].0 {
        value
    } else {
        value_of(s, x)
    } by {
        let i = place_of(t, x);
        place_is_unique(t, i);
        assert(s[i].0 == x);
        place_is_unique(s, i);
    }
    place_is_unique(s, place);
    assert(as_map(t) =~= as_map(s).insert(s[place].0, value));
}

/// Adding a value under a key that the sequence does not hold adds the key
/// to the map, and keeps the keys distinct.
pub proof fn push_as_map<K, V>(s: Seq<(K, V)>, key: K, value: V)
    requires
        distinct_keys(s),
        !has_key(s, key),
    ensures
        distinct_keys(s.push((key, value))),
        keys_of(s.push((key, value))) == keys_of(s).insert(key),
        as_map(s.push((key, value))) == as_map(s).insert(key, value),
{
    let t = s.push((key, value));
    assert forall|i: int, j: int| 0 <= i < j < t.len() implies t[i].0 != t[j].0 by {
        if j == s.len() {
            assert(s[i].0 != key);
        }
    }
    assert forall|x: K| has_key(t, x) <==> (has_key(s, x) || x == key) by {
        if has_key(t, x) {
            let i = place_of(t, x);
            if i < s.len() {
                assert(s[i].0 == x);
            }
        }
        if has_key(s, x) {
            let i = place_of(s, x);
            assert(t[i].0 == x);
        }
        assert(t[s.len() as int].0 == key);
    }
    assert(keys_of(t) =~= keys_of(s).insert(key));
    assert forall|x: K| has_key(t, x) implies value_of(t, x) == if x == key {
        value
    } else {
        value_of(s, x)
    } by {
        let i = place_of(t, x);
        place_is_unique(t, i);
        if i < s.len() {
            assert(s[i].0 == x);
            place_is_unique(s, i);
        }
    }
    assert(as_map(t) =~= as_map(s).insert(key, value));
}

/// After a value is put under a key, that key holds the value and every
/// other key holds what it held.
pub proof fn update_or_push_keeps_others<K, V>(s: Seq<(K, V)>, key: K, value: V)
    requires
        distinct_keys(s),
    ensures
        distinct_keys(with_entry(s, key, value)),
        has_key(with_entry(s, key, value), key),
        value_of(with_entry(s, key, value), key) == value,
        forall|other: K|
            other != key && #[trigger] has_key(s, other) ==> has_key(with_entry(s, key, value), other)
                && value_of(with_entry(s, key, value), other) == value_of(s, other),
        keys_of(with_entry(s, key, value)) == keys_of(s).insert(key),
{
    let t = with_entry(s, key, value);
    if has_key(s, key) {
        let p = place_of(s, key);
        update_as_map(s, p, value);
        assert(keys_of(s).insert(key) =~= keys_of(s));
    } else {
        push_as_map(s, key, value);
    }
    assert(as_map(t) == as_map(s).insert(key, value));
    assert(as_map(t).contains_key(key));
    assert(as_map(t)[key] == value);
    assert forall|other: K| other != key && #[trigger] has_key(s, other) implies has_key(t, other)
        && value_of(t, other) == value_of(s, other) by {
        assert(as_map(s).contains_key(other));
        assert(as_map(t).contains_key(other));
        assert(as_map(t)[other] == as_map(s)[other]);
    }
}

/// Taking a key out of the sequence takes it out of the map, and keeps the
/// keys distinct.
pub proof fn remove_as_map<K, V>(s: Seq<(K, V)>, place: int)
    requires
        distinct_keys(s),
        0 <= place < s.len(),
    ensures
        distinct_keys(s.remove(place)),
        keys_of(s.remove(place)) == keys_of(s).remove(s[place].0),
        as_map(s.remove(place)) == as_map(s).remove(s[place].0),
{
    let t = s.remove(place);
    let key = s[place].0;
    assert forall|i: int, j: int| 0 <= i < j < t.len() implies t[i].0 != t[j].0 by {
        let a = if i < place {
            i
        } else {
            i + 1
        };
        let b = if j < place {
            j
        } else {
            j + 1
        };
        assert(s[a].0 != s[b].0);
    }
    assert forall|x: K| has_key(t, x) <==> (has_key(s, x) && x != key) by {
        if has_key(t, x) {
            let i = place_of(t, x);
            if i < place {
                assert(s[i].0 == x);
                assert(s[i].0 != s[place].0);
            } else {
                assert(s[i + 1].0 == x);
                assert(s[place].0 != s[i + 1].0);
            }
        }
        if has_key(s, x) && x != key {
            let i = place_of(s, x);
            if i < place {
                assert(t[i].0 == x);
            } else {
                assert(t[i - 1].0 == x);
            }
        }
    }
    assert(keys_of(t) =~= keys_of(s).remove(key));
    assert forall|x: K| has_key(t, x) implies value_of(t, x) == value_of(s, x) by {
        let i = place_of(t, x);
        place_is_unique(t, i);
        if i < place {
            assert(s[i].0 == x);
            place_is_unique(s, i);
        } else {
            assert(s[i + 1].0 == x);
            place_is_unique(s, i + 1);
        }
    }
    assert(as_map(t) =~= as_map(s).remove(key));
}

/// An integer type that keys a table.
pub trait Key: Copy {
    /// Whether two keys are the same.
    fn same(&self, other: &Self) -> (b: bool)
        ensures
            b == (*self == *other),
    ;
}

impl Key for usize {
    fn same(&self, other: &usize) -> (b: bool) {
        *self == *other
    }
}

impl Key for u128 {
    fn same(&self, other: &u128) -> (b: bool) {
        *self == *other
    }
}

struct Slot<K, V> {
    key: K,
    value: V,
}

/// Values under their keys, in the order of first use.
pub struct Table<K, V> {
    slots: Vec<Slot<K, V>>,
}

/// The arms of a policy under their handles.
pub type ArmTable<A> = Table<usize, A>;

impl<K: Key, V> Table<K, V> {
    /// The keys with their values, in order.
    pub closed spec fn view(&self) -> Seq<(K, V)> {
        Seq::new(self.slots@.len(), |i: int| (self.slots@[i].key, self.slots@[i].value))
    }

    /// What holds of every table that the functions below make: no key
    /// occurs twice.
    pub open spec fn wf(&self) -> bool {
        distinct_keys(self@)
    }

    /// The empty table.
    pub fn new() -> (table: Self)
        ensures
            table.wf(),
            table@ == Seq::<(K, V)>::empty(),
    {
        let table = Table { slots: Vec::new() };
        assert(table@ =~= Seq::<(K, V)>::empty());
        table
    }

    /// The number of keys.
    pub fn len(&self) -> (n: usize)
        ensures
            n == self@.len(),
    {
        self.slots.len()
    }

    /// Whether the table holds no key.
    pub fn is_empty(&self) -> (b: bool)
        ensures
            b == (self@.len() == 0),
    {
        self.slots.len() == 0
    }

    /// The key at a place.
    pub fn key_at(&self, place: usize) -> (key: K)
        requires
            place < self@.len(),
        ensures
            key == self@[place as int].0,
    {
        self.slots[place].key
    }

    /// The value at a place.
    pub fn value_at(&self, place: usize) -> (value: &V)
        requires
            place < self@.len(),
        ensures
            *value == self@[place as int].1,
    {
        &self.slots[place].value
    }

    /// The place of a key, if the table holds it.
    pub fn position(&self, key: K) -> (found: Option<usize>)
        requires
            self.wf(),
        ensures
            found is Some <==> has_key(self@, key),
            found matches Some(place) ==> place == place_of(self@, key) && place < self@.len()
                && self@[place as int].0 == key,
    {
        let mut place: usize = 0;
        while place < self.slots.len()
            invariant
                place <= self.slots@.len(),
                distinct_keys(self@),
                forall|k: int| 0 <= k < place ==> self@[k].0 != key,
            decreases self.slots@.len() - place,
        {
            if self.slots[place].key.same(&key) {
                proof {
                    place_is_unique(self@, place as int);
                }
                return Some(place);
            }
            place += 1;
        }
        None
    }

    /// Whether the table holds the key.
    pub fn contains(&self, key: K) -> (b: bool)
        requires
            self.wf(),
        ensures
            b == has_key(self@, key),
    {
        self.position(key).is_some()
    }

    /// The value under a key.
    pub fn get(&self, key: K) -> (found: Option<&V>)
        requires
            self.wf(),
        ensures
            found is Some <==> has_key(self@, key),
            found matches Some(value) ==> *value == value_of(self@, key),
    {
        match self.position(key) {
            Some(place) => Some(&self.slots[place].value),
            None => None,
        }
    }

    /// Puts a value at a place that is in use, keeping the key.
    pub fn set_at(&mut self, place: usize, value: V)
        requires
            old(self).wf(),
            place < old(self)@.len(),
        ensures
            final(self).wf(),
            final(self)@ == old(self)@.update(place as int, (old(self)@[place as int].0, value)),
            keys_of(final(self)@) == keys_of(old(self)@),
            as_map(final(self)@) == as_map(old(self)@).insert(old(self)@[place as int].0, value),
    {
        let key = self.slots[place].key;
        self.slots.set(place, Slot { key, value });
        proof {
            assert(self@ =~= old(self)@.update(place as int, (key, value)));
            update_as_map(old(self)@, place as int, value);
        }
    }

    /// Puts a value under a key. A key already in use keeps its place and
    /// gets the new value; a new key goes to the end.
    pub fn put(&mut self, key: K, value: V)
        requires
            old(self).wf(),
        ensures
            final(self).wf(),
            final(self)@ == with_entry(old(self)@, key, value),
            keys_of(final(self)@) == keys_of(old(self)@).insert(key),
            as_map(final(self)@) == as_map(old(self)@).insert(key, value),
    {
        match self.position(key) {
            Some(place) => {
                self.slots.set(place, Slot { key, value });
                proof {
                    assert(self@ =~= old(self)@.update(place as int, (key, value)));
                    update_as_map(old(self)@, place as int, value);
                    assert(keys_of(old(self)@).insert(key) =~= keys_of(old(self)@));
                }
            },
            None => {
                self.slots.push(Slot { key, value });
                proof {
                    assert(self@ =~= old(self)@.push((key, value)));
                    push_as_map(old(self)@, key, value);
                }
            },
        }
    }

    /// A copy of the table.
    pub fn duplicate(&self) -> (copy: Self) where V: Copy
        ensures
            copy@ == self@,
            self.wf() ==> copy.wf(),
    {
        let mut copy = Table { slots: Vec::new() };
        let mut place: usize = 0;
        while place < self.slots.len()
            invariant
                place <= self.slots@.len(),
                copy.slots@.len() == place,
                forall|k: int| 0 <= k < place ==> copy@[k] == self@[k],
            decreases self.slots@.len() - place,
        {
            let slot = &self.slots[place];
            copy.slots.push(Slot { key: slot.key, value: slot.value });
            place += 1;
        }
        assert(copy@ =~= self@);
        copy
    }

    /// Takes the value under a key out of the table. The entries behind it
    /// move up by one place.
    pub fn remove(&mut self, key: K) -> (taken: Option<V>)
        requires
            old(self).wf(),
        ensures
            final(self).wf(),
            taken is Some <==> has_key(old(self)@, key),
            taken matches Some(value) ==> value == value_of(old(self)@, key) && final(self)@
                == old(self)@.remove(place_of(old(self)@, key)),
            taken is None ==> final(self)@ == old(self)@,
            keys_of(final(self)@) == keys_of(old(self)@).remove(key),
            as_map(final(self)@) == as_map(old(self)@).remove(key),
    {
        match self.position(key) {
            Some(place) => {
                let slot = self.slots.remove(place);
                proof {
                    assert(self@ =~= old(self)@.remove(place as int));
                    remove_as_map(old(self)@, place as int);
                }
                Some(slot.value)
            },
            None => {
                proof {
                    assert(keys_of(self@).remove(key) =~= keys_of(self@));
                    assert(as_map(self@).remove(key) =~= as_map(self@));
                }
                None
            },
        }
    }

    /// Takes every entry out of the table.
    pub fn clear(&mut self)
        ensures
            final(self).wf(),
            final(self)@ == Seq::<(K, V)>::empty(),
    {
        self.slots.clear();
        assert(self@ =~= Seq::<(K, V)>::empty());
    }
}

} // verus!
