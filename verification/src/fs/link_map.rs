//! A small association list, used where only a handful of keys are kept.
use vstd::laws_eq::{obeys_concrete_eq, obeys_eq, obeys_eq_spec_properties};
use vstd::std_specs::cmp::PartialEqSpec;
use vstd::prelude::*;

verus! {

/// No key occurs twice among `entries`.
pub open spec fn keys_unique<K, V>(entries: Seq<(K, V)>) -> bool {
    forall|i: int, j: int| 0 <= i < j < entries.len() ==> entries[i].0 != entries[j].0
}

/// Some entry carries `key`.
pub open spec fn has_key<K, V>(entries: Seq<(K, V)>, key: K) -> bool {
    exists|i: int| 0 <= i < entries.len() && entries[i].0 == key
}

/// The position of an entry that carries `key` (meaningful when `has_key`).
pub open spec fn key_index<K, V>(entries: Seq<(K, V)>, key: K) -> int {
    choose|i: int| 0 <= i < entries.len() && entries[i].0 == key
}

/// The map that a list of entries stands for.
pub open spec fn entries_map<K, V>(entries: Seq<(K, V)>) -> Map<K, V> {
    Map::new(|k: K| has_key(entries, k), |k: K| entries[key_index(entries, k)].1)
}

/// With unique keys, the entry at `i` is the one the map reads for its key.
pub proof fn lemma_entries_map_at<K, V>(entries: Seq<(K, V)>, i: int)
    requires
        keys_unique(entries),
        0 <= i < entries.len(),
    ensures
        has_key(entries, entries[i].0),
        key_index(entries, entries[i].0) == i,
        entries_map(entries).dom().contains(entries[i].0),
        entries_map(entries)[entries[i].0] == entries[i].1,
{
    let k = entries[i].0;
    assert(has_key(entries, k));
    let j = key_index(entries, k);
    if j != i {
        if j < i {
            assert(entries[j].0 != entries[i].0);
        } else {
            assert(entries[i].0 != entries[j].0);
        }
    }
}

/// Overwriting the entry of a key keeps keys unique and updates the map at that key.
pub proof fn lemma_entries_update<K, V>(entries: Seq<(K, V)>, i: int, key: K, value: V)
    requires
        keys_unique(entries),
        0 <= i < entries.len(),
        entries[i].0 == key,
    ensures
        keys_unique(entries.update(i, (key, value))),
        entries_map(entries.update(i, (key, value))) == entries_map(entries).insert(key, value),
{
    let t = entries.update(i, (key, value));
    assert forall|p: int, q: int| 0 <= p < q < t.len() implies t[p].0 != t[q].0 by {
        assert(t[p].0 == entries[p].0);
        assert(t[q].0 == entries[q].0);
    }
    let m = entries_map(entries).insert(key, value);
    assert forall|k: K| #[trigger] entries_map(t).dom().contains(k) <==> m.dom().contains(k) by {
        if has_key(t, k) {
            let j = choose|j: int| 0 <= j < t.len() && t[j].0 == k;
            if j != i {
                assert(entries[j].0 == k);
            }
        }
        if has_key(entries, k) {
            let j = choose|j: int| 0 <= j < entries.len() && entries[j].0 == k;
            assert(t[j].0 == k);
        }
        if k == key {
            assert(t[i].0 == k);
        }
    }
    assert forall|k: K| #[trigger] entries_map(t).dom().contains(k) implies entries_map(t)[k]
        == m[k] by {
        if k == key {
            lemma_entries_map_at(t, i);
        } else {
            let j = choose|j: int| 0 <= j < entries.len() && entries[j].0 == k;
            lemma_entries_map_at(t, j);
            lemma_entries_map_at(entries, j);
        }
    }
    assert(entries_map(t) =~= m);
}

/// Appending an entry for a new key keeps keys unique and adds the key to the map.
pub proof fn lemma_entries_push<K, V>(entries: Seq<(K, V)>, key: K, value: V)
    requires
        keys_unique(entries),
        !has_key(entries, key),
    ensures
        keys_unique(entries.push((key, value))),
        entries_map(entries.push((key, value))) == entries_map(entries).insert(key, value),
{
    let t = entries.push((key, value));
    let n = entries.len() as int;
    assert forall|p: int, q: int| 0 <= p < q < t.len() implies t[p].0 != t[q].0 by {
        if q == n {
            assert(entries[p].0 != key);
        } else {
            assert(t[p] == entries[p]);
            assert(t[q] == entries[q]);
        }
    }
    let m = entries_map(entries).insert(key, value);
    assert forall|k: K| #[trigger] entries_map(t).dom().contains(k) <==> m.dom().contains(k) by {
        if has_key(t, k) {
            let j = choose|j: int| 0 <= j < t.len() && t[j].0 == k;
            if j != n {
                assert(entries[j].0 == k);
            }
        }
        if has_key(entries, k) {
            let j = choose|j: int| 0 <= j < entries.len() && entries[j].0 == k;
            assert(t[j].0 == k);
        }
        if k == key {
            assert(t[n].0 == k);
        }
    }
    assert forall|k: K| #[trigger] entries_map(t).dom().contains(k) implies entries_map(t)[k]
        == m[k] by {
        if k == key {
            lemma_entries_map_at(t, n);
        } else {
            let j = choose|j: int| 0 <= j < entries.len() && entries[j].0 == k;
            assert(t[j] == entries[j]);
            lemma_entries_map_at(t, j);
            lemma_entries_map_at(entries, j);
        }
    }
    assert(entries_map(t) =~= m);
}

/// Dropping the entry at `i` keeps keys unique and removes its key from the map.
pub proof fn lemma_entries_remove<K, V>(entries: Seq<(K, V)>, i: int)
    requires
        keys_unique(entries),
        0 <= i < entries.len(),
    ensures
        keys_unique(entries.remove(i)),
        entries_map(entries.remove(i)) == entries_map(entries).remove(entries[i].0),
{
    let t = entries.remove(i);
    let key = entries[i].0;
    assert forall|p: int, q: int| 0 <= p < q < t.len() implies t[p].0 != t[q].0 by {
        let pp = if p < i {
            p
        } else {
            p + 1
        };
        let qq = if q < i {
            q
        } else {
            q + 1
        };
        assert(t[p] == entries[pp]);
        assert(t[q] == entries[qq]);
        assert(entries[pp].0 != entries[qq].0);
    }
    let m = entries_map(entries).remove(key);
    assert forall|k: K| #[trigger] entries_map(t).dom().contains(k) <==> m.dom().contains(k) by {
        if has_key(t, k) {
            let j = choose|j: int| 0 <= j < t.len() && t[j].0 == k;
            let jj = if j < i {
                j
            } else {
                j + 1
            };
            assert(t[j] == entries[jj]);
            assert(entries[jj].0 != entries[i].0 || jj == i);
        }
        if has_key(entries, k) && k != key {
            let j = choose|j: int| 0 <= j < entries.len() && entries[j].0 == k;
            assert(j != i);
            if j < i {
                assert(t[j] == entries[j]);
            } else {
                assert(t[j - 1] == entries[j]);
            }
        }
    }
    assert forall|k: K| #[trigger] entries_map(t).dom().contains(k) implies entries_map(t)[k]
        == m[k] by {
        let j = choose|j: int| 0 <= j < t.len() && t[j].0 == k;
        let jj = if j < i {
            j
        } else {
            j + 1
        };
        assert(t[j] == entries[jj]);
        lemma_entries_map_at(t, j);
        lemma_entries_map_at(entries, jj);
    }
    assert(entries_map(t) =~= m);
}

/// The entry at `i` carries a key that `==` finds equal to `key`.
pub open spec fn key_matches<K: PartialEq, V>(entries: Seq<(K, V)>, i: int, key: K) -> bool {
    entries[i].0.eq_spec(&key)
}

/// Some entry carries a key that `==` finds equal to `key`.
pub open spec fn has_match<K: PartialEq, V>(entries: Seq<(K, V)>, key: K) -> bool {
    exists|i: int| 0 <= i < entries.len() && #[trigger] key_matches(entries, i, key)
}

/// `i` is the first entry whose key `==` finds equal to `key`.
pub open spec fn is_first_match<K: PartialEq, V>(entries: Seq<(K, V)>, key: K, i: int) -> bool {
    &&& 0 <= i < entries.len()
    &&& key_matches(entries, i, key)
    &&& forall|j: int| 0 <= j < i ==> !#[trigger] key_matches(entries, j, key)
}

/// The first entry whose key `==` finds equal to `key` (meaningful when `has_match`).
pub open spec fn first_match<K: PartialEq, V>(entries: Seq<(K, V)>, key: K) -> int {
    choose|i: int| is_first_match(entries, key, i)
}

/// No two entries carry keys that `==` finds equal.
pub open spec fn no_equal_keys<K: PartialEq, V>(entries: Seq<(K, V)>) -> bool {
    forall|i: int, j: int| 0 <= i < j < entries.len() ==> !entries[i].0.eq_spec(&entries[j].0)
}

/// The value that a read of `key` finds: that of the first matching entry.
pub open spec fn lookup<K: PartialEq, V>(entries: Seq<(K, V)>, key: K) -> Option<V> {
    if has_match(entries, key) {
        Some(entries[first_match(entries, key)].1)
    } else {
        None
    }
}

/// The entries after binding `key` to `value`: the first matching entry is overwritten
/// in place, or a new entry is appended.
pub open spec fn inserted<K: PartialEq, V>(entries: Seq<(K, V)>, key: K, value: V) -> Seq<(K, V)> {
    if has_match(entries, key) {
        entries.update(first_match(entries, key), (key, value))
    } else {
        entries.push((key, value))
    }
}

/// The entries after removing `key`: the first matching entry goes; where none
/// matches, the first entry goes (when there is one).
pub open spec fn removed<K: PartialEq, V>(entries: Seq<(K, V)>, key: K) -> Seq<(K, V)> {
    if has_match(entries, key) {
        entries.remove(first_match(entries, key))
    } else if entries.len() == 0 {
        entries
    } else {
        entries.remove(0)
    }
}

/// The value that removing `key` hands back.
pub open spec fn removed_value<K: PartialEq, V>(entries: Seq<(K, V)>, key: K) -> Option<V> {
    if has_match(entries, key) {
        Some(entries[first_match(entries, key)].1)
    } else if entries.len() == 0 {
        None
    } else {
        Some(entries[0].1)
    }
}

/// `==` on `K` is an equivalence: reflexive, symmetric and transitive.
pub open spec fn key_equivalence<K: PartialEq>() -> bool {
    &&& K::obeys_eq_spec()
    &&& forall|x: K| #[trigger] x.eq_spec(&x)
    &&& forall|x: K, y: K| #[trigger] x.eq_spec(&y) ==> y.eq_spec(&x)
    &&& forall|x: K, y: K, z: K| #[trigger] x.eq_spec(&y) && #[trigger] y.eq_spec(&z) ==> x.eq_spec(&z)
}

/// A first match is the first match.
pub proof fn lemma_first_match<K: PartialEq, V>(entries: Seq<(K, V)>, key: K, i: int)
    requires
        is_first_match(entries, key, i),
    ensures
        has_match(entries, key),
        first_match(entries, key) == i,
{
    assert(key_matches(entries, i, key));
    let j = first_match(entries, key);
    if j < i {
        assert(!key_matches(entries, j, key));
    } else if i < j {
        assert(!key_matches(entries, i, key));
    }
}

/// Where some entry matches, there is a first match.
pub proof fn lemma_has_first_match<K: PartialEq, V>(entries: Seq<(K, V)>, key: K)
    requires
        has_match(entries, key),
    ensures
        is_first_match(entries, key, first_match(entries, key)),
    decreases entries.len(),
{
    let n = entries.len() as int;
    if key_matches(entries, n - 1, key) && !has_match(entries.drop_last(), key) {
        assert forall|j: int| 0 <= j < n - 1 implies !#[trigger] key_matches(entries, j, key) by {
            assert(entries.drop_last()[j] == entries[j]);
            if key_matches(entries, j, key) {
                assert(key_matches(entries.drop_last(), j, key));
            }
        }
        lemma_first_match(entries, key, n - 1);
    } else {
        let w = choose|i: int| 0 <= i < n && #[trigger] key_matches(entries, i, key);
        if w < n - 1 {
            assert(entries.drop_last()[w] == entries[w]);
            assert(key_matches(entries.drop_last(), w, key));
        }
        let d = entries.drop_last();
        lemma_has_first_match(d, key);
        let i = first_match(d, key);
        assert(d[i] == entries[i]);
        assert forall|j: int| 0 <= j < i implies !#[trigger] key_matches(entries, j, key) by {
            assert(d[j] == entries[j]);
            assert(!key_matches(d, j, key));
        }
        assert(key_matches(entries, i, key));
        lemma_first_match(entries, key, i);
    }
}

/// Dropping an entry keeps the keys pairwise unequal.
pub proof fn lemma_no_equal_keys_remove<K: PartialEq, V>(entries: Seq<(K, V)>, i: int)
    requires
        no_equal_keys(entries),
        0 <= i < entries.len(),
    ensures
        no_equal_keys(entries.remove(i)),
{
    let t = entries.remove(i);
    assert forall|p: int, q: int| 0 <= p < q < t.len() implies !t[p].0.eq_spec(&t[q].0) by {
        let pp = if p < i {
            p
        } else {
            p + 1
        };
        let qq = if q < i {
            q
        } else {
            q + 1
        };
        assert(t[p] == entries[pp]);
        assert(t[q] == entries[qq]);
    }
}

/// Where `==` is structural, keys unequal by `==` are distinct, and the first match of
/// a key is its only entry.
proof fn lemma_concrete<K: PartialEq, V>(entries: Seq<(K, V)>, key: K)
    requires
        obeys_concrete_eq::<K>(),
        no_equal_keys(entries),
    ensures
        keys_unique(entries),
        has_match(entries, key) == has_key(entries, key),
        has_match(entries, key) ==> first_match(entries, key) == key_index(entries, key),
{
    reveal(obeys_concrete_eq);
    assert forall|i: int, j: int| 0 <= i < j < entries.len() implies entries[i].0
        != entries[j].0 by {
        assert(!entries[i].0.eq_spec(&entries[j].0));
    }
    if has_key(entries, key) {
        let i = choose|i: int| 0 <= i < entries.len() && entries[i].0 == key;
        assert(key_matches(entries, i, key));
    }
    if has_match(entries, key) {
        lemma_has_first_match(entries, key);
        let i = first_match(entries, key);
        assert(entries[i].0 == key);
        lemma_entries_map_at(entries, i);
    }
}

/// A map kept as a list of `(key, value)` pairs in insertion order, whose keys are
/// compared with `==`.
pub struct LinkMap<K: PartialEq, V> {
    data: Vec<(K, V)>,
}

impl<K: PartialEq, V> LinkMap<K, V> {
    #[verifier::type_invariant]
    spec fn inv(self) -> bool {
        no_equal_keys(self.data@)
    }

    /// The entries, in the order in which they are kept.
    pub closed spec fn entries(&self) -> Seq<(K, V)> {
        self.data@
    }
}

impl<K: PartialEq, V> View for LinkMap<K, V> {
    type V = Map<K, V>;

    /// The map the entries stand for, where keys are told apart by identity.
    open spec fn view(&self) -> Map<K, V> {
        entries_map(self.entries())
    }
}

impl<K: PartialEq, V> LinkMap<K, V> {
    /// An empty map.
    pub fn new() -> (m: Self)
        ensures
            m.entries() == Seq::<(K, V)>::empty(),
            m@ == Map::<K, V>::empty(),
            no_equal_keys(m.entries()),
    {
        let m = LinkMap { data: Vec::new() };
        assert(m@ =~= Map::<K, V>::empty());
        m
    }

    /// Binds `key` to `value`: the first entry whose key `==` finds equal to `key` is
    /// overwritten in place, or a new entry is appended at the end.
    pub fn insert(&mut self, key: K, value: V)
        requires
            obeys_eq::<K>(),
        ensures
            final(self).entries() == inserted(old(self).entries(), key, value),
            no_equal_keys(final(self).entries()),
            obeys_concrete_eq::<K>() ==> final(self)@ == old(self)@.insert(key, value),
    {
        proof {
            use_type_invariant(&*self);
            reveal(obeys_eq_spec_properties);
        }
        let len = self.data.len();
        let mut i: usize = 0;
        while i < len
            invariant
                0 <= i <= len,
                len == self.data.len(),
                self.data@ == old(self).data@,
                no_equal_keys(self.data@),
                K::obeys_eq_spec(),
                obeys_eq_spec_properties::<K>(),
                forall|j: int| 0 <= j < i ==> !#[trigger] key_matches(self.data@, j, key),
            decreases len - i,
        {
            if self.data[i].0 == key {
                let ghost e = self.data@;
                proof {
                    reveal(obeys_eq_spec_properties);
                    assert(key_matches(e, i as int, key));
                    lemma_first_match(e, key, i as int);
                    let t = e.update(i as int, (key, value));
                    assert forall|p: int, q: int| 0 <= p < q < t.len() implies !t[p].0.eq_spec(
                        &t[q].0,
                    ) by {
                        if p == i {
                            assert(!e[p].0.eq_spec(&e[q].0));
                            if key.eq_spec(&e[q].0) {
                                assert(e[p].0.eq_spec(&key));
                            }
                        } else if q == i {
                            assert(!key_matches(e, p, key));
                        } else {
                            assert(t[p] == e[p] && t[q] == e[q]);
                        }
                    }
                    if obeys_concrete_eq::<K>() {
                        lemma_concrete(e, key);
                        lemma_entries_update(e, i as int, key, value);
                        reveal(obeys_concrete_eq);
                    }
                }
                let mut data = Vec::new();
                std::mem::swap(&mut data, &mut self.data);
                data.set(i, (key, value));
                self.data = data;
                return ;
            }
            i = i + 1;
        }
        let ghost e = self.data@;
        proof {
            assert(!has_match(e, key));
            let t = e.push((key, value));
            assert forall|p: int, q: int| 0 <= p < q < t.len() implies !t[p].0.eq_spec(&t[q].0) by {
                if q == e.len() {
                    assert(!key_matches(e, p, key));
                } else {
                    assert(t[p] == e[p] && t[q] == e[q]);
                }
            }
            if obeys_concrete_eq::<K>() {
                lemma_concrete(e, key);
                lemma_entries_push(e, key, value);
            }
        }
        let mut data = Vec::new();
        std::mem::swap(&mut data, &mut self.data);
        data.push((key, value));
        self.data = data;
    }

    /// The value of the first entry whose key `==` finds equal to `key`, if any.
    pub fn get(&self, key: &K) -> (r: Option<&V>)
        requires
            K::obeys_eq_spec(),
        ensures
            r == (if has_match(self.entries(), *key) {
                Some(&self.entries()[first_match(self.entries(), *key)].1)
            } else {
                None::<&V>
            }),
            obeys_concrete_eq::<K>() ==> r == (if self@.dom().contains(*key) {
                Some(&self@[*key])
            } else {
                None::<&V>
            }),
    {
        proof {
            use_type_invariant(self);
            if obeys_concrete_eq::<K>() {
                lemma_concrete(self.data@, *key);
            }
        }
        let len = self.data.len();
        let mut i: usize = 0;
        while i < len
            invariant
                0 <= i <= len,
                len == self.data.len(),
                K::obeys_eq_spec(),
                no_equal_keys(self.data@),
                forall|j: int| 0 <= j < i ==> !#[trigger] key_matches(self.data@, j, *key),
            decreases len - i,
        {
            let entry = &self.data[i];
            if entry.0 == *key {
                proof {
                    assert(key_matches(self.data@, i as int, *key));
                    lemma_first_match(self.data@, *key, i as int);
                    if obeys_concrete_eq::<K>() {
                        lemma_concrete(self.data@, *key);
                        lemma_entries_map_at(self.data@, i as int);
                    }
                }
                return Some(&entry.1);
            }
            i = i + 1;
        }
        None
    }

    /// Removes the first entry whose key `==` finds equal to `key` and hands back its
    /// value. Where no key matches, the first entry is the one removed (when there is
    /// one).
    pub fn remove(&mut self, key: &K) -> (r: Option<V>)
        requires
            K::obeys_eq_spec(),
        ensures
            r == removed_value(old(self).entries(), *key),
            final(self).entries() == removed(old(self).entries(), *key),
            no_equal_keys(final(self).entries()),
            obeys_concrete_eq::<K>() ==> {
                &&& old(self)@.dom().contains(*key) ==> final(self)@ == old(self)@.remove(*key)
                &&& !old(self)@.dom().contains(*key) && old(self).entries().len() > 0
                    ==> final(self)@ == old(self)@.remove(old(self).entries()[0].0)
                &&& old(self).entries().len() == 0 ==> final(self)@ == old(self)@
            },
    {
        proof {
            use_type_invariant(&*self);
        }
        let len = self.data.len();
        let mut index: usize = 0;
        let mut found = false;
        let mut i: usize = 0;
        while !found && i < len
            invariant
                0 <= i <= len,
                len == self.data.len(),
                self.data@ == old(self).data@,
                K::obeys_eq_spec(),
                forall|j: int| 0 <= j < i ==> !#[trigger] key_matches(self.data@, j, *key),
                found ==> i < len && key_matches(self.data@, i as int, *key) && index == i,
                !found ==> index == 0,
            decreases len - i + (if found {
                0int
            } else {
                1int
            }),
        {
            if self.data[i].0 == *key {
                index = i;
                found = true;
            } else {
                i = i + 1;
            }
        }
        let ghost e = self.data@;
        proof {
            if found {
                lemma_first_match(e, *key, i as int);
            } else {
                assert(!has_match(e, *key));
            }
            if index < len {
                lemma_no_equal_keys_remove(e, index as int);
            }
            if obeys_concrete_eq::<K>() {
                lemma_concrete(e, *key);
                if index < len {
                    lemma_entries_remove(e, index as int);
                    if found {
                        lemma_entries_map_at(e, index as int);
                    }
                }
            }
        }
        if index < self.data.len() {
            let mut data = Vec::new();
            std::mem::swap(&mut data, &mut self.data);
            let entry = data.remove(index);
            self.data = data;
            Some(entry.1)
        } else {
            None
        }
    }
}

/// With `==` an equivalence, a read right after a write of `key` gives back the written
/// value, and every key that `==` finds unequal to `key` reads as before.
pub proof fn law_get_after_insert<K: PartialEq, V>(entries: Seq<(K, V)>, key: K, value: V, other: K)
    requires
        key_equivalence::<K>(),
        !other.eq_spec(&key),
    ensures
        lookup(inserted(entries, key, value), key) == Some(value),
        lookup(inserted(entries, key, value), other) == lookup(entries, other),
{
    let t = inserted(entries, key, value);
    let n = entries.len() as int;
    assert(!key.eq_spec(&other));
    if has_match(entries, key) {
        lemma_has_first_match(entries, key);
        let i = first_match(entries, key);
        assert forall|j: int| 0 <= j < i implies !#[trigger] key_matches(t, j, key) by {
            assert(t[j] == entries[j]);
            assert(!key_matches(entries, j, key));
        }
        assert(key_matches(t, i, key));
        lemma_first_match(t, key, i);
        // position i matches `other` in neither sequence
        assert(!key_matches(t, i, other));
        if entries[i].0.eq_spec(&other) {
            assert(key.eq_spec(&entries[i].0));
        }
        assert(!key_matches(entries, i, other));
        if has_match(entries, other) {
            lemma_has_first_match(entries, other);
            let k = first_match(entries, other);
            assert(k != i);
            assert(t[k] == entries[k]);
            assert forall|j: int| 0 <= j < k implies !#[trigger] key_matches(t, j, other) by {
                if j != i {
                    assert(t[j] == entries[j]);
                    assert(!key_matches(entries, j, other));
                }
            }
            assert(key_matches(t, k, other));
            lemma_first_match(t, other, k);
        } else {
            assert forall|j: int| 0 <= j < t.len() implies !#[trigger] key_matches(t, j, other) by {
                if j != i {
                    assert(t[j] == entries[j]);
                    assert(!key_matches(entries, j, other));
                }
            }
        }
    } else {
        assert forall|j: int| 0 <= j < n implies !#[trigger] key_matches(t, j, key) by {
            assert(t[j] == entries[j]);
            assert(!key_matches(entries, j, key));
        }
        assert(key_matches(t, n, key));
        lemma_first_match(t, key, n);
        assert(!key_matches(t, n, other));
        if has_match(entries, other) {
            lemma_has_first_match(entries, other);
            let k = first_match(entries, other);
            assert(t[k] == entries[k]);
            assert forall|j: int| 0 <= j < k implies !#[trigger] key_matches(t, j, other) by {
                assert(t[j] == entries[j]);
                assert(!key_matches(entries, j, other));
            }
            assert(key_matches(t, k, other));
            lemma_first_match(t, other, k);
        } else {
            assert forall|j: int| 0 <= j < t.len() implies !#[trigger] key_matches(t, j, other) by {
                if j < n {
                    assert(t[j] == entries[j]);
                    assert(!key_matches(entries, j, other));
                }
            }
        }
    }
}

/// With `==` an equivalence and no two keys equal, removing a key that is present
/// leaves no entry for it, and every key that `==` finds unequal to it reads as before.
pub proof fn law_remove_present<K: PartialEq, V>(entries: Seq<(K, V)>, key: K, other: K)
    requires
        key_equivalence::<K>(),
        no_equal_keys(entries),
        has_match(entries, key),
        !other.eq_spec(&key),
    ensures
        lookup(removed(entries, key), key) == None::<V>,
        lookup(removed(entries, key), other) == lookup(entries, other),
{
    lemma_has_first_match(entries, key);
    let i = first_match(entries, key);
    let t = removed(entries, key);
    assert(t == entries.remove(i));
    assert forall|j: int| 0 <= j < t.len() implies !#[trigger] key_matches(t, j, key) by {
        let jj = if j < i {
            j
        } else {
            j + 1
        };
        assert(t[j] == entries[jj]);
        if key_matches(entries, jj, key) {
            assert(key.eq_spec(&entries[jj].0));
            assert(key.eq_spec(&entries[i].0));
            assert(entries[i].0.eq_spec(&key));
            if i < jj {
                assert(entries[i].0.eq_spec(&entries[jj].0));
            } else {
                assert(entries[jj].0.eq_spec(&entries[i].0));
            }
        }
    }
    assert(!key_matches(entries, i, other)) by {
        if entries[i].0.eq_spec(&other) {
            assert(other.eq_spec(&entries[i].0));
        }
    }
    if has_match(entries, other) {
        lemma_has_first_match(entries, other);
        let k = first_match(entries, other);
        assert(k != i);
        let kk = if k < i {
            k
        } else {
            k - 1
        };
        assert(t[kk] == entries[k]);
        assert forall|j: int| 0 <= j < kk implies !#[trigger] key_matches(t, j, other) by {
            let jj = if j < i {
                j
            } else {
                j + 1
            };
            assert(t[j] == entries[jj]);
            assert(!key_matches(entries, jj, other));
        }
        assert(key_matches(t, kk, other));
        lemma_first_match(t, other, kk);
    } else {
        assert forall|j: int| 0 <= j < t.len() implies !#[trigger] key_matches(t, j, other) by {
            let jj = if j < i {
                j
            } else {
                j + 1
            };
            assert(t[j] == entries[jj]);
            assert(!key_matches(entries, jj, other));
        }
    }
}

/// With `==` reflexive, writing a key that is absent and then removing it hands back
/// the written value and leaves the entries as they were.
pub proof fn law_insert_then_remove<K: PartialEq, V>(entries: Seq<(K, V)>, key: K, value: V)
    requires
        key_equivalence::<K>(),
        !has_match(entries, key),
    ensures
        removed_value(inserted(entries, key, value), key) == Some(value),
        removed(inserted(entries, key, value), key) == entries,
{
    let t = inserted(entries, key, value);
    let n = entries.len() as int;
    assert forall|j: int| 0 <= j < n implies !#[trigger] key_matches(t, j, key) by {
        assert(t[j] == entries[j]);
        assert(!key_matches(entries, j, key));
    }
    assert(key_matches(t, n, key));
    lemma_first_match(t, key, n);
    assert(t.remove(n) =~= entries);
}

/// A read finds the value of the first entry whose key `==` finds equal to `key`, and
/// nothing where no key is equal.
pub proof fn law_lookup_first_equal_key<K: PartialEq, V>(entries: Seq<(K, V)>, key: K, i: int)
    requires
        0 <= i < entries.len(),
        entries[i].0.eq_spec(&key),
        forall|j: int| 0 <= j < i ==> !entries[j].0.eq_spec(&key),
    ensures
        lookup(entries, key) == Some(entries[i].1),
        removed_value(entries, key) == Some(entries[i].1),
        removed(entries, key) == entries.remove(i),
        inserted(entries, key, entries[i].1) == entries.update(i, (key, entries[i].1)),
{
    assert forall|j: int| 0 <= j < i implies !#[trigger] key_matches(entries, j, key) by {}
    lemma_first_match(entries, key, i);
}

/// Where no key is equal to `key`: a read finds nothing, a write appends, and a removal
/// drops the first entry and hands back its value (or nothing, from an empty list).
pub proof fn law_no_equal_key<K: PartialEq, V>(entries: Seq<(K, V)>, key: K, value: V)
    requires
        forall|j: int| 0 <= j < entries.len() ==> !entries[j].0.eq_spec(&key),
    ensures
        lookup(entries, key) == None::<V>,
        inserted(entries, key, value) == entries.push((key, value)),
        entries.len() > 0 ==> removed(entries, key) == entries.subrange(1, entries.len() as int)
            && removed_value(entries, key) == Some(entries[0].1),
        entries.len() == 0 ==> removed(entries, key) == entries && removed_value(entries, key)
            == None::<V>,
{
    assert(!has_match(entries, key)) by {
        if has_match(entries, key) {
            let w = choose|i: int| 0 <= i < entries.len() && #[trigger] key_matches(entries, i, key);
            assert(!entries[w].0.eq_spec(&key));
        }
    }
    if entries.len() > 0 {
        assert(entries.remove(0) =~= entries.subrange(1, entries.len() as int));
    }
}

} // verus!
