//! A small map kept as a list of entries, for keys that are compared by
//! their view: texts and type identities. An insertion leaves at most one
//! entry under its key; lookups scan.

use vstd::prelude::*;
use vstd::map::*;

verus! {

/// Keys that can be compared by their view.
pub trait SameKey: View + Sized {
    /// True exactly when the two keys have the same view.
    fn same_key(&self, other: &Self) -> (r: bool)
        ensures
            r == (self@ == other@),
    ;
}

impl SameKey for String {
    fn same_key(&self, other: &Self) -> (r: bool) {
        *self == *other
    }
}

/// The value of the first entry under `key`, if there is one.
pub open spec fn lookup<K: View, V>(entries: Seq<(K, V)>, key: K::V) -> Option<V>
    decreases entries.len(),
{
    if entries.len() == 0 {
        None
    } else if entries[0].0@ == key {
        Some(entries[0].1)
    } else {
        lookup(entries.subrange(1, entries.len() as int), key)
    }
}

/// The map a list of entries stands for.
pub open spec fn as_map<K: View, V>(entries: Seq<(K, V)>) -> Map<K::V, V> {
    Map::new(|k: K::V| lookup(entries, k) is Some, |k: K::V| lookup(entries, k).unwrap())
}

proof fn lemma_lookup_skips<K: View, V>(entries: Seq<(K, V)>, key: K::V, i: int)
    requires
        0 <= i <= entries.len(),
        forall|j: int| 0 <= j < i ==> entries[j].0@ != key,
    ensures
        lookup(entries, key) == lookup(entries.subrange(i, entries.len() as int), key),
    decreases i,
{
    if i == 0 {
        assert(entries.subrange(0, entries.len() as int) == entries);
    } else {
        let rest = entries.subrange(1, entries.len() as int);
        assert forall|j: int| 0 <= j < i - 1 implies rest[j].0@ != key by {
            assert(rest[j] == entries[j + 1]);
        }
        lemma_lookup_skips(rest, key, i - 1);
        assert(rest.subrange(i - 1, rest.len() as int) == entries.subrange(
            i,
            entries.len() as int,
        ));
    }
}

proof fn lemma_lookup_at<K: View, V>(entries: Seq<(K, V)>, key: K::V, i: int)
    requires
        0 <= i < entries.len(),
        entries[i].0@ == key,
        forall|j: int| 0 <= j < i ==> entries[j].0@ != key,
    ensures
        lookup(entries, key) == Some(entries[i].1),
{
    lemma_lookup_skips(entries, key, i);
    assert(entries.subrange(i, entries.len() as int)[0] == entries[i]);
}

proof fn lemma_lookup_none<K: View, V>(entries: Seq<(K, V)>, key: K::V)
    requires
        forall|j: int| 0 <= j < entries.len() ==> entries[j].0@ != key,
    ensures
        lookup(entries, key) is None,
{
    lemma_lookup_skips(entries, key, entries.len() as int);
    assert(entries.subrange(entries.len() as int, entries.len() as int).len() == 0);
}

proof fn lemma_lookup_remove<K: View, V>(entries: Seq<(K, V)>, i: int, key: K::V)
    requires
        0 <= i < entries.len(),
        entries[i].0@ != key,
    ensures
        lookup(entries.remove(i), key) == lookup(entries, key),
    decreases i,
{
    let after = entries.remove(i);
    let rest = entries.subrange(1, entries.len() as int);
    if i == 0 {
        assert(after == rest);
    } else {
        assert(after[0] == entries[0]);
        assert(after.subrange(1, after.len() as int) == rest.remove(i - 1));
        if entries[0].0@ != key {
            lemma_lookup_remove(rest, i - 1, key);
        }
    }
}

proof fn lemma_lookup_update<K: View, V>(entries: Seq<(K, V)>, i: int, entry: (K, V), key: K::V)
    requires
        0 <= i < entries.len(),
        entry.0@ == entries[i].0@,
        forall|j: int| 0 <= j < i ==> entries[j].0@ != entry.0@,
    ensures
        lookup(entries.update(i, entry), key) == if key == entry.0@ {
            Some(entry.1)
        } else {
            lookup(entries, key)
        },
    decreases i,
{
    let after = entries.update(i, entry);
    let rest = entries.subrange(1, entries.len() as int);
    if i == 0 {
        assert(after.subrange(1, after.len() as int) == rest);
    } else {
        assert(after[0] == entries[0]);
        assert(after.subrange(1, after.len() as int) == rest.update(i - 1, entry));
        assert forall|j: int| 0 <= j < i - 1 implies rest[j].0@ != entry.0@ by {
            assert(rest[j] == entries[j + 1]);
        }
        lemma_lookup_update(rest, i - 1, entry, key);
    }
}

proof fn lemma_lookup_push<K: View, V>(entries: Seq<(K, V)>, entry: (K, V), key: K::V)
    ensures
        lookup(entries.push(entry), key) == if lookup(entries, key) is Some {
            lookup(entries, key)
        } else if entry.0@ == key {
            Some(entry.1)
        } else {
            None
        },
    decreases entries.len(),
{
    let after = entries.push(entry);
    let tail = after.subrange(1, after.len() as int);
    assert(after.len() > 0);
    if entries.len() == 0 {
        assert(after[0] == entry);
        assert(tail.len() == 0);
        assert(lookup(tail, key) is None);
        assert(lookup(entries, key) is None);
    } else {
        let rest = entries.subrange(1, entries.len() as int);
        assert(after[0] == entries[0]);
        assert(tail == rest.push(entry));
        lemma_lookup_push(rest, entry, key);
        if entries[0].0@ == key {
            assert(lookup(after, key) == Some(entries[0].1));
        } else {
            assert(lookup(after, key) == lookup(tail, key));
            assert(lookup(entries, key) == lookup(rest, key));
        }
    }
}

/// A map from keys to values, kept as a list.
pub struct AssocList<K, V> {
    entries: Vec<(K, V)>,
}

impl<K: View, V> View for AssocList<K, V> {
    type V = Map<K::V, V>;

    closed spec fn view(&self) -> Map<K::V, V> {
        as_map(self.entries@)
    }
}

impl<K: SameKey, V> AssocList<K, V> {
    /// The empty map.
    pub fn new() -> (r: Self)
        ensures
            r@ == Map::<K::V, V>::empty(),
    {
        let r = AssocList { entries: Vec::new() };
        assert(r@ =~= Map::<K::V, V>::empty());
        r
    }

    fn position(&self, key: &K) -> (r: Option<usize>)
        ensures
            match r {
                Some(i) => i < self.entries.len() && self.entries@[i as int].0@ == key@
                    && lookup(self.entries@, key@) == Some(self.entries@[i as int].1)
                    && forall|j: int| 0 <= j < i ==> self.entries@[j].0@ != key@,
                None => lookup(self.entries@, key@) is None,
            },
    {
        let mut i: usize = 0;
        while i < self.entries.len()
            invariant
                i <= self.entries.len(),
                forall|j: int| 0 <= j < i ==> self.entries@[j].0@ != key@,
            decreases self.entries.len() - i,
        {
            if self.entries[i].0.same_key(key) {
                proof {
                    lemma_lookup_at(self.entries@, key@, i as int);
                }
                return Some(i);
            }
            i += 1;
        }
        proof {
            lemma_lookup_none(self.entries@, key@);
        }
        None
    }

    /// True when the map has the key.
    pub fn contains_key(&self, key: &K) -> (r: bool)
        ensures
            r == self@.contains_key(key@),
    {
        self.position(key).is_some()
    }

    /// The value under a key.
    pub fn get(&self, key: &K) -> (r: Option<&V>)
        ensures
            match r {
                Some(v) => self@.contains_key(key@) && *v == self@[key@],
                None => !self@.contains_key(key@),
            },
    {
        match self.position(key) {
            Some(i) => Some(&self.entries[i].1),
            None => None,
        }
    }

    /// Takes a key and its value out of the map.
    pub fn remove(&mut self, key: &K) -> (r: Option<V>)
        ensures
            final(self)@ == old(self)@.remove(key@),
            r == if old(self)@.contains_key(key@) {
                Some(old(self)@[key@])
            } else {
                None::<V>
            },
            final(self).size() <= old(self).size(),
    {
        let mut found: Option<V> = None;
        let mut i: usize = 0;
        while i < self.entries.len()
            invariant
                i <= self.entries.len(),
                forall|j: int| 0 <= j < i ==> self.entries@[j].0@ != key@,
                forall|other: K::V|
                    other != key@ ==> #[trigger] lookup(self.entries@, other) == lookup(
                        old(self).entries@,
                        other,
                    ),
                found is Some ==> found == lookup(old(self).entries@, key@),
                found is None ==> lookup(self.entries@, key@) == lookup(old(self).entries@, key@),
                self.entries@.len() <= old(self).entries@.len(),
            decreases self.entries.len() - i,
        {
            if self.entries[i].0.same_key(key) {
                let ghost before = self.entries@;
                proof {
                    lemma_lookup_at(before, key@, i as int);
                }
                let entry = self.entries.remove(i);
                proof {
                    assert forall|other: K::V| other != key@ implies #[trigger] lookup(
                        self.entries@,
                        other,
                    ) == lookup(old(self).entries@, other) by {
                        lemma_lookup_remove(before, i as int, other);
                    }
                }
                if found.is_none() {
                    found = Some(entry.1);
                }
            } else {
                i += 1;
            }
        }
        proof {
            lemma_lookup_none(self.entries@, key@);
            assert(self@ =~= old(self)@.remove(key@));
        }
        found
    }

    /// Puts a value under a key, replacing what was there.
    pub fn insert(&mut self, key: K, value: V)
        ensures
            final(self)@ == old(self)@.insert(key@, value),
    {
        let _ = self.remove(&key);
        let ghost before = self.entries@;
        let ghost k = key@;
        proof {
            assert(as_map(before) == old(self)@.remove(k));
            assert(!as_map(before).contains_key(k));
            assert(lookup(before, k) is None);
        }
        self.entries.push((key, value));
        proof {
            let after = self.entries@;
            let want = old(self)@.insert(k, value);
            assert(after == before.push((key, value)));
            assert_maps_equal!(as_map(after), want, other => {
                lemma_lookup_push(before, (key, value), other);
                if other != k {
                    assert(as_map(before).contains_key(other) == old(self)@.contains_key(other));
                    if as_map(before).contains_key(other) {
                        assert(as_map(before)[other] == old(self)@[other]);
                    }
                }
            });
        }
    }

    /// The number of entries kept.
    pub closed spec fn size(&self) -> nat {
        self.entries@.len()
    }

    /// Takes some key and its value out of the map; nothing when the map is
    /// empty.
    pub fn pop(&mut self) -> (r: Option<(K, V)>)
        ensures
            match r {
                Some(entry) => old(self)@.contains_key(entry.0@) && old(self)@[entry.0@] == entry.1
                    && final(self)@ == old(self)@.remove(entry.0@) && final(self).size() < old(
                    self,
                ).size(),
                None => old(self)@ == Map::<K::V, V>::empty() && final(self)@ == old(self)@
                    && final(self).size() == old(self).size(),
            },
    {
        if self.entries.len() == 0 {
            assert(self@ =~= Map::<K::V, V>::empty());
            return None;
        }
        let ghost before = self.entries@;
        let entry = self.entries.remove(0);
        let ghost rest = self.entries@;
        proof {
            assert(rest == before.subrange(1, before.len() as int));
            assert(lookup(before, entry.0@) == Some(entry.1));
        }
        let ghost mid = self@;
        let _ = self.remove(&entry.0);
        proof {
            assert_maps_equal!(self@, old(self)@.remove(entry.0@), other => {
                if other != entry.0@ {
                    assert(lookup(before, other) == lookup(rest, other));
                    assert(mid.contains_key(other) == old(self)@.contains_key(other));
                }
            });
        }
        Some(entry)
    }

    /// The value under a key, for changing it in place.
    pub fn get_mut(&mut self, key: &K) -> (r: Option<&mut V>)
        ensures
            match r {
                Some(v) => old(self)@.contains_key(key@) && *v == old(self)@[key@] && final(self)@
                    == old(self)@.insert(key@, *final(v)),
                None => !old(self)@.contains_key(key@) && final(self)@ == old(self)@,
            },
    {
        match self.position(key) {
            Some(i) => {
                let ghost before = self.entries@;
                let entry = &mut self.entries[i];
                let ghost k = entry.0;
                let value = &mut entry.1;
                proof {
                    let changed = (k, *final(value));
                    assert(changed.0@ == key@);
                    assert_maps_equal!(
                        as_map(before.update(i as int, changed)),
                        as_map(before).insert(key@, changed.1),
                        other => {
                            lemma_lookup_update(before, i as int, changed, other);
                        }
                    );
                }
                Some(value)
            },
            None => None,
        }
    }
}

} // verus!
