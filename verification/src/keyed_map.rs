//! A map keyed by [`Key`], kept as an association list with unique keys.
use crate::key::{Key, KeyView};
use vstd::prelude::*;

verus! {

/// The map that an association list with unique keys stands for.
pub open spec fn assoc_map<V>(s: Seq<(KeyView, V)>) -> Map<KeyView, V>
    decreases s.len(),
{
    if s.len() == 0 {
        Map::empty()
    } else {
        assoc_map(s.drop_last()).insert(s.last().0, s.last().1)
    }
}

/// No key occurs twice.
pub open spec fn unique_keys<V>(s: Seq<(KeyView, V)>) -> bool {
    forall|i: int, j: int| 0 <= i < s.len() && 0 <= j < s.len() && i != j ==> s[i].0 != s[j].0
}

/// A key is in the map exactly when some entry carries it.
pub proof fn lemma_assoc_contains<V>(s: Seq<(KeyView, V)>, k: KeyView)
    ensures
        assoc_map(s).contains_key(k) <==> exists|i: int| 0 <= i < s.len() && s[i].0 == k,
    decreases s.len(),
{
    if s.len() > 0 {
        lemma_assoc_contains(s.drop_last(), k);
        if assoc_map(s).contains_key(k) && s.last().0 != k {
            let i = choose|i: int| 0 <= i < s.drop_last().len() && s.drop_last()[i].0 == k;
            assert(s[i].0 == k);
        }
        if exists|i: int| 0 <= i < s.len() && s[i].0 == k {
            let i = choose|i: int| 0 <= i < s.len() && s[i].0 == k;
            if i < s.len() - 1 {
                assert(s.drop_last()[i].0 == k);
            }
        }
    }
}

/// The map gives each entry's value for the entry's key.
pub proof fn lemma_assoc_value<V>(s: Seq<(KeyView, V)>, i: int)
    requires
        unique_keys(s),
        0 <= i < s.len(),
    ensures
        assoc_map(s).contains_key(s[i].0),
        assoc_map(s)[s[i].0] == s[i].1,
    decreases s.len(),
{
    if i < s.len() - 1 {
        assert(unique_keys(s.drop_last()));
        lemma_assoc_value(s.drop_last(), i);
        assert(s[i].0 != s.last().0);
    }
}

/// The map of a list with unique keys has as many keys as the list has
/// entries.
pub proof fn lemma_assoc_len<V>(s: Seq<(KeyView, V)>)
    requires
        unique_keys(s),
    ensures
        assoc_map(s).dom().finite(),
        assoc_map(s).dom().len() == s.len(),
    decreases s.len(),
{
    if s.len() > 0 {
        let t = s.drop_last();
        assert(unique_keys(t));
        lemma_assoc_len(t);
        lemma_assoc_contains(t, s.last().0);
        if assoc_map(t).contains_key(s.last().0) {
            let i = choose|i: int| 0 <= i < t.len() && t[i].0 == s.last().0;
            assert(s[i].0 == s[s.len() - 1].0);
        }
    }
}

/// Replacing the value of an entry in place replaces it in the map.
pub proof fn lemma_assoc_update<V>(s: Seq<(KeyView, V)>, i: int, v: V)
    requires
        unique_keys(s),
        0 <= i < s.len(),
    ensures
        unique_keys(s.update(i, (s[i].0, v))),
        assoc_map(s.update(i, (s[i].0, v))) == assoc_map(s).insert(s[i].0, v),
{
    let k = s[i].0;
    let t = s.update(i, (k, v));
    assert(unique_keys(t));
    assert forall|x: KeyView| #[trigger] assoc_map(t).contains_key(x) <==> assoc_map(s).insert(k, v).contains_key(x) by {
        lemma_assoc_contains(t, x);
        lemma_assoc_contains(s, x);
        if exists|j: int| 0 <= j < t.len() && t[j].0 == x {
            let j = choose|j: int| 0 <= j < t.len() && t[j].0 == x;
            assert(s[j].0 == x);
        }
        if exists|j: int| 0 <= j < s.len() && s[j].0 == x {
            let j = choose|j: int| 0 <= j < s.len() && s[j].0 == x;
            assert(t[j].0 == x);
        }
    }
    assert forall|x: KeyView| #[trigger] assoc_map(t).contains_key(x) implies assoc_map(t)[x] == assoc_map(s).insert(k, v)[x] by {
        lemma_assoc_contains(t, x);
        let j = choose|j: int| 0 <= j < t.len() && t[j].0 == x;
        lemma_assoc_value(t, j);
        if j != i {
            lemma_assoc_value(s, j);
        }
    }
    assert(assoc_map(t) =~= assoc_map(s).insert(k, v));
}

/// Removing an entry removes its key from the map.
pub proof fn lemma_assoc_remove<V>(s: Seq<(KeyView, V)>, i: int)
    requires
        unique_keys(s),
        0 <= i < s.len(),
    ensures
        unique_keys(s.remove(i)),
        assoc_map(s.remove(i)) == assoc_map(s).remove(s[i].0),
{
    let k = s[i].0;
    let t = s.remove(i);
    assert forall|a: int, b: int| 0 <= a < t.len() && 0 <= b < t.len() && a != b implies t[a].0 != t[b].0 by {
        let a2 = if a < i { a } else { a + 1 };
        let b2 = if b < i { b } else { b + 1 };
        assert(t[a] == s[a2]);
        assert(t[b] == s[b2]);
    }
    assert forall|x: KeyView| #[trigger] assoc_map(t).contains_key(x) <==> assoc_map(s).remove(k).contains_key(x) by {
        lemma_assoc_contains(t, x);
        lemma_assoc_contains(s, x);
        if exists|j: int| 0 <= j < t.len() && t[j].0 == x {
            let j = choose|j: int| 0 <= j < t.len() && t[j].0 == x;
            let j2 = if j < i { j } else { j + 1 };
            assert(t[j] == s[j2]);
            assert(s[j2].0 == x);
            assert(j2 != i);
        }
        if x != k && exists|j: int| 0 <= j < s.len() && s[j].0 == x {
            let j = choose|j: int| 0 <= j < s.len() && s[j].0 == x;
            assert(j != i);
            let j2 = if j < i { j } else { j - 1 };
            assert(t[j2] == s[j]);
        }
    }
    assert forall|x: KeyView| #[trigger] assoc_map(t).contains_key(x) implies assoc_map(t)[x] == assoc_map(s).remove(k)[x] by {
        lemma_assoc_contains(t, x);
        let j = choose|j: int| 0 <= j < t.len() && t[j].0 == x;
        let j2 = if j < i { j } else { j + 1 };
        assert(t[j] == s[j2]);
        lemma_assoc_value(t, j);
        lemma_assoc_value(s, j2);
    }
    assert(assoc_map(t) =~= assoc_map(s).remove(k));
}

/// Appending an entry with a new key adds it to the map.
pub proof fn lemma_assoc_push<V>(s: Seq<(KeyView, V)>, k: KeyView, v: V)
    requires
        unique_keys(s),
        !assoc_map(s).contains_key(k),
    ensures
        unique_keys(s.push((k, v))),
        assoc_map(s.push((k, v))) == assoc_map(s).insert(k, v),
{
    lemma_assoc_contains(s, k);
    let t = s.push((k, v));
    assert(t.drop_last() =~= s);
    assert forall|a: int, b: int| 0 <= a < t.len() && 0 <= b < t.len() && a != b implies t[a].0 != t[b].0 by {
        if a == s.len() {
            assert(s[b].0 != k);
        } else if b == s.len() {
            assert(s[a].0 != k);
        }
    }
}

/// A map keyed by [`Key`] that keeps its entries in insertion order.
pub struct KeyedMap<V> {
    entries: Vec<(Key, V)>,
}

impl<V> KeyedMap<V> {
    /// The entries, each key taken by its view.
    pub closed spec fn entries(&self) -> Seq<(KeyView, V)> {
        self.entries@.map_values(|e: (Key, V)| (e.0@, e.1))
    }

    /// The map the entries stand for.
    pub open spec fn spec_map(&self) -> Map<KeyView, V> {
        assoc_map(self.entries())
    }

    /// Keys are unique.
    pub open spec fn wf(&self) -> bool {
        unique_keys(self.entries())
    }

    /// An empty map.
    pub fn new() -> (m: Self)
        ensures
            m.wf(),
            m.spec_map() == Map::<KeyView, V>::empty(),
            m.entries() == Seq::<(KeyView, V)>::empty(),
    {
        let m = KeyedMap { entries: Vec::new() };
        proof {
            assert(m.entries() =~= Seq::<(KeyView, V)>::empty());
        }
        m
    }

    /// Number of entries.
    pub fn len(&self) -> (n: usize)
        requires
            self.wf(),
        ensures
            n == self.spec_map().dom().len(),
            n == self.entries().len(),
            self.spec_map().dom().finite(),
    {
        proof {
            lemma_assoc_len(self.entries());
        }
        self.entries.len()
    }

    /// The position of the entry for `key`, if any.
    pub fn position(&self, key: &Key) -> (r: Option<usize>)
        requires
            self.wf(),
        ensures
            r is Some <==> self.spec_map().contains_key(key@),
            r is Some ==> r->0 < self.entries().len() && self.entries()[r->0 as int].0 == key@,
    {
        let n = self.entries.len();
        for i in 0..n
            invariant
                n == self.entries@.len(),
                forall|j: int| 0 <= j < i ==> self.entries()[j].0 != key@,
        {
            if self.entries[i].0.same_as(key) {
                proof {
                    assert(self.entries()[i as int].0 == key@);
                    lemma_assoc_contains(self.entries(), key@);
                }
                return Some(i);
            }
        }
        proof {
            lemma_assoc_contains(self.entries(), key@);
        }
        None
    }

    /// `true` when `key` has an entry.
    pub fn contains_key(&self, key: &Key) -> (r: bool)
        requires
            self.wf(),
        ensures
            r == self.spec_map().contains_key(key@),
    {
        self.position(key).is_some()
    }

    /// The value for `key`, if any.
    pub fn get(&self, key: &Key) -> (r: Option<&V>)
        requires
            self.wf(),
        ensures
            r is Some <==> self.spec_map().contains_key(key@),
            r is Some ==> *r->0 == self.spec_map()[key@],
    {
        match self.position(key) {
            Some(i) => {
                proof {
                    lemma_assoc_value(self.entries(), i as int);
                }
                Some(&self.entries[i].1)
            },
            None => None,
        }
    }

    /// Set the value for `key`, returning the value it replaced, if any.
    /// A new key is added after all existing entries.
    pub fn insert(&mut self, key: Key, value: V) -> (previous: Option<V>)
        requires
            old(self).wf(),
        ensures
            final(self).wf(),
            final(self).spec_map() == old(self).spec_map().insert(key@, value),
            previous is Some <==> old(self).spec_map().contains_key(key@),
            previous is Some ==> previous->0 == old(self).spec_map()[key@],
    {
        match self.position(&key) {
            Some(i) => {
                proof {
                    lemma_assoc_value(self.entries(), i as int);
                    lemma_assoc_update(self.entries(), i as int, value);
                }
                let ghost before = self.entries();
                let (old_key, old_value) = self.entries.remove(i);
                self.entries.insert(i, (old_key, value));
                proof {
                    assert(self.entries() =~= before.update(i as int, (before[i as int].0, value)));
                }
                Some(old_value)
            },
            None => {
                proof {
                    lemma_assoc_push(self.entries(), key@, value);
                }
                let ghost before = self.entries();
                let ghost kv = key@;
                self.entries.push((key, value));
                proof {
                    assert(self.entries() =~= before.push((kv, value)));
                }
                None
            },
        }
    }

    /// Remove the entry for `key`, returning its value, if any.
    pub fn remove(&mut self, key: &Key) -> (removed: Option<V>)
        requires
            old(self).wf(),
        ensures
            final(self).wf(),
            final(self).spec_map() == old(self).spec_map().remove(key@),
            removed is Some <==> old(self).spec_map().contains_key(key@),
            removed is Some ==> removed->0 == old(self).spec_map()[key@],
    {
        match self.position(key) {
            Some(i) => {
                proof {
                    lemma_assoc_value(self.entries(), i as int);
                    lemma_assoc_remove(self.entries(), i as int);
                }
                let ghost before = self.entries();
                let (_, value) = self.entries.remove(i);
                proof {
                    assert(self.entries() =~= before.remove(i as int));
                }
                Some(value)
            },
            None => {
                proof {
                    assert(old(self).spec_map().remove(key@) =~= old(self).spec_map());
                }
                None
            },
        }
    }

    /// Take every entry out, in order, leaving the map empty.
    pub fn drain_entries(&mut self) -> (all: Vec<(Key, V)>)
        requires
            old(self).wf(),
        ensures
            final(self).wf(),
            final(self).spec_map() == Map::<KeyView, V>::empty(),
            all@.map_values(|e: (Key, V)| (e.0@, e.1)) == old(self).entries(),
    {
        let mut all = Vec::new();
        std::mem::swap(&mut all, &mut self.entries);
        proof {
            assert(self.entries() =~= Seq::<(KeyView, V)>::empty());
        }
        all
    }
}

} // verus!
