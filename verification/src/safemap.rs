//! A keyed store with atomic per-key operations.
//!
//! Every shared table of the engine (completion cache, correlation records,
//! workspace folders, open documents) is an instance of this store.  Each
//! operation is a whole-value read or a whole-value replace, so a caller
//! never observes a partially applied write; the surrounding service
//! serializes only the critical section of one operation at a time.

use vstd::prelude::*;

verus! {

/// Keys of the store: executable equality and cloning that agree with the
/// mathematical view of the key.
pub trait StoreKey: View + Sized {
    fn key_eq(&self, other: &Self) -> (r: bool)
        ensures
            r == (self@ == other@),
    ;

    fn key_clone(&self) -> (r: Self)
        ensures
            r@ == self@,
    ;
}

/// Values of the store: cloning preserves the mathematical view, so a
/// lookup can hand out a copy rather than a live reference.
pub trait StoreValue: View + Sized {
    fn value_clone(&self) -> (r: Self)
        ensures
            r@ == self@,
    ;
}

/// An unbounded mapping from keys to values, modeled as a `Map` from key
/// views to value views.  Entries are owned exclusively by the store and
/// are read and written by value only.
pub struct SafeMap<K: View, V: View> {
    entries: Vec<(K, V)>,
}

spec fn entry_map<K: View, V: View>(s: Seq<(K, V)>) -> Map<<K as View>::V, <V as View>::V>
    decreases s.len(),
{
    if s.len() == 0 {
        Map::empty()
    } else {
        entry_map(s.drop_last()).insert(s.last().0@, s.last().1@)
    }
}

spec fn distinct_keys<K: View, V: View>(s: Seq<(K, V)>) -> bool {
    forall|i: int, j: int| 0 <= i < j < s.len() ==> s[i].0@ != s[j].0@
}

impl<K: View, V: View> View for SafeMap<K, V> {
    type V = Map<<K as View>::V, <V as View>::V>;

    closed spec fn view(&self) -> Map<<K as View>::V, <V as View>::V> {
        entry_map(self.entries@)
    }
}

proof fn lemma_entry_map_contains<K: View, V: View>(s: Seq<(K, V)>, k: <K as View>::V)
    ensures
        entry_map(s).contains_key(k) <==> exists|i: int| 0 <= i < s.len() && s[i].0@ == k,
    decreases s.len(),
{
    if s.len() > 0 {
        lemma_entry_map_contains(s.drop_last(), k);
        if entry_map(s).contains_key(k) {
            if s.last().0@ != k {
                let i = choose|i: int| 0 <= i < s.drop_last().len() && s.drop_last()[i].0@ == k;
                assert(s[i].0@ == k);
            } else {
                assert(s[s.len() - 1].0@ == k);
            }
        }
        if exists|i: int| 0 <= i < s.len() && s[i].0@ == k {
            let i = choose|i: int| 0 <= i < s.len() && s[i].0@ == k;
            if i < s.len() - 1 {
                assert(s.drop_last()[i].0@ == k);
            }
        }
    }
}

proof fn lemma_entry_map_value<K: View, V: View>(s: Seq<(K, V)>, i: int)
    requires
        distinct_keys(s),
        0 <= i < s.len(),
    ensures
        entry_map(s).contains_key(s[i].0@),
        entry_map(s)[s[i].0@] == s[i].1@,
    decreases s.len(),
{
    if i == s.len() - 1 {
    } else {
        assert(distinct_keys(s.drop_last()));
        assert(s.drop_last()[i] == s[i]);
        lemma_entry_map_value(s.drop_last(), i);
        assert(s[i].0@ != s.last().0@);
    }
}

proof fn lemma_entry_map_update<K: View, V: View>(s: Seq<(K, V)>, i: int, e: (K, V))
    requires
        distinct_keys(s),
        0 <= i < s.len(),
        s[i].0@ == e.0@,
    ensures
        entry_map(s.update(i, e)) == entry_map(s).insert(e.0@, e.1@),
    decreases s.len(),
{
    let t = s.update(i, e);
    if i == s.len() - 1 {
        assert(t.drop_last() =~= s.drop_last());
        assert(t.last() == e);
        assert(entry_map(t) == entry_map(s.drop_last()).insert(e.0@, e.1@));
        assert(entry_map(s.drop_last()).insert(s.last().0@, s.last().1@).insert(e.0@, e.1@)
            =~= entry_map(s.drop_last()).insert(e.0@, e.1@));
    } else {
        assert(distinct_keys(s.drop_last()));
        assert(s.drop_last()[i] == s[i]);
        lemma_entry_map_update(s.drop_last(), i, e);
        assert(t.drop_last() =~= s.drop_last().update(i, e));
        assert(t.last() == s.last());
        assert(s[i].0@ != s.last().0@);
        assert(entry_map(s.drop_last()).insert(e.0@, e.1@).insert(s.last().0@, s.last().1@)
            =~= entry_map(s.drop_last()).insert(s.last().0@, s.last().1@).insert(e.0@, e.1@));
    }
}

proof fn lemma_entry_map_push_absent<K: View, V: View>(s: Seq<(K, V)>, e: (K, V))
    ensures
        entry_map(s.push(e)) == entry_map(s).insert(e.0@, e.1@),
{
    assert(s.push(e).drop_last() =~= s);
    assert(s.push(e).last() == e);
}

proof fn lemma_entry_map_remove_absent<K: View, V: View>(s: Seq<(K, V)>, k: <K as View>::V)
    requires
        forall|i: int| 0 <= i < s.len() ==> s[i].0@ != k,
    ensures
        entry_map(s).remove(k) == entry_map(s),
{
    lemma_entry_map_contains(s, k);
    assert(entry_map(s).remove(k) =~= entry_map(s));
}

proof fn lemma_entry_map_remove<K: View, V: View>(s: Seq<(K, V)>, i: int)
    requires
        distinct_keys(s),
        0 <= i < s.len(),
    ensures
        entry_map(s.remove(i)) == entry_map(s).remove(s[i].0@),
    decreases s.len(),
{
    let k = s[i].0@;
    if i == s.len() - 1 {
        assert(s.remove(i) =~= s.drop_last());
        assert(forall|j: int| 0 <= j < s.drop_last().len() ==> s.drop_last()[j].0@ != k);
        lemma_entry_map_remove_absent(s.drop_last(), k);
        assert(entry_map(s.drop_last()).insert(k, s.last().1@).remove(k)
            =~= entry_map(s.drop_last()).remove(k));
    } else {
        assert(distinct_keys(s.drop_last()));
        assert(s.drop_last()[i] == s[i]);
        lemma_entry_map_remove(s.drop_last(), i);
        assert(s.remove(i).drop_last() =~= s.drop_last().remove(i));
        assert(s.remove(i).last() == s.last());
        assert(k != s.last().0@);
        assert(entry_map(s.drop_last()).remove(k).insert(s.last().0@, s.last().1@)
            =~= entry_map(s.drop_last()).insert(s.last().0@, s.last().1@).remove(k));
    }
}

impl<K: View, V: View> SafeMap<K, V> {
    #[verifier::type_invariant]
    spec fn wf(self) -> bool {
        distinct_keys(self.entries@)
    }

    pub fn new() -> (r: Self)
        ensures
            r@ == Map::<<K as View>::V, <V as View>::V>::empty(),
    {
        SafeMap { entries: Vec::new() }
    }

    /// Drop every entry of the store.
    pub fn clear(&mut self)
        ensures
            final(self)@ == Map::<<K as View>::V, <V as View>::V>::empty(),
    {
        self.entries = Vec::new();
    }
}

impl<K: StoreKey, V: View> SafeMap<K, V> {
    fn index_of(&self, key: &K) -> (r: Option<usize>)
        ensures
            match r {
                Some(i) => i < self.entries@.len() && self.entries@[i as int].0@ == key@,
                None => forall|i: int| 0 <= i < self.entries@.len() ==> self.entries@[i].0@ != key@,
            },
    {
        let n = self.entries.len();
        let mut i: usize = 0;
        while i < n
            invariant
                i <= n,
                n == self.entries@.len(),
                forall|j: int| 0 <= j < i ==> self.entries@[j].0@ != key@,
            decreases n - i,
        {
            if self.entries[i].0.key_eq(key) {
                return Some(i);
            }
            i += 1;
        }
        None
    }

    /// Map `key` to `value`, replacing any prior value for that key.
    pub fn insert(&mut self, key: K, value: V)
        ensures
            final(self)@ == old(self)@.insert(key@, value@),
    {
        proof {
            use_type_invariant(&*self);
        }
        let idx = self.index_of(&key);
        let ghost kv = key@;
        let ghost vv = value@;
        let mut entries: Vec<(K, V)> = Vec::new();
        core::mem::swap(&mut entries, &mut self.entries);
        let ghost s = entries@;
        match idx {
            Some(i) => {
                entries.set(i, (key, value));
                proof {
                    lemma_entry_map_update(s, i as int, (entries@[i as int].0, entries@[i as int].1));
                    assert(entries@ =~= s.update(i as int, entries@[i as int]));
                    assert(distinct_keys(entries@));
                }
            }
            None => {
                entries.push((key, value));
                proof {
                    lemma_entry_map_push_absent(s, entries@.last());
                    assert(entries@ =~= s.push(entries@.last()));
                    assert(distinct_keys(entries@));
                }
            }
        }
        self.entries = entries;
    }

    /// Atomically remove and return the value stored for `key`; absence is
    /// reported, never an error.
    pub fn remove(&mut self, key: &K) -> (r: Option<V>)
        ensures
            final(self)@ == old(self)@.remove(key@),
            match r {
                Some(v) => old(self)@.contains_key(key@) && v@ == old(self)@[key@],
                None => !old(self)@.contains_key(key@),
            },
    {
        proof {
            use_type_invariant(&*self);
        }
        let idx = self.index_of(key);
        match idx {
            Some(i) => {
                let mut entries: Vec<(K, V)> = Vec::new();
                core::mem::swap(&mut entries, &mut self.entries);
                let ghost s = entries@;
                proof {
                    lemma_entry_map_value(s, i as int);
                    lemma_entry_map_remove(s, i as int);
                }
                let pair = entries.remove(i);
                proof {
                    assert(distinct_keys(entries@)) by {
                        assert forall|a: int, b: int|
                            0 <= a < b < entries@.len() implies entries@[a].0@ != entries@[b].0@ by {
                            let a0 = if a < i as int { a } else { a + 1 };
                            let b0 = if b < i as int { b } else { b + 1 };
                            assert(entries@[a] == s[a0]);
                            assert(entries@[b] == s[b0]);
                        }
                    }
                }
                self.entries = entries;
                Some(pair.1)
            }
            None => {
                proof {
                    lemma_entry_map_contains(self.entries@, key@);
                    lemma_entry_map_remove_absent(self.entries@, key@);
                }
                None
            }
        }
    }
}

impl<K: StoreKey, V: StoreValue> SafeMap<K, V> {
    /// Return a copy of the value stored for `key`, if any.
    pub fn get(&self, key: &K) -> (r: Option<V>)
        ensures
            match r {
                Some(v) => self@.contains_key(key@) && v@ == self@[key@],
                None => !self@.contains_key(key@),
            },
    {
        proof {
            use_type_invariant(&*self);
        }
        match self.index_of(key) {
            Some(i) => {
                proof {
                    lemma_entry_map_value(self.entries@, i as int);
                }
                Some(self.entries[i].1.value_clone())
            }
            None => {
                proof {
                    lemma_entry_map_contains(self.entries@, key@);
                }
                None
            }
        }
    }

    /// An ordered sequence of copies of all entries: every pair of the
    /// snapshot is in the store, no key repeats, and every key of the store
    /// appears.
    pub fn snapshot(&self) -> (r: Vec<(K, V)>)
        ensures
            forall|i: int| #![trigger r@[i]]
                0 <= i < r@.len() ==> self@.contains_key(r@[i].0@) && r@[i].1@
                    == self@[r@[i].0@],
            forall|i: int, j: int| #![trigger r@[i], r@[j]]
                0 <= i < j < r@.len() ==> r@[i].0@ != r@[j].0@,
            forall|k: <K as View>::V| self@.contains_key(k) ==> exists|i: int|
                0 <= i < r@.len() && #[trigger] r@[i].0@ == k,
    {
        proof {
            use_type_invariant(&*self);
        }
        let n = self.entries.len();
        let mut r: Vec<(K, V)> = Vec::new();
        let mut i: usize = 0;
        while i < n
            invariant
                i <= n,
                n == self.entries@.len(),
                r@.len() == i,
                distinct_keys(self.entries@),
                self@ == entry_map(self.entries@),
                forall|j: int| 0 <= j < i ==> #[trigger] r@[j].0@ == self.entries@[j].0@
                    && r@[j].1@ == self.entries@[j].1@,
            decreases n - i,
        {
            let e = &self.entries[i];
            let pair = (e.0.key_clone(), e.1.value_clone());
            proof {
                assert(pair.0@ == self.entries@[i as int].0@);
                assert(pair.1@ == self.entries@[i as int].1@);
            }
            r.push(pair);
            i += 1;
        }
        proof {
            assert forall|j: int| #![trigger r@[j]]
                0 <= j < r@.len() implies self@.contains_key(r@[j].0@) && r@[j].1@
                    == self@[r@[j].0@] by {
                lemma_entry_map_value(self.entries@, j);
            }
            assert forall|k: <K as View>::V| self@.contains_key(k) implies exists|i2: int|
                0 <= i2 < r@.len() && #[trigger] r@[i2].0@ == k by {
                lemma_entry_map_contains(self.entries@, k);
                let i2 = choose|i2: int| 0 <= i2 < self.entries@.len() && self.entries@[i2].0@ == k;
                assert(r@[i2].0@ == k);
            }
        }
        r
    }
}

impl StoreKey for String {
    fn key_eq(&self, other: &Self) -> (r: bool)
        ensures
            r == (self@ == other@),
    {
        *self == *other
    }

    fn key_clone(&self) -> (r: Self)
        ensures
            r@ == self@,
    {
        self.clone()
    }
}

impl StoreKey for u128 {
    fn key_eq(&self, other: &Self) -> (r: bool)
        ensures
            r == (self@ == other@),
    {
        *self == *other
    }

    fn key_clone(&self) -> (r: Self)
        ensures
            r@ == self@,
    {
        *self
    }
}

impl StoreValue for String {
    fn value_clone(&self) -> (r: Self)
        ensures
            r@ == self@,
    {
        self.clone()
    }
}

impl StoreValue for Vec<u8> {
    fn value_clone(&self) -> (r: Self)
        ensures
            r@ == self@,
    {
        let mut r: Vec<u8> = Vec::new();
        let n = self.len();
        let mut i: usize = 0;
        while i < n
            invariant
                i <= n,
                n == self@.len(),
                r@ =~= self@.take(i as int),
            decreases n - i,
        {
            r.push(self[i]);
            i += 1;
        }
        proof {
            assert(r@ =~= self@);
        }
        r
    }
}

} // verus!
