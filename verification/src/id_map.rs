//! A small finite map keyed by text identifiers.
//!
//! The map is kept as a list of entries in which no key occurs twice. Its
//! view is the mathematical map from a key's characters to the stored value.

use vstd::prelude::*;

verus! {

/// Whether some entry of `s` is filed under `key`.
pub open spec fn has_key<T>(s: Seq<(String, T)>, key: Seq<char>) -> bool {
    exists|i: int| 0 <= i < s.len() && (#[trigger] s[i]).0@ == key
}

/// The position of the entry filed under `key`, where there is one.
pub open spec fn key_index<T>(s: Seq<(String, T)>, key: Seq<char>) -> int {
    choose|i: int| 0 <= i < s.len() && (#[trigger] s[i]).0@ == key
}

/// No key is used by two entries.
pub open spec fn distinct_keys<T>(s: Seq<(String, T)>) -> bool {
    forall|i: int, j: int|
        0 <= i < j < s.len() ==> (#[trigger] s[i]).0@ != (#[trigger] s[j]).0@
}

/// The map that a list of entries stands for.
pub open spec fn as_map<T>(s: Seq<(String, T)>) -> Map<Seq<char>, T> {
    Map::new(|k: Seq<char>| has_key(s, k), |k: Seq<char>| s[key_index(s, k)].1)
}

/// The keys of a list of entries, in the order of the entries.
pub open spec fn keys_of<T>(s: Seq<(String, T)>) -> Seq<Seq<char>> {
    Seq::new(s.len(), |i: int| s[i].0@)
}

/// Each entry of a list without repeated keys is what the map holds under its key.
pub proof fn lemma_entry<T>(s: Seq<(String, T)>, i: int)
    requires
        distinct_keys(s),
        0 <= i < s.len(),
    ensures
        as_map(s).dom().contains(s[i].0@),
        as_map(s)[s[i].0@] == s[i].1,
        key_index(s, s[i].0@) == i,
{
    assert(has_key(s, s[i].0@));
}

/// Appending an entry under a fresh key inserts it into the map.
pub proof fn lemma_push<T>(s: Seq<(String, T)>, e: (String, T))
    requires
        distinct_keys(s),
        !has_key(s, e.0@),
    ensures
        distinct_keys(s.push(e)),
        as_map(s.push(e)) =~= as_map(s).insert(e.0@, e.1),
{
    let t = s.push(e);
    assert forall|i: int, j: int| 0 <= i < j < t.len() implies (#[trigger] t[i]).0@ != (
    #[trigger] t[j]).0@ by {
        if j == s.len() {
            assert(s[i].0@ != e.0@);
        }
    }
    assert forall|k: Seq<char>| #[trigger] as_map(t).dom().contains(k) <==> as_map(s).insert(
        e.0@,
        e.1,
    ).dom().contains(k) by {
        if has_key(s, k) {
            assert(t[key_index(s, k)].0@ == k);
        }
        if k == e.0@ {
            assert(t[s.len() as int].0@ == k);
        }
    }
    assert forall|k: Seq<char>| as_map(t).dom().contains(k) implies #[trigger] as_map(t)[k]
        == as_map(s).insert(e.0@, e.1)[k] by {
        let i = key_index(t, k);
        lemma_entry(t, i);
        if i < s.len() {
            lemma_entry(s, i);
        }
    }
}

/// Replacing the entry under a key updates the map at that key.
pub proof fn lemma_replace<T>(s: Seq<(String, T)>, i: int, e: (String, T))
    requires
        distinct_keys(s),
        0 <= i < s.len(),
        s[i].0@ == e.0@,
    ensures
        distinct_keys(s.update(i, e)),
        as_map(s.update(i, e)) =~= as_map(s).insert(e.0@, e.1),
{
    let t = s.update(i, e);
    assert forall|a: int, b: int| 0 <= a < b < t.len() implies (#[trigger] t[a]).0@ != (
    #[trigger] t[b]).0@ by {
        assert(s[a].0@ != s[b].0@);
    }
    assert forall|k: Seq<char>| #[trigger] as_map(t).dom().contains(k) <==> as_map(s).insert(
        e.0@,
        e.1,
    ).dom().contains(k) by {
        if has_key(t, k) {
            assert(s[key_index(t, k)].0@ == k);
        }
        if has_key(s, k) {
            assert(t[key_index(s, k)].0@ == k);
        }
        if k == e.0@ {
            assert(t[i].0@ == k);
        }
    }
    assert forall|k: Seq<char>| as_map(t).dom().contains(k) implies #[trigger] as_map(t)[k]
        == as_map(s).insert(e.0@, e.1)[k] by {
        let j = key_index(t, k);
        lemma_entry(t, j);
        lemma_entry(s, j);
    }
}

/// A list without repeated keys has as many entries as its map has keys.
pub proof fn lemma_len<T>(s: Seq<(String, T)>)
    requires
        distinct_keys(s),
    ensures
        as_map(s).dom().finite(),
        as_map(s).dom().len() == s.len(),
    decreases s.len(),
{
    if s.len() == 0 {
        assert(as_map(s).dom() =~= Set::empty());
    } else {
        let t = s.drop_last();
        let e = s.last();
        assert forall|i: int, j: int| 0 <= i < j < t.len() implies (#[trigger] t[i]).0@ != (
        #[trigger] t[j]).0@ by {
            assert(s[i].0@ != s[j].0@);
        }
        if has_key(t, e.0@) {
            assert(s[key_index(t, e.0@)].0@ != s[s.len() - 1].0@);
        }
        lemma_len(t);
        lemma_push(t, e);
        assert(t.push(e) =~= s);
    }
}

/// A map from text identifiers to values of `T`.
#[derive(Debug)]
pub struct IdMap<T> {
    entries: Vec<(String, T)>,
}

impl<T> View for IdMap<T> {
    type V = Map<Seq<char>, T>;

    closed spec fn view(&self) -> Map<Seq<char>, T> {
        as_map(self.entries@)
    }
}

impl<T> IdMap<T> {
    /// The invariant of the representation: no key is stored twice.
    pub closed spec fn wf(&self) -> bool {
        distinct_keys(self.entries@)
    }

    /// The keys in the order in which `values` lists what is stored under them.
    pub closed spec fn key_order(&self) -> Seq<Seq<char>> {
        keys_of(self.entries@)
    }

    /// `key_order` names every key of the map exactly once.
    pub proof fn lemma_key_order(&self)
        requires
            self.wf(),
        ensures
            self.key_order().no_duplicates(),
            self.key_order().len() == self@.dom().len(),
            self@.dom().finite(),
            forall|k: Seq<char>| self@.dom().contains(k) <==> self.key_order().contains(k),
    {
        let s = self.entries@;
        let ks = self.key_order();
        lemma_len(s);
        assert forall|i: int, j: int| 0 <= i < ks.len() && 0 <= j < ks.len() && i != j implies ks[i]
            != ks[j] by {
            if i < j {
                assert(s[i].0@ != s[j].0@);
            } else {
                assert(s[j].0@ != s[i].0@);
            }
        }
        assert forall|k: Seq<char>| self@.dom().contains(k) <==> ks.contains(k) by {
            if has_key(s, k) {
                assert(ks[key_index(s, k)] == k);
            }
            if ks.contains(k) {
                let i = choose|i: int| 0 <= i < ks.len() && ks[i] == k;
                assert(s[i].0@ == k);
            }
        }
    }

    pub fn new() -> (m: Self)
        ensures
            m.wf(),
            m@ == Map::<Seq<char>, T>::empty(),
    {
        IdMap { entries: Vec::new() }
    }

    pub fn len(&self) -> (n: usize)
        requires
            self.wf(),
        ensures
            self@.dom().finite(),
            n == self@.dom().len(),
    {
        proof {
            lemma_len(self.entries@);
        }
        self.entries.len()
    }

    /// The position of the entry under `key`, if there is one.
    fn position(&self, key: &String) -> (r: Option<usize>)
        requires
            self.wf(),
        ensures
            match r {
                Some(i) => i < self.entries@.len() && self.entries@[i as int].0@ == key@,
                None => !has_key(self.entries@, key@),
            },
    {
        let mut i: usize = 0;
        while i < self.entries.len()
            invariant
                i <= self.entries@.len(),
                forall|j: int| 0 <= j < i ==> (#[trigger] self.entries@[j]).0@ != key@,
            decreases self.entries@.len() - i,
        {
            if self.entries[i].0 == *key {
                return Some(i);
            }
            i += 1;
        }
        None
    }

    pub fn contains_key(&self, key: &String) -> (b: bool)
        requires
            self.wf(),
        ensures
            b == self@.dom().contains(key@),
    {
        match self.position(key) {
            Some(i) => {
                proof {
                    lemma_entry(self.entries@, i as int);
                }
                true
            },
            None => false,
        }
    }

    pub fn get(&self, key: &String) -> (r: Option<&T>)
        requires
            self.wf(),
        ensures
            match r {
                Some(v) => self@.dom().contains(key@) && *v == self@[key@],
                None => !self@.dom().contains(key@),
            },
    {
        match self.position(key) {
            Some(i) => {
                proof {
                    lemma_entry(self.entries@, i as int);
                }
                Some(&self.entries[i].1)
            },
            None => None,
        }
    }

    /// Files `value` under `key` and hands back what was filed there before.
    pub fn insert(&mut self, key: String, value: T) -> (prior: Option<T>)
        requires
            old(self).wf(),
        ensures
            final(self).wf(),
            final(self)@ == old(self)@.insert(key@, value),
            prior == if old(self)@.dom().contains(key@) {
                Some(old(self)@[key@])
            } else {
                None
            },
    {
        let ghost s = self.entries@;
        match self.position(&key) {
            Some(i) => {
                let e = self.entries.remove(i);
                self.entries.insert(i, (key, value));
                proof {
                    lemma_entry(s, i as int);
                    lemma_replace(s, i as int, (key, value));
                    assert(self.entries@ =~= s.update(i as int, (key, value)));
                }
                Some(e.1)
            },
            None => {
                self.entries.push((key, value));
                proof {
                    lemma_push(s, (key, value));
                }
                None
            },
        }
    }

    /// Every stored value, once each, in the order of `key_order`.
    pub fn values(&self) -> (r: Vec<&T>)
        requires
            self.wf(),
        ensures
            r@.len() == self.key_order().len(),
            forall|i: int|
                0 <= i < r@.len() ==> self@.dom().contains(#[trigger] self.key_order()[i])
                    && *r@[i] == self@[self.key_order()[i]],
    {
        let mut r: Vec<&T> = Vec::new();
        let mut i: usize = 0;
        while i < self.entries.len()
            invariant
                self.wf(),
                i <= self.entries@.len(),
                r@.len() == i,
                forall|j: int|
                    0 <= j < i ==> self@.dom().contains(#[trigger] self.key_order()[j]) && *r@[j]
                        == self@[self.key_order()[j]],
            decreases self.entries@.len() - i,
        {
            proof {
                lemma_entry(self.entries@, i as int);
            }
            r.push(&self.entries[i].1);
            i += 1;
        }
        r
    }
}

} // verus!
