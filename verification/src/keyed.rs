//! A small map from names to values, kept as a list of pairs with each name
//! at most once.
use vstd::prelude::*;
use crate::text::{owned, str_is};

verus! {

/// The names of `s` are pairwise distinct.
pub open spec fn distinct_keys<V>(s: Seq<(String, V)>) -> bool {
    forall|i: int, j: int| 0 <= i < j < s.len() ==> #[trigger] s[i].0@ != #[trigger] s[j].0@
}

/// The map from names to values that the list of pairs `s` holds.
pub open spec fn pairs_map<V>(s: Seq<(String, V)>) -> Map<Seq<char>, V> {
    Map::new(
        |k: Seq<char>| exists|i: int| 0 <= i < s.len() && s[i].0@ == k,
        |k: Seq<char>| s[choose|i: int| 0 <= i < s.len() && s[i].0@ == k].1,
    )
}

/// In a list with distinct names, the map holds each pair's value under its name.
pub proof fn lemma_pairs_lookup<V>(s: Seq<(String, V)>, i: int)
    requires
        0 <= i < s.len(),
        distinct_keys(s),
    ensures
        pairs_map(s).dom().contains(s[i].0@),
        pairs_map(s)[s[i].0@] == s[i].1,
{
    let k = s[i].0@;
    assert(pairs_map(s).dom().contains(k));
    let j = choose|j: int| 0 <= j < s.len() && s[j].0@ == k;
    assert(j == i) by {
        if j < i {
            assert(s[j].0@ != s[i].0@);
        } else if j > i {
            assert(s[i].0@ != s[j].0@);
        }
    }
}

/// Values under names, each name at most once.
pub struct KeyedList<V> {
    entries: Vec<(String, V)>,
}

impl<V> KeyedList<V> {
    #[verifier::type_invariant]
    spec fn keys_distinct(&self) -> bool {
        distinct_keys(self.entries@)
    }

    /// The pairs, in the order they were first added.
    pub closed spec fn pairs(&self) -> Seq<(String, V)> {
        self.entries@
    }

    /// The values by name.
    pub closed spec fn map(&self) -> Map<Seq<char>, V> {
        pairs_map(self.entries@)
    }

    /// An empty list.
    pub fn new() -> (r: KeyedList<V>)
        ensures
            r.pairs().len() == 0,
            r.map() == Map::<Seq<char>, V>::empty(),
    {
        let r = KeyedList { entries: Vec::new() };
        assert(r.map() =~= Map::<Seq<char>, V>::empty());
        r
    }

    /// How many names the list holds; its names are distinct, and its map is
    /// the map of its pairs.
    pub fn len(&self) -> (r: usize)
        ensures
            r == self.pairs().len(),
            distinct_keys(self.pairs()),
            self.map() == pairs_map(self.pairs()),
    {
        proof {
            use_type_invariant(self);
        }
        self.entries.len()
    }

    /// The `i`-th pair.
    pub fn at(&self, i: usize) -> (r: (&String, &V))
        requires
            i < self.pairs().len(),
        ensures
            *r.0 == self.pairs()[i as int].0,
            *r.1 == self.pairs()[i as int].1,
    {
        let e = &self.entries[i];
        (&e.0, &e.1)
    }

    fn position(&self, key: &str) -> (r: Option<usize>)
        ensures
            match r {
                Some(i) => i < self.entries@.len() && self.entries@[i as int].0@ == key@,
                None => forall|i: int| 0 <= i < self.entries@.len() ==> self.entries@[i].0@ != key@,
            },
    {
        let mut i: usize = 0;
        while i < self.entries.len()
            invariant
                i <= self.entries@.len(),
                forall|k: int| 0 <= k < i ==> self.entries@[k].0@ != key@,
            decreases self.entries@.len() - i,
        {
            if str_is(self.entries[i].0.as_str(), key) {
                return Some(i);
            }
            i = i + 1;
        }
        None
    }

    /// The value under `key`, if any.
    pub fn get(&self, key: &str) -> (r: Option<&V>)
        ensures
            match r {
                Some(v) => self.map().dom().contains(key@) && *v == self.map()[key@],
                None => !self.map().dom().contains(key@),
            },
    {
        proof {
            use_type_invariant(self);
        }
        match self.position(key) {
            Some(i) => {
                proof {
                    lemma_pairs_lookup(self.entries@, i as int);
                }
                Some(&self.entries[i].1)
            },
            None => None,
        }
    }

    /// Puts `value` under `key`, replacing what was there.
    pub fn insert(&mut self, key: &str, value: V)
        ensures
            final(self).map() == old(self).map().insert(key@, value),
    {
        proof {
            use_type_invariant(&*self);
        }
        let ghost before = self.entries@;
        let pos = self.position(key);
        let mut entries: Vec<(String, V)> = Vec::new();
        std::mem::swap(&mut entries, &mut self.entries);
        let ghost at: int = match pos {
            Some(i) => i as int,
            None => before.len() as int,
        };
        match pos {
            Some(i) => {
                entries.set(i, (owned(key), value));
            },
            None => {
                entries.push((owned(key), value));
            },
        }
        let ghost after = entries@;
        assert(distinct_keys(after)) by {
            assert forall|a: int, b: int| 0 <= a < b < after.len() implies #[trigger] after[a].0@
                != #[trigger] after[b].0@ by {
                if b < before.len() {
                    assert(before[a].0@ != before[b].0@);
                }
            }
        }
        self.entries = entries;
        proof {
            let m0 = pairs_map(before);
            let m1 = pairs_map(after);
            assert forall|k: Seq<char>| m1.dom().contains(k) == m0.insert(key@, value).dom().contains(
                k,
            ) by {
                if m0.dom().contains(k) {
                    let j = choose|j: int| 0 <= j < before.len() && before[j].0@ == k;
                    assert(after[j].0@ == k);
                }
                if m1.dom().contains(k) {
                    let j = choose|j: int| 0 <= j < after.len() && after[j].0@ == k;
                    if j < before.len() && j != at {
                        assert(before[j].0@ == k);
                    }
                }
                if k == key@ {
                    assert(after[at].0@ == key@);
                }
            }
            assert(m1.dom() =~= m0.insert(key@, value).dom());
            assert forall|k: Seq<char>| #[trigger] m1.dom().contains(k) implies m1[k] == m0.insert(
                key@,
                value,
            )[k] by {
                let j = choose|j: int| 0 <= j < after.len() && after[j].0@ == k;
                lemma_pairs_lookup(after, j);
                if k != key@ {
                    assert(j != at);
                    assert(after[j] == before[j]);
                    lemma_pairs_lookup(before, j);
                } else {
                    lemma_pairs_lookup(after, at);
                }
            }
            assert(m1 =~= m0.insert(key@, value));
        }
    }

    /// Removes the pair at position `i` and hands out its value.
    pub fn remove_at(&mut self, i: usize) -> (r: V)
        requires
            i < old(self).pairs().len(),
        ensures
            r == old(self).pairs()[i as int].1,
            final(self).pairs() == old(self).pairs().remove(i as int),
            final(self).map() == old(self).map().remove(old(self).pairs()[i as int].0@),
    {
        proof {
            use_type_invariant(&*self);
        }
        let ghost before = self.entries@;
        let ghost key = before[i as int].0@;
        let mut entries: Vec<(String, V)> = Vec::new();
        std::mem::swap(&mut entries, &mut self.entries);
        let (_, removed) = entries.remove(i);
        let ghost after = entries@;
        assert(distinct_keys(after)) by {
            assert forall|a: int, b: int| 0 <= a < b < after.len() implies #[trigger] after[a].0@
                != #[trigger] after[b].0@ by {
                let oa = if a < i { a } else { a + 1 };
                let ob = if b < i { b } else { b + 1 };
                assert(before[oa].0@ != before[ob].0@);
            }
        }
        self.entries = entries;
        proof {
            let m0 = pairs_map(before);
            let m1 = pairs_map(after);
            assert forall|k: Seq<char>| m1.dom().contains(k) == m0.remove(key).dom().contains(k) by {
                if m1.dom().contains(k) {
                    let j = choose|j: int| 0 <= j < after.len() && after[j].0@ == k;
                    let oj = if j < i { j } else { j + 1 };
                    assert(before[oj].0@ == k);
                    if oj < i {
                        assert(before[oj].0@ != before[i as int].0@);
                    } else {
                        assert(before[i as int].0@ != before[oj].0@);
                    }
                }
                if m0.dom().contains(k) && k != key {
                    let j = choose|j: int| 0 <= j < before.len() && before[j].0@ == k;
                    assert(j != i);
                    if j < i {
                        assert(after[j].0@ == k);
                    } else {
                        assert(after[j - 1].0@ == k);
                    }
                }
            }
            assert(m1.dom() =~= m0.remove(key).dom());
            assert forall|k: Seq<char>| #[trigger] m1.dom().contains(k) implies m1[k] == m0.remove(
                key,
            )[k] by {
                let j = choose|j: int| 0 <= j < after.len() && after[j].0@ == k;
                lemma_pairs_lookup(after, j);
                let oj = if j < i { j } else { j + 1 };
                assert(after[j] == before[oj]);
                lemma_pairs_lookup(before, oj);
            }
            assert(m1 =~= m0.remove(key));
        }
        removed
    }

    /// Removes what is kept under `key` and hands it out; `None` where
    /// nothing is.
    pub fn take(&mut self, key: &str) -> (r: Option<V>)
        ensures
            match r {
                Some(v) => old(self).map().dom().contains(key@) && v == old(self).map()[key@],
                None => !old(self).map().dom().contains(key@),
            },
            final(self).map() == old(self).map().remove(key@),
    {
        proof {
            use_type_invariant(&*self);
        }
        match self.position(key) {
            Some(i) => {
                proof {
                    lemma_pairs_lookup(self.entries@, i as int);
                }
                Some(self.remove_at(i))
            },
            None => {
                proof {
                    let m = pairs_map(self.entries@);
                    assert(!m.dom().contains(key@));
                    assert(m =~= m.remove(key@));
                }
                None
            },
        }
    }

    /// Removes what is kept under `key`, if anything.
    pub fn remove(&mut self, key: &str)
        ensures
            final(self).map() == old(self).map().remove(key@),
    {
        match self.position(key) {
            Some(i) => {
                let _ = self.remove_at(i);
            },
            None => {
                proof {
                    use_type_invariant(&*self);
                    let m = pairs_map(self.entries@);
                    assert(!m.dom().contains(key@));
                    assert(m =~= m.remove(key@));
                }
            },
        }
    }
}

} // verus!
