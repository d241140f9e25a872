//! A small map from path strings to values, kept as a vector of entries
//! whose keys never repeat. The explorer uses it for the path to document id
//! table and for the set of paths whose indexing is under way.
use vstd::prelude::*;
use crate::text::str_eq;

verus! {

/// Entries `(key, value)` with pairwise distinct keys.
pub struct KeyedList<V> {
    entries: Vec<(String, V)>,
}

/// No two entries share a key.
pub open spec fn keys_distinct<V>(e: Seq<(String, V)>) -> bool {
    forall|i: int, j: int| 0 <= i < e.len() && 0 <= j < e.len() && i != j ==> e[i].0@ != e[j].0@
}

/// Some entry has key `k`.
pub open spec fn has_key<V>(e: Seq<(String, V)>, k: Seq<char>) -> bool {
    exists|i: int| 0 <= i < e.len() && e[i].0@ == k
}

/// The map that a sequence of entries with distinct keys stands for.
pub open spec fn entries_map<V>(e: Seq<(String, V)>) -> Map<Seq<char>, V> {
    Map::new(
        |k: Seq<char>| has_key(e, k),
        |k: Seq<char>| e[choose|i: int| 0 <= i < e.len() && e[i].0@ == k].1,
    )
}

proof fn lemma_map_at<V>(e: Seq<(String, V)>, i: int)
    requires
        keys_distinct(e),
        0 <= i < e.len(),
    ensures
        entries_map(e).contains_key(e[i].0@),
        entries_map(e)[e[i].0@] == e[i].1,
{
    let k = e[i].0@;
    assert(has_key(e, k));
    let j = choose|j: int| 0 <= j < e.len() && e[j].0@ == k;
    assert(j == i);
}

proof fn lemma_map_push<V>(e: Seq<(String, V)>, key: String, v: V)
    requires
        keys_distinct(e),
        !has_key(e, key@),
    ensures
        keys_distinct(e.push((key, v))),
        entries_map(e.push((key, v))) =~= entries_map(e).insert(key@, v),
{
    let f = e.push((key, v));
    assert forall|i: int, j: int|
        0 <= i < f.len() && 0 <= j < f.len() && i != j implies f[i].0@ != f[j].0@ by {
        if i < e.len() && j < e.len() {
            assert(f[i] == e[i] && f[j] == e[j]);
        } else if i < e.len() {
            assert(f[i] == e[i]);
        } else {
            assert(f[j] == e[j]);
        }
    }
    assert forall|k: Seq<char>| #[trigger]
        entries_map(f).contains_key(k) == entries_map(e).insert(key@, v).contains_key(k) by {
        if has_key(e, k) {
            let i = choose|i: int| 0 <= i < e.len() && e[i].0@ == k;
            assert(f[i] == e[i]);
        }
        if has_key(f, k) && k != key@ {
            let i = choose|i: int| 0 <= i < f.len() && f[i].0@ == k;
            assert(i < e.len());
            assert(e[i] == f[i]);
        }
        if k == key@ {
            assert(f[e.len() as int].0@ == k);
        }
    }
    assert forall|k: Seq<char>| entries_map(f).contains_key(k) implies #[trigger] entries_map(f)[k]
        == entries_map(e).insert(key@, v)[k] by {
        let i = choose|i: int| 0 <= i < f.len() && f[i].0@ == k;
        lemma_map_at(f, i);
        if i < e.len() {
            assert(f[i] == e[i]);
            lemma_map_at(e, i);
        }
    }
}

proof fn lemma_map_update<V>(e: Seq<(String, V)>, i: int, v: V)
    requires
        keys_distinct(e),
        0 <= i < e.len(),
    ensures
        keys_distinct(e.update(i, (e[i].0, v))),
        entries_map(e.update(i, (e[i].0, v))) =~= entries_map(e).insert(e[i].0@, v),
{
    let f = e.update(i, (e[i].0, v));
    assert forall|a: int, b: int|
        0 <= a < f.len() && 0 <= b < f.len() && a != b implies f[a].0@ != f[b].0@ by {
        assert(f[a].0 == e[a].0 && f[b].0 == e[b].0);
    }
    assert forall|k: Seq<char>| #[trigger]
        entries_map(f).contains_key(k) == entries_map(e).insert(e[i].0@, v).contains_key(k) by {
        if has_key(e, k) {
            let j = choose|j: int| 0 <= j < e.len() && e[j].0@ == k;
            assert(f[j].0 == e[j].0);
        }
        if has_key(f, k) {
            let j = choose|j: int| 0 <= j < f.len() && f[j].0@ == k;
            assert(f[j].0 == e[j].0);
        }
    }
    assert forall|k: Seq<char>| entries_map(f).contains_key(k) implies #[trigger] entries_map(f)[k]
        == entries_map(e).insert(e[i].0@, v)[k] by {
        let j = choose|j: int| 0 <= j < f.len() && f[j].0@ == k;
        lemma_map_at(f, j);
        if j != i {
            assert(f[j] == e[j]);
            lemma_map_at(e, j);
        }
    }
}

proof fn lemma_map_remove<V>(e: Seq<(String, V)>, i: int)
    requires
        keys_distinct(e),
        0 <= i < e.len(),
    ensures
        keys_distinct(e.remove(i)),
        entries_map(e.remove(i)) =~= entries_map(e).remove(e[i].0@),
{
    let f = e.remove(i);
    assert forall|a: int, b: int|
        0 <= a < f.len() && 0 <= b < f.len() && a != b implies f[a].0@ != f[b].0@ by {
        let a2 = if a < i { a } else { a + 1 };
        let b2 = if b < i { b } else { b + 1 };
        assert(f[a] == e[a2] && f[b] == e[b2]);
    }
    assert forall|k: Seq<char>| #[trigger]
        entries_map(f).contains_key(k) == entries_map(e).remove(e[i].0@).contains_key(k) by {
        if has_key(e, k) && k != e[i].0@ {
            let j = choose|j: int| 0 <= j < e.len() && e[j].0@ == k;
            assert(j != i);
            let j2 = if j < i { j } else { j - 1 };
            assert(f[j2] == e[j]);
        }
        if has_key(f, k) {
            let j = choose|j: int| 0 <= j < f.len() && f[j].0@ == k;
            let j2 = if j < i { j } else { j + 1 };
            assert(f[j] == e[j2]);
            assert(j2 != i);
        }
    }
    assert forall|k: Seq<char>| entries_map(f).contains_key(k) implies #[trigger] entries_map(f)[k]
        == entries_map(e).remove(e[i].0@)[k] by {
        let j = choose|j: int| 0 <= j < f.len() && f[j].0@ == k;
        lemma_map_at(f, j);
        let j2 = if j < i { j } else { j + 1 };
        assert(f[j] == e[j2]);
        lemma_map_at(e, j2);
    }
}

impl<V> KeyedList<V> {
    #[verifier::type_invariant]
    spec fn inv(self) -> bool {
        keys_distinct(self.entries@)
    }

    /// The map that the list stands for.
    pub closed spec fn view(&self) -> Map<Seq<char>, V> {
        entries_map(self.entries@)
    }

    pub fn new() -> (r: Self)
        ensures
            r.view() == Map::<Seq<char>, V>::empty(),
    {
        let r = KeyedList { entries: Vec::new() };
        assert(r.view() =~= Map::<Seq<char>, V>::empty());
        r
    }

    fn index_of(&self, k: &str) -> (r: Option<usize>)
        ensures
            match r {
                Some(i) => i < self.entries.len() && self.entries@[i as int].0@ == k@,
                None => !has_key(self.entries@, k@),
            },
    {
        let mut i: usize = 0;
        while i < self.entries.len()
            invariant
                i <= self.entries.len(),
                forall|j: int| 0 <= j < i ==> self.entries@[j].0@ != k@,
            decreases self.entries.len() - i,
        {
            if str_eq(self.entries[i].0.as_str(), k) {
                return Some(i);
            }
            i = i + 1;
        }
        None
    }

    /// The value stored under `k`, if any.
    pub fn get(&self, k: &str) -> (r: Option<&V>)
        ensures
            match r {
                Some(v) => self.view().contains_key(k@) && self.view()[k@] == *v,
                None => !self.view().contains_key(k@),
            },
    {
        proof {
            use_type_invariant(self);
        }
        match self.index_of(k) {
            Some(i) => {
                proof {
                    lemma_map_at(self.entries@, i as int);
                }
                Some(&self.entries[i].1)
            },
            None => None,
        }
    }

    /// Stores `v` under `k`, replacing what was there.
    pub fn insert(&mut self, k: String, v: V)
        ensures
            final(self).view() == old(self).view().insert(k@, v),
    {
        proof {
            use_type_invariant(&*self);
        }
        match self.index_of(k.as_str()) {
            Some(i) => {
                proof {
                    lemma_map_update(self.entries@, i as int, v);
                }
                let mut entries: Vec<(String, V)> = Vec::new();
                std::mem::swap(&mut entries, &mut self.entries);
                let key = entries[i].0.clone();
                entries.set(i, (key, v));
                self.entries = entries;
            },
            None => {
                proof {
                    lemma_map_push(self.entries@, k, v);
                }
                let mut entries: Vec<(String, V)> = Vec::new();
                std::mem::swap(&mut entries, &mut self.entries);
                entries.push((k, v));
                self.entries = entries;
            },
        }
    }

    /// Removes the entry for `k` and hands back its value.
    pub fn remove(&mut self, k: &str) -> (r: Option<V>)
        ensures
            final(self).view() == old(self).view().remove(k@),
            match r {
                Some(v) => old(self).view().contains_key(k@) && old(self).view()[k@] == v,
                None => !old(self).view().contains_key(k@),
            },
    {
        proof {
            use_type_invariant(&*self);
        }
        match self.index_of(k) {
            Some(i) => {
                proof {
                    lemma_map_remove(self.entries@, i as int);
                    lemma_map_at(self.entries@, i as int);
                }
                let mut entries: Vec<(String, V)> = Vec::new();
                std::mem::swap(&mut entries, &mut self.entries);
                let (_key, v) = entries.remove(i);
                self.entries = entries;
                Some(v)
            },
            None => {
                assert(old(self).view().remove(k@) =~= old(self).view());
                None
            },
        }
    }
}

} // verus!
