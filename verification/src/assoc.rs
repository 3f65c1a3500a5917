//! A small association map with integer keys, viewed as a `Map<i32, V>`.
//! The process supervisor's stream and recording tables, the scheduler's
//! job table and the active-scheduled-recording table are instances of it.

use vstd::prelude::*;

verus! {

/// The map denoted by an entry sequence: later entries win.
pub open spec fn map_of<V>(s: Seq<(i32, V)>) -> Map<i32, V>
    decreases s.len(),
{
    if s.len() == 0 {
        Map::empty()
    } else {
        map_of(s.drop_last()).insert(s.last().0, s.last().1)
    }
}

/// No two entries share a key.
pub open spec fn unique_keys<V>(s: Seq<(i32, V)>) -> bool {
    forall|i: int, j: int| 0 <= i < j < s.len() ==> (#[trigger] s[i]).0 != (#[trigger] s[j]).0
}

/// A key is in the map exactly when an entry carries it.
pub proof fn lemma_map_of_dom<V>(s: Seq<(i32, V)>, k: i32)
    ensures
        map_of(s).contains_key(k) <==> exists|i: int| 0 <= i < s.len() && (#[trigger] s[i]).0 == k,
    decreases s.len(),
{
    if s.len() > 0 {
        lemma_map_of_dom(s.drop_last(), k);
        if s.last().0 == k {
            assert(s[s.len() - 1].0 == k);
        } else {
            if exists|i: int| 0 <= i < s.len() - 1 && (#[trigger] s.drop_last()[i]).0 == k {
                let i = choose|i: int| 0 <= i < s.len() - 1 && (#[trigger] s.drop_last()[i]).0 == k;
                assert(s[i].0 == k);
            }
            if exists|i: int| 0 <= i < s.len() && (#[trigger] s[i]).0 == k {
                let i = choose|i: int| 0 <= i < s.len() && (#[trigger] s[i]).0 == k;
                assert(s.drop_last()[i].0 == k);
            }
        }
    }
}

/// With unique keys, each entry gives the map's value at its key.
pub proof fn lemma_map_of_get<V>(s: Seq<(i32, V)>, i: int)
    requires
        unique_keys(s),
        0 <= i < s.len(),
    ensures
        map_of(s).contains_key(s[i].0),
        map_of(s)[s[i].0] == s[i].1,
    decreases s.len(),
{
    lemma_map_of_dom(s, s[i].0);
    if i == s.len() - 1 {
    } else {
        assert(s.drop_last()[i] == s[i]);
        lemma_map_of_get(s.drop_last(), i);
        assert(s[s.len() - 1].0 != s[i].0);
    }
}

/// With unique keys, removing the entry at `i` removes exactly its key.
pub proof fn lemma_map_of_remove<V>(s: Seq<(i32, V)>, i: int)
    requires
        unique_keys(s),
        0 <= i < s.len(),
    ensures
        map_of(s.remove(i)) == map_of(s).remove(s[i].0),
    decreases s.len(),
{
    if i == s.len() - 1 {
        assert(s.remove(i) =~= s.drop_last());
        lemma_map_of_dom(s.drop_last(), s[i].0);
        assert forall|j: int| 0 <= j < s.len() - 1 implies (#[trigger] s.drop_last()[j]).0
            != s[i].0 by {
            assert(s[j] == s.drop_last()[j]);
        }
        assert(!map_of(s.drop_last()).contains_key(s[i].0));
        assert(map_of(s) == map_of(s.drop_last()).insert(s.last().0, s.last().1));
        assert(map_of(s).remove(s[i].0) =~= map_of(s.drop_last()));
    } else {
        let t = s.remove(i);
        assert(t.drop_last() =~= s.drop_last().remove(i));
        assert(forall|a: int, b: int|
            0 <= a < b < s.len() - 1 ==> (#[trigger] s.drop_last()[a]).0 != (
            #[trigger] s.drop_last()[b]).0);
        lemma_map_of_remove(s.drop_last(), i);
        assert(t.last() == s.last());
        assert(map_of(t) == map_of(t.drop_last()).insert(s.last().0, s.last().1));
        assert(s.drop_last()[i] == s[i]);
        assert(s.last().0 != s[i].0);
        assert(map_of(s.drop_last()).remove(s[i].0).insert(s.last().0, s.last().1) =~= map_of(
            s.drop_last(),
        ).insert(s.last().0, s.last().1).remove(s[i].0));
    }
}

/// An association list with unique integer keys.
pub struct AssocMap<V> {
    entries: Vec<(i32, V)>,
}

impl<V: Copy> AssocMap<V> {
    /// The denoted map.
    pub closed spec fn view(&self) -> Map<i32, V> {
        map_of(self.entries@)
    }

    /// Key uniqueness holds.
    pub closed spec fn wf(&self) -> bool {
        unique_keys(self.entries@)
    }

    /// Number of entries.
    pub closed spec fn spec_len(&self) -> nat {
        self.entries@.len()
    }

    /// An empty map.
    pub fn new() -> (r: AssocMap<V>)
        ensures
            r@ == Map::<i32, V>::empty(),
            r.wf(),
            r.spec_len() == 0,
    {
        AssocMap { entries: Vec::new() }
    }

    fn find_index(&self, key: i32) -> (r: Option<usize>)
        requires
            self.wf(),
        ensures
            match r {
                Some(i) => i < self.entries@.len() && self.entries@[i as int].0 == key
                    && self@.contains_key(key) && self@[key] == self.entries@[i as int].1,
                None => !self@.contains_key(key),
            },
    {
        let mut i: usize = 0;
        while i < self.entries.len()
            invariant
                self.wf(),
                i <= self.entries@.len(),
                forall|k: int| 0 <= k < i ==> (#[trigger] self.entries@[k]).0 != key,
            decreases self.entries@.len() - i,
        {
            if self.entries[i].0 == key {
                proof {
                    lemma_map_of_get(self.entries@, i as int);
                }
                return Some(i);
            }
            i = i + 1;
        }
        proof {
            lemma_map_of_dom(self.entries@, key);
        }
        None
    }

    /// Whether the map carries `key`.
    pub fn contains(&self, key: i32) -> (r: bool)
        requires
            self.wf(),
        ensures
            r == self@.contains_key(key),
    {
        self.find_index(key).is_some()
    }

    /// The value at `key`, if any.
    pub fn get(&self, key: i32) -> (r: Option<V>)
        requires
            self.wf(),
        ensures
            match r {
                Some(v) => self@.contains_key(key) && self@[key] == v,
                None => !self@.contains_key(key),
            },
    {
        match self.find_index(key) {
            Some(i) => Some(self.entries[i].1),
            None => None,
        }
    }

    /// Add a binding for a key not yet present.
    pub fn insert(&mut self, key: i32, value: V)
        requires
            old(self).wf(),
            !old(self)@.contains_key(key),
        ensures
            final(self).wf(),
            final(self)@ == old(self)@.insert(key, value),
            final(self).spec_len() == old(self).spec_len() + 1,
    {
        proof {
            lemma_map_of_dom(self.entries@, key);
        }
        self.entries.push((key, value));
        proof {
            assert(self.entries@.drop_last() =~= old(self).entries@);
        }
    }

    /// Remove the binding at `key`, handing back its value.
    pub fn remove(&mut self, key: i32) -> (r: Option<V>)
        requires
            old(self).wf(),
        ensures
            final(self).wf(),
            final(self)@ == old(self)@.remove(key),
            match r {
                Some(v) => old(self)@.contains_key(key) && old(self)@[key] == v
                    && final(self).spec_len() + 1 == old(self).spec_len(),
                None => !old(self)@.contains_key(key) && *final(self) == *old(self),
            },
    {
        match self.find_index(key) {
            Some(i) => {
                let (_, v) = self.entries.remove(i);
                proof {
                    lemma_map_of_remove(old(self).entries@, i as int);
                    assert forall|a: int, b: int|
                        0 <= a < b < self.entries@.len() implies (#[trigger] self.entries@[a]).0
                        != (#[trigger] self.entries@[b]).0 by {
                        if b < i {
                        } else if a < i {
                            assert(self.entries@[b] == old(self).entries@[b + 1]);
                        } else {
                            assert(self.entries@[a] == old(self).entries@[a + 1]);
                            assert(self.entries@[b] == old(self).entries@[b + 1]);
                        }
                    }
                }
                Some(v)
            },
            None => {
                proof {
                    assert(old(self)@.remove(key) =~= old(self)@);
                }
                None
            },
        }
    }

    /// All entries, as pairs. Each entry is a binding of the map and every
    /// binding appears exactly once.
    pub fn entries_list(&self) -> (r: Vec<(i32, V)>)
        requires
            self.wf(),
        ensures
            r@.len() == self.spec_len(),
            unique_keys(r@),
            forall|i: int|
                0 <= i < r@.len() ==> self@.contains_key((#[trigger] r@[i]).0) && self@[r@[i].0]
                    == r@[i].1,
            forall|k: i32|
                self@.contains_key(k) ==> exists|i: int| 0 <= i < r@.len() && (#[trigger] r@[i]).0
                    == k,
    {
        let mut out: Vec<(i32, V)> = Vec::new();
        let mut i: usize = 0;
        while i < self.entries.len()
            invariant
                self.wf(),
                i <= self.entries@.len(),
                out@ =~= self.entries@.take(i as int),
            decreases self.entries@.len() - i,
        {
            out.push(self.entries[i]);
            proof {
                assert(out@ =~= self.entries@.take(i + 1));
            }
            i = i + 1;
        }
        proof {
            assert(out@ =~= self.entries@);
            assert forall|j: int| 0 <= j < out@.len() implies self@.contains_key(
                (#[trigger] out@[j]).0,
            ) && self@[out@[j].0] == out@[j].1 by {
                lemma_map_of_get(self.entries@, j);
            }
            assert forall|k: i32| self@.contains_key(k) implies exists|j: int|
                0 <= j < out@.len() && (#[trigger] out@[j]).0 == k by {
                lemma_map_of_dom(self.entries@, k);
            }
        }
        out
    }

    /// The keys, in entry order, each exactly once.
    pub fn keys_list(&self) -> (r: Vec<i32>)
        requires
            self.wf(),
        ensures
            r@.len() == self.spec_len(),
            forall|i: int| 0 <= i < r@.len() ==> self@.contains_key(#[trigger] r@[i]),
            forall|k: i32|
                self@.contains_key(k) ==> exists|i: int| 0 <= i < r@.len() && #[trigger] r@[i] == k,
            forall|i: int, j: int| 0 <= i < j < r@.len() ==> #[trigger] r@[i] != #[trigger] r@[j],
    {
        let pairs = self.entries_list();
        let mut out: Vec<i32> = Vec::new();
        let mut i: usize = 0;
        while i < pairs.len()
            invariant
                i <= pairs@.len(),
                out@.len() == i,
                unique_keys(pairs@),
                forall|j: int| 0 <= j < i ==> #[trigger] out@[j] == pairs@[j].0,
                forall|j: int|
                    0 <= j < pairs@.len() ==> self@.contains_key((#[trigger] pairs@[j]).0),
                forall|k: i32|
                    self@.contains_key(k) ==> exists|j: int|
                        0 <= j < pairs@.len() && (#[trigger] pairs@[j]).0 == k,
            decreases pairs@.len() - i,
        {
            out.push(pairs[i].0);
            i = i + 1;
        }
        proof {
            assert forall|k: i32| self@.contains_key(k) implies exists|j: int|
                0 <= j < out@.len() && #[trigger] out@[j] == k by {
                let j = choose|j: int| 0 <= j < pairs@.len() && (#[trigger] pairs@[j]).0 == k;
                assert(out@[j] == k);
            }
            assert forall|a: int, b: int| 0 <= a < b < out@.len() implies #[trigger] out@[a]
                != #[trigger] out@[b] by {
                assert(out@[a] == pairs@[a].0);
                assert(out@[b] == pairs@[b].0);
                assert((#[trigger] pairs@[a]).0 != (#[trigger] pairs@[b]).0);
            }
        }
        out
    }

    /// Remove every binding, handing all of them back.
    pub fn take_all(&mut self) -> (r: Vec<(i32, V)>)
        requires
            old(self).wf(),
        ensures
            final(self)@ == Map::<i32, V>::empty(),
            final(self).wf(),
            final(self).spec_len() == 0,
            r@.len() == old(self).spec_len(),
            unique_keys(r@),
            forall|i: int|
                0 <= i < r@.len() ==> old(self)@.contains_key((#[trigger] r@[i]).0) && old(
                    self,
                )@[r@[i].0] == r@[i].1,
            forall|k: i32|
                old(self)@.contains_key(k) ==> exists|i: int|
                    0 <= i < r@.len() && (#[trigger] r@[i]).0 == k,
    {
        let out = self.entries_list();
        self.entries.clear();
        out
    }
}

} // verus!
