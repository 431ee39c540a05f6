//! A keyed store: the persistence primitive shared by every component.
//!
//! `Table<V>` maps `u64` keys to values of type `V`, holds at most one entry
//! per key, and is viewed in specifications as a `Map<u64, V>`.  It is kept
//! as an association list, which makes the view a straightforward recursive
//! function of the entries.

use vstd::prelude::*;

verus! {

/// Entries with pairwise distinct keys.
pub open spec fn distinct_keys<V>(s: Seq<(u64, V)>) -> bool {
    forall|i: int, j: int|
        0 <= i < j < s.len() ==> (#[trigger] s[i]).0 != (#[trigger] s[j]).0
}

/// The map described by an entry list; a later entry would win, though a
/// well-formed table never holds two entries with one key.
pub open spec fn entries_to_map<V>(s: Seq<(u64, V)>) -> Map<u64, V>
    decreases s.len(),
{
    if s.len() == 0 {
        Map::empty()
    } else {
        entries_to_map(s.drop_last()).insert(s.last().0, s.last().1)
    }
}

proof fn lemma_entries_contain<V>(s: Seq<(u64, V)>, k: u64)
    ensures
        entries_to_map(s).contains_key(k) <==> exists|i: int|
            0 <= i < s.len() && (#[trigger] s[i]).0 == k,
    decreases s.len(),
{
    if s.len() > 0 {
        lemma_entries_contain(s.drop_last(), k);
        if s.last().0 == k {
            assert(s[s.len() - 1].0 == k);
        } else {
            if exists|i: int| 0 <= i < s.len() && (#[trigger] s[i]).0 == k {
                let i = choose|i: int| 0 <= i < s.len() && (#[trigger] s[i]).0 == k;
                assert(s.drop_last()[i].0 == k);
            }
            if exists|i: int| 0 <= i < s.drop_last().len() && (#[trigger] s.drop_last()[i]).0 == k {
                let i = choose|i: int|
                    0 <= i < s.drop_last().len() && (#[trigger] s.drop_last()[i]).0 == k;
                assert(s[i].0 == k);
            }
        }
    }
}

proof fn lemma_entries_index<V>(s: Seq<(u64, V)>, i: int)
    requires
        distinct_keys(s),
        0 <= i < s.len(),
    ensures
        entries_to_map(s).contains_key(s[i].0),
        entries_to_map(s)[s[i].0] == s[i].1,
    decreases s.len(),
{
    if i < s.len() - 1 {
        assert(s.drop_last()[i] == s[i]);
        lemma_entries_index(s.drop_last(), i);
    }
}

proof fn lemma_entries_remove<V>(s: Seq<(u64, V)>, i: int)
    requires
        distinct_keys(s),
        0 <= i < s.len(),
    ensures
        distinct_keys(s.remove(i)),
        entries_to_map(s.remove(i)) == entries_to_map(s).remove(s[i].0),
    decreases s.len(),
{
    let k = s[i].0;
    let t = s.remove(i);
    assert forall|a: int, b: int| 0 <= a < b < t.len() implies (#[trigger] t[a]).0
        != (#[trigger] t[b]).0 by {
        let a0: int = if a < i { a } else { a + 1 };
        let b0: int = if b < i { b } else { b + 1 };
        assert(t[a] == s[a0]);
        assert(t[b] == s[b0]);
    }
    if i == s.len() - 1 {
        assert(t =~= s.drop_last());
        lemma_entries_contain(s.drop_last(), k);
        assert(!entries_to_map(s.drop_last()).contains_key(k)) by {
            if exists|j: int| 0 <= j < s.drop_last().len() && (#[trigger] s.drop_last()[j]).0
                == k {
                let j = choose|j: int|
                    0 <= j < s.drop_last().len() && (#[trigger] s.drop_last()[j]).0 == k;
                assert(s[j].0 == s[i].0);
            }
        }
        assert(entries_to_map(t) =~= entries_to_map(s).remove(k));
    } else {
        assert(t.last() == s.last());
        assert(t.drop_last() =~= s.drop_last().remove(i));
        lemma_entries_remove(s.drop_last(), i);
        assert(s[i] == s.drop_last()[i]);
        assert(k != s.last().0);
        assert(entries_to_map(t) =~= entries_to_map(s).remove(k));
    }
}

/// A keyed store holding at most one value per `u64` key.
pub struct Table<V> {
    entries: Vec<(u64, V)>,
}

impl<V> View for Table<V> {
    type V = Map<u64, V>;

    closed spec fn view(&self) -> Map<u64, V> {
        entries_to_map(self.entries@)
    }
}

impl<V> Table<V> {
    /// Keys are pairwise distinct, so removal by key removes every trace of it.
    pub closed spec fn wf(self) -> bool {
        distinct_keys(self.entries@)
    }

    pub fn new() -> (t: Self)
        ensures
            t.wf(),
            t@ == Map::<u64, V>::empty(),
    {
        Table { entries: Vec::new() }
    }

    /// The index of the entry holding `k`, if any.
    fn find(&self, k: u64) -> (r: Option<usize>)
        requires
            self.wf(),
        ensures
            match r {
                Some(i) => i < self.entries@.len() && self.entries@[i as int].0 == k
                    && self@.contains_key(k) && self@[k] == self.entries@[i as int].1,
                None => !self@.contains_key(k),
            },
    {
        let n = self.entries.len();
        let mut i: usize = 0;
        while i < n
            invariant
                i <= n,
                n == self.entries@.len(),
                self.wf(),
                forall|j: int| 0 <= j < i ==> (#[trigger] self.entries@[j]).0 != k,
            decreases n - i,
        {
            if self.entries[i].0 == k {
                proof {
                    lemma_entries_index(self.entries@, i as int);
                }
                return Some(i);
            }
            i = i + 1;
        }
        proof {
            lemma_entries_contain(self.entries@, k);
        }
        None
    }

    pub fn get(&self, k: u64) -> (r: Option<&V>)
        requires
            self.wf(),
        ensures
            match r {
                Some(v) => self@.contains_key(k) && *v == self@[k],
                None => !self@.contains_key(k),
            },
    {
        match self.find(k) {
            Some(i) => Some(&self.entries[i].1),
            None => None,
        }
    }

    pub fn contains(&self, k: u64) -> (r: bool)
        requires
            self.wf(),
        ensures
            r == self@.contains_key(k),
    {
        self.find(k).is_some()
    }

    /// Removes the entry for `k` and returns its value, if one was held.
    pub fn remove(&mut self, k: u64) -> (r: Option<V>)
        requires
            old(self).wf(),
        ensures
            final(self).wf(),
            final(self)@ == old(self)@.remove(k),
            match r {
                Some(v) => old(self)@.contains_key(k) && v == old(self)@[k],
                None => !old(self)@.contains_key(k) && *final(self) == *old(self),
            },
    {
        match self.find(k) {
            Some(i) => {
                proof {
                    lemma_entries_remove(self.entries@, i as int);
                }
                let (_, v) = self.entries.remove(i);
                proof {
                    assert(old(self)@.remove(k) =~= self@);
                }
                Some(v)
            },
            None => {
                proof {
                    assert(old(self)@.remove(k) =~= self@);
                }
                None
            },
        }
    }

    /// Inserts or replaces the value held for `k`.
    pub fn upsert(&mut self, k: u64, v: V)
        requires
            old(self).wf(),
        ensures
            final(self).wf(),
            final(self)@ == old(self)@.insert(k, v),
    {
        let _ = self.remove(k);
        let ghost mid = self.entries@;
        self.entries.push((k, v));
        proof {
            assert(self.entries@.drop_last() =~= mid);
            lemma_entries_contain(mid, k);
            assert forall|a: int, b: int| 0 <= a < b < self.entries@.len() implies
                (#[trigger] self.entries@[a]).0 != (#[trigger] self.entries@[b]).0 by {
                if b == self.entries@.len() - 1 {
                    assert(self.entries@[a] == mid[a]);
                }
            }
            assert(self@ =~= old(self)@.insert(k, v));
        }
    }
}

} // verus!
