//! A key-value table keyed by byte strings, the store behind the mempool.

use crate::bytes::bytes_eq;
use vstd::prelude::*;

verus! {

/// A table from byte-string keys to values. Each key occurs at most once.
pub struct KvTable<V> {
    entries: Vec<(Vec<u8>, V)>,
    contents: Ghost<Map<Seq<u8>, V>>,
}

impl<V> View for KvTable<V> {
    type V = Map<Seq<u8>, V>;

    closed spec fn view(&self) -> Map<Seq<u8>, V> {
        self.contents@
    }
}

impl<V> KvTable<V> {
    /// The entries list exactly the contents, each key once.
    pub closed spec fn wf(&self) -> bool {
        &&& forall|i: int|
            #![trigger self.entries@[i]]
            0 <= i < self.entries@.len() ==> {
                &&& self.contents@.contains_key(self.entries@[i].0@)
                &&& self.contents@[self.entries@[i].0@] == self.entries@[i].1
            }
        &&& forall|k: Seq<u8>|
            #[trigger] self.contents@.contains_key(k) ==> exists|i: int|
                0 <= i < self.entries@.len() && #[trigger] self.entries@[i].0@ == k
        &&& forall|i: int, j: int|
            0 <= i < j < self.entries@.len() ==> #[trigger] self.entries@[i].0@
                != #[trigger] self.entries@[j].0@
    }

    pub fn new() -> (table: KvTable<V>)
        ensures
            table.wf(),
            table@ == Map::<Seq<u8>, V>::empty(),
    {
        KvTable { entries: Vec::new(), contents: Ghost(Map::empty()) }
    }

    /// The position of `key` among the entries, if it is there.
    fn find(&self, key: &[u8]) -> (res: Option<usize>)
        requires
            self.wf(),
        ensures
            match res {
                Some(i) => i < self.entries@.len() && self.entries@[i as int].0@ == key@,
                None => !self@.contains_key(key@),
            },
    {
        let mut i: usize = 0;
        while i < self.entries.len()
            invariant
                self.wf(),
                i <= self.entries@.len(),
                forall|j: int| 0 <= j < i ==> #[trigger] self.entries@[j].0@ != key@,
            decreases self.entries.len() - i,
        {
            if bytes_eq(self.entries[i].0.as_slice(), key) {
                return Some(i);
            }
            i = i + 1;
        }
        None
    }

    /// The value stored under `key`.
    pub fn get(&self, key: &[u8]) -> (res: Option<&V>)
        requires
            self.wf(),
        ensures
            match res {
                Some(v) => self@.contains_key(key@) && *v == self@[key@],
                None => !self@.contains_key(key@),
            },
    {
        match self.find(key) {
            Some(i) => Some(&self.entries[i].1),
            None => None,
        }
    }

    /// Stores `value` under `key`, replacing what was stored there.
    pub fn insert(&mut self, key: Vec<u8>, value: V)
        requires
            old(self).wf(),
        ensures
            final(self).wf(),
            final(self)@ == old(self)@.insert(key@, value),
    {
        let ghost k = key@;
        let ghost old_entries = self.entries@;
        match self.find(key.as_slice()) {
            Some(i) => {
                self.entries.set(i, (key, value));
                self.contents = Ghost(self.contents@.insert(k, value));
                assert forall|kk: Seq<u8>| #[trigger] self.contents@.contains_key(kk) implies exists|j: int|
                    0 <= j < self.entries@.len() && #[trigger] self.entries@[j].0@ == kk by {
                    if kk == k {
                        assert(self.entries@[i as int].0@ == kk);
                    } else {
                        let j = choose|j: int| 0 <= j < old_entries.len() && #[trigger] old_entries[j].0@ == kk;
                        assert(self.entries@[j].0@ == kk);
                    }
                }
            },
            None => {
                self.entries.push((key, value));
                self.contents = Ghost(self.contents@.insert(k, value));
                let ghost n: int = self.entries@.len() - 1;
                assert forall|kk: Seq<u8>| #[trigger] self.contents@.contains_key(kk) implies exists|j: int|
                    0 <= j < self.entries@.len() && #[trigger] self.entries@[j].0@ == kk by {
                    if kk == k {
                        assert(self.entries@[n].0@ == kk);
                    } else {
                        let j = choose|j: int| 0 <= j < old_entries.len() && #[trigger] old_entries[j].0@ == kk;
                        assert(self.entries@[j].0@ == kk);
                    }
                }
            },
        }
    }
}

} // verus!
