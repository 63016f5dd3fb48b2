//! A table from addresses to open sinks.
use vstd::prelude::*;

use crate::addr::Addr;

verus! {

/// Position of the entry for `key`.
pub open spec fn entry_at(entries: Seq<(Addr, u64)>, key: Addr, at: int) -> bool {
    0 <= at < entries.len() && entries[at].0 == key
}

/// The map that a list of entries spells, where no key occurs twice.
pub open spec fn entries_map(entries: Seq<(Addr, u64)>) -> Map<Addr, u64> {
    Map::new(
        |key: Addr| exists|at: int| entry_at(entries, key, at),
        |key: Addr| entries[choose|at: int| entry_at(entries, key, at)].1,
    )
}

/// No key occurs twice.
pub open spec fn keys_distinct(entries: Seq<(Addr, u64)>) -> bool {
    forall|i: int, j: int|
        0 <= i < j < entries.len() ==> (#[trigger] entries[i]).0 != (#[trigger] entries[j]).0
}

proof fn lemma_entry(entries: Seq<(Addr, u64)>, at: int)
    requires
        keys_distinct(entries),
        0 <= at < entries.len(),
    ensures
        entries_map(entries).dom().contains(entries[at].0),
        entries_map(entries)[entries[at].0] == entries[at].1,
{
    let key = entries[at].0;
    assert(entry_at(entries, key, at));
    let other = choose|i: int| entry_at(entries, key, i);
    assert(entry_at(entries, key, other));
    assert(other == at) by {
        if other < at {
            assert(entries[other].0 != entries[at].0);
        } else if at < other {
            assert(entries[at].0 != entries[other].0);
        }
    }
}

/// The sinks by which remote ends can be reached, each named by a number.
pub struct SinkTable {
    entries: Vec<(Addr, u64)>,
}

impl View for SinkTable {
    type V = Map<Addr, u64>;

    closed spec fn view(&self) -> Map<Addr, u64> {
        entries_map(self.entries@)
    }
}

impl SinkTable {
    /// No key is filed twice.
    pub closed spec fn wf(&self) -> bool {
        keys_distinct(self.entries@)
    }

    pub fn new() -> (table: SinkTable)
        ensures
            table.wf(),
            table@ == Map::<Addr, u64>::empty(),
    {
        let table = SinkTable { entries: Vec::new() };
        assert(table@ =~= Map::<Addr, u64>::empty());
        table
    }

    fn find(&self, key: Addr) -> (at: Option<usize>)
        requires
            self.wf(),
        ensures
            match at {
                Some(i) => entry_at(self.entries@, key, i as int),
                None => forall|i: int| !entry_at(self.entries@, key, i),
            },
    {
        let mut i: usize = 0;
        while i < self.entries.len()
            invariant
                i <= self.entries.len(),
                forall|j: int| entry_at(self.entries@, key, j) ==> i <= j,
            decreases self.entries.len() - i,
        {
            if self.entries[i].0 == key {
                return Some(i);
            }
            i = i + 1;
        }
        None
    }

    pub fn get(&self, key: Addr) -> (sink: Option<u64>)
        requires
            self.wf(),
        ensures
            sink == (if self@.dom().contains(key) { Some(self@[key]) } else { None }),
    {
        match self.find(key) {
            Some(i) => {
                proof { lemma_entry(self.entries@, i as int); }
                Some(self.entries[i].1)
            },
            None => None,
        }
    }

    /// Files `sink` under `key`; hands back the sink that it displaces.
    pub fn insert(&mut self, key: Addr, sink: u64) -> (displaced: Option<u64>)
        requires
            old(self).wf(),
        ensures
            final(self).wf(),
            final(self)@ == old(self)@.insert(key, sink),
            displaced == (if old(self)@.dom().contains(key) {
                Some(old(self)@[key])
            } else {
                None
            }),
    {
        let ghost before = self.entries@;
        match self.find(key) {
            Some(i) => {
                let was: u64 = self.entries[i].1;
                self.entries.set(i, (key, sink));
                proof {
                    lemma_entry(before, i as int);
                    let after = self.entries@;
                    assert(keys_distinct(after));
                    lemma_same_keys(before, after, i as int);
                }
                Some(was)
            },
            None => {
                self.entries.push((key, sink));
                proof {
                    let after = self.entries@;
                    assert(after.drop_last() =~= before);
                    lemma_pushed(before, key, sink);
                }
                None
            },
        }
    }

    /// Takes the entry for `key` out; hands back its sink.
    pub fn remove(&mut self, key: Addr) -> (sink: Option<u64>)
        requires
            old(self).wf(),
        ensures
            final(self).wf(),
            final(self)@ == old(self)@.remove(key),
            sink == (if old(self)@.dom().contains(key) {
                Some(old(self)@[key])
            } else {
                None
            }),
    {
        let ghost before = self.entries@;
        match self.find(key) {
            Some(i) => {
                let was = self.entries.swap_remove(i);
                proof {
                    lemma_entry(before, i as int);
                    lemma_swap_removed(before, self.entries@, i as int);
                }
                Some(was.1)
            },
            None => {
                assert(self@ =~= old(self)@.remove(key));
                None
            },
        }
    }
}

proof fn lemma_same_keys(before: Seq<(Addr, u64)>, after: Seq<(Addr, u64)>, at: int)
    requires
        keys_distinct(before),
        keys_distinct(after),
        0 <= at < before.len(),
        after == before.update(at, (before[at].0, after[at].1)),
    ensures
        entries_map(after) == entries_map(before).insert(before[at].0, after[at].1),
{
    let key = before[at].0;
    assert forall|k: Addr| #[trigger] entries_map(after).dom().contains(k) implies entries_map(
        before,
    ).insert(key, after[at].1).dom().contains(k) && entries_map(after)[k] == entries_map(
        before,
    ).insert(key, after[at].1)[k] by {
        let i = choose|i: int| entry_at(after, k, i);
        assert(entry_at(after, k, i));
        lemma_entry(after, i);
        lemma_entry(before, i);
    }
    assert forall|k: Addr| #[trigger]
        entries_map(before).insert(key, after[at].1).dom().contains(k) implies entries_map(
        after,
    ).dom().contains(k) by {
        if k == key {
            assert(entry_at(after, k, at));
        } else {
            let i = choose|i: int| entry_at(before, k, i);
            assert(entry_at(before, k, i));
            assert(entry_at(after, k, i));
        }
    }
    assert(entries_map(after) =~= entries_map(before).insert(key, after[at].1));
}

proof fn lemma_pushed(before: Seq<(Addr, u64)>, key: Addr, sink: u64)
    requires
        keys_distinct(before),
        forall|i: int| !entry_at(before, key, i),
    ensures
        keys_distinct(before.push((key, sink))),
        entries_map(before.push((key, sink))) == entries_map(before).insert(key, sink),
{
    let after = before.push((key, sink));
    assert forall|i: int, j: int| 0 <= i < j < after.len() implies (#[trigger] after[i]).0 != (
    #[trigger] after[j]).0 by {
        assert(!entry_at(before, key, i));
    }
    assert forall|k: Addr| #[trigger] entries_map(after).dom().contains(k) implies entries_map(
        before,
    ).insert(key, sink).dom().contains(k) && entries_map(after)[k] == entries_map(before).insert(
        key,
        sink,
    )[k] by {
        let i = choose|i: int| entry_at(after, k, i);
        assert(entry_at(after, k, i));
        lemma_entry(after, i);
        if i < before.len() {
            assert(entry_at(before, k, i));
            lemma_entry(before, i);
        }
    }
    assert forall|k: Addr| #[trigger]
        entries_map(before).insert(key, sink).dom().contains(k) implies entries_map(
        after,
    ).dom().contains(k) by {
        if k == key {
            assert(entry_at(after, k, before.len() as int));
        } else {
            let i = choose|i: int| entry_at(before, k, i);
            assert(entry_at(before, k, i));
            assert(entry_at(after, k, i));
        }
    }
    assert(entries_map(after) =~= entries_map(before).insert(key, sink));
}

proof fn lemma_swap_removed(before: Seq<(Addr, u64)>, after: Seq<(Addr, u64)>, at: int)
    requires
        keys_distinct(before),
        0 <= at < before.len(),
        after == before.update(at, before.last()).drop_last(),
    ensures
        keys_distinct(after),
        entries_map(after) == entries_map(before).remove(before[at].0),
{
    let key = before[at].0;
    assert forall|i: int, j: int| 0 <= i < j < after.len() implies (#[trigger] after[i]).0 != (
    #[trigger] after[j]).0 by {
        let from_i = if i == at { before.len() - 1 } else { i };
        let from_j = if j == at { before.len() - 1 } else { j };
        assert(after[i] == before[from_i] && after[j] == before[from_j]);
        assert(from_i != from_j);
    }
    assert forall|k: Addr| #[trigger] entries_map(after).dom().contains(k) implies entries_map(
        before,
    ).remove(key).dom().contains(k) && entries_map(after)[k] == entries_map(before).remove(
        key,
    )[k] by {
        let i = choose|i: int| entry_at(after, k, i);
        assert(entry_at(after, k, i));
        lemma_entry(after, i);
        let from_i = if i == at { before.len() - 1 } else { i };
        assert(after[i] == before[from_i]);
        lemma_entry(before, from_i);
        assert(before[from_i].0 != key);
    }
    assert forall|k: Addr| #[trigger] entries_map(before).remove(key).dom().contains(k) implies
        entries_map(after).dom().contains(k) by {
        let i = choose|i: int| entry_at(before, k, i);
        assert(entry_at(before, k, i));
        if i == before.len() - 1 {
            assert(entry_at(after, k, at));
        } else {
            assert(entry_at(after, k, i));
        }
    }
    assert(entries_map(after) =~= entries_map(before).remove(key));
}

} // verus!
