//! Tables by text and by number.
use crate::text;
use vstd::prelude::*;
use vstd::string::*;

verus! {

/// The table that a list of entries stands for: a later entry takes the place of
/// an earlier one with its key.
pub open spec fn table<K, V>(entries: Seq<(K, V)>) -> Map<K, V>
    decreases entries.len(),
{
    if entries.len() == 0 {
        Map::empty()
    } else {
        table(entries.drop_last()).insert(entries.last().0, entries.last().1)
    }
}

/// An index behind an insertion at `at`.
pub open spec fn shifted(pointer: usize, at: usize) -> usize {
    if at <= pointer < usize::MAX {
        (pointer + 1) as usize
    } else {
        pointer
    }
}

/// A table behind an insertion at `at`.
pub open spec fn shifted_table<K>(pointers: Map<K, usize>, at: usize) -> Map<K, usize> {
    pointers.map_values(|p: usize| shifted(p, at))
}

/// The table of entries whose values are mapped, one by one.
pub proof fn table_map<K, V, W>(entries: Seq<(K, V)>, mapped: Seq<(K, W)>, f: spec_fn(V) -> W)
    requires
        mapped.len() == entries.len(),
        forall|i: int|
            0 <= i < entries.len() ==> #[trigger] mapped[i] == (entries[i].0, f(entries[i].1)),
    ensures
        table(mapped) == table(entries).map_values(f),
    decreases entries.len(),
{
    if entries.len() > 0 {
        table_map(entries.drop_last(), mapped.drop_last(), f);
        assert(mapped.last() == mapped[entries.len() - 1]);
    }
    assert(table(mapped) =~= table(entries).map_values(f));
}

/// Another value in the last entry with its key.
pub proof fn table_update<K, V>(entries: Seq<(K, V)>, i: int, value: V)
    requires
        0 <= i < entries.len(),
        forall|j: int| i < j < entries.len() ==> (#[trigger] entries[j]).0 != entries[i].0,
    ensures
        table(entries.update(i, (entries[i].0, value))) == table(entries).insert(
            entries[i].0,
            value,
        ),
    decreases entries.len(),
{
    let next = entries.update(i, (entries[i].0, value));
    let last = entries.len() - 1;
    if i == last {
        assert(next.drop_last() =~= entries.drop_last());
        assert(table(next) =~= table(entries).insert(entries[i].0, value));
    } else {
        assert(next.drop_last() =~= entries.drop_last().update(i, (entries[i].0, value)));
        assert(next.last() == entries.last());
        table_update(entries.drop_last(), i, value);
        assert(entries[last].0 != entries[i].0);
        assert(table(next) =~= table(entries).insert(entries[i].0, value));
    }
}

/// The last entry with a key is the one in the table.
pub proof fn table_last<K, V>(entries: Seq<(K, V)>, i: int)
    requires
        0 <= i < entries.len(),
        forall|j: int| i < j < entries.len() ==> (#[trigger] entries[j]).0 != entries[i].0,
    ensures
        table(entries).contains_key(entries[i].0),
        table(entries)[entries[i].0] == entries[i].1,
    decreases entries.len(),
{
    if i < entries.len() - 1 {
        assert(entries[entries.len() - 1].0 != entries[i].0);
        table_last(entries.drop_last(), i);
    }
}

/// A key that no entry has is not in the table.
pub proof fn table_lacks<K, V>(entries: Seq<(K, V)>, key: K)
    requires
        forall|j: int| 0 <= j < entries.len() ==> (#[trigger] entries[j]).0 != key,
    ensures
        !table(entries).contains_key(key),
    decreases entries.len(),
{
    if entries.len() > 0 {
        assert(entries[entries.len() - 1].0 != key);
        table_lacks(entries.drop_last(), key);
    }
}

/// No key stands twice.
pub open spec fn distinct_keys<V>(entries: Seq<(usize, V)>) -> bool {
    forall|a: int, b: int|
        0 <= a < b < entries.len() ==> (#[trigger] entries[a]).0 != (#[trigger] entries[b]).0
}

/// Where no key stands twice, each entry is that of its key.
pub proof fn distinct_table<V>(entries: Seq<(usize, V)>)
    requires
        distinct_keys(entries),
    ensures
        forall|i: int|
            0 <= i < entries.len() ==> table(entries).contains_key((#[trigger] entries[i]).0)
                && table(entries)[entries[i].0] == entries[i].1,
    decreases entries.len(),
{
    if entries.len() > 0 {
        let rest = entries.drop_last();
        distinct_table(rest);
        assert forall|i: int| 0 <= i < entries.len() implies table(entries).contains_key(
            (#[trigger] entries[i]).0,
        ) && table(entries)[entries[i].0] == entries[i].1 by {
            if i < rest.len() {
                assert(rest[i] == entries[i]);
                assert(entries[i].0 != entries[entries.len() - 1].0);
            }
        }
    }
}

/// A table from texts to indexes.
#[derive(Debug)]
pub struct TextTable {
    entries: Vec<(String, usize)>,
}

impl View for TextTable {
    type V = Map<Seq<char>, usize>;

    closed spec fn view(&self) -> Map<Seq<char>, usize> {
        table(self.entries.deep_view())
    }
}

impl TextTable {
    pub fn new() -> (result: Self)
        ensures
            result@ == Map::<Seq<char>, usize>::empty(),
    {
        TextTable { entries: Vec::new() }
    }

    pub fn get(&self, key: &str) -> (result: Option<usize>)
        ensures
            match result {
                Some(p) => self@.contains_key(key@) && self@[key@] == p,
                None => !self@.contains_key(key@),
            },
    {
        let ghost all = self.entries.deep_view();
        let mut i: usize = self.entries.len();
        assert(all.take(i as int) =~= all);
        while i > 0
            invariant
                all == self.entries.deep_view(),
                i <= self.entries@.len(),
                self@.contains_key(key@) == table(all.take(i as int)).contains_key(key@),
                self@.contains_key(key@) ==> self@[key@] == table(all.take(i as int))[key@],
            decreases i,
        {
            i -= 1;
            proof {
                assert(all.take(i + 1).drop_last() =~= all.take(i as int));
                assert(all.take(i + 1).last() == self.entries@[i as int].deep_view());
            }
            if text::same(self.entries[i].0.as_str(), key) {
                return Some(self.entries[i].1);
            }
        }
        None
    }

    fn remove(&mut self, key: &str)
        ensures
            final(self)@ == old(self)@.remove(key@),
    {
        let ghost all = self.entries.deep_view();
        let mut kept: Vec<(String, usize)> = Vec::new();
        let mut i: usize = 0;
        assert(table(kept.deep_view()) =~= table(all.take(0)).remove(key@));
        while i < self.entries.len()
            invariant
                all == self.entries.deep_view(),
                i <= self.entries@.len(),
                table(kept.deep_view()) == table(all.take(i as int)).remove(key@),
            decreases self.entries@.len() - i,
        {
            let ghost before = kept.deep_view();
            proof {
                assert(all.take(i + 1).drop_last() =~= all.take(i as int));
                assert(all.take(i + 1).last() == self.entries@[i as int].deep_view());
            }
            if !text::same(self.entries[i].0.as_str(), key) {
                kept.push((self.entries[i].0.clone(), self.entries[i].1));
                proof {
                    assert(kept.deep_view().drop_last() =~= before);
                    assert(kept.deep_view().last() == self.entries@[i as int].deep_view());
                }
            }
            assert(table(kept.deep_view()) =~= table(all.take(i + 1)).remove(key@));
            i += 1;
        }
        assert(all.take(i as int) =~= all);
        self.entries = kept;
    }

    pub fn insert(&mut self, key: String, pointer: usize)
        ensures
            final(self)@ == old(self)@.insert(key@, pointer),
    {
        self.remove(key.as_str());
        let ghost before = self.entries.deep_view();
        self.entries.push((key, pointer));
        proof {
            assert(self.entries.deep_view().drop_last() =~= before);
            assert(self@ =~= old(self)@.insert(key@, pointer));
        }
    }

    /// Every index at or behind `at` moves up by one.
    pub fn shift(&mut self, at: usize)
        ensures
            final(self)@ == shifted_table(old(self)@, at),
    {
        let ghost all = self.entries.deep_view();
        let mut moved: Vec<(String, usize)> = Vec::new();
        let mut i: usize = 0;
        while i < self.entries.len()
            invariant
                all == self.entries.deep_view(),
                i <= self.entries@.len(),
                moved@.len() == i,
                forall|k: int|
                    0 <= k < i ==> (#[trigger] moved@[k]).deep_view() == (all[k].0, shifted(
                        all[k].1,
                        at,
                    )),
            decreases self.entries@.len() - i,
        {
            let pointer: usize = self.entries[i].1;
            let next: usize = if pointer >= at && pointer < usize::MAX {
                pointer + 1
            } else {
                pointer
            };
            moved.push((self.entries[i].0.clone(), next));
            i += 1;
        }
        proof {
            table_map(all, moved.deep_view(), |p: usize| shifted(p, at));
        }
        self.entries = moved;
    }
}

/// A table from numbers to indexes.
#[derive(Debug)]
pub struct IndexTable {
    entries: Vec<(usize, usize)>,
}

impl View for IndexTable {
    type V = Map<usize, usize>;

    closed spec fn view(&self) -> Map<usize, usize> {
        table(self.entries.deep_view())
    }
}

impl IndexTable {
    /// No key stands twice.
    #[verifier::type_invariant]
    spec fn distinct(self) -> bool {
        distinct_keys(self.entries@)
    }

    /// The entries, each with a key of its own.
    pub fn entries(&self) -> (result: &Vec<(usize, usize)>)
        ensures
            table(result.deep_view()) == self@,
            result.deep_view() =~= result@,
            forall|i: int|
                0 <= i < result@.len() ==> self@.contains_key((#[trigger] result@[i]).0)
                    && self@[result@[i].0] == result@[i].1,
    {
        proof {
            use_type_invariant(self);
            assert(self.entries.deep_view() =~= self.entries@);
            distinct_table(self.entries@);
        }
        &self.entries
    }

    pub fn new() -> (result: Self)
        ensures
            result@ == Map::<usize, usize>::empty(),
    {
        IndexTable { entries: Vec::new() }
    }

    pub fn get(&self, key: usize) -> (result: Option<usize>)
        ensures
            match result {
                Some(p) => self@.contains_key(key) && self@[key] == p,
                None => !self@.contains_key(key),
            },
    {
        let ghost all = self.entries.deep_view();
        let mut i: usize = self.entries.len();
        assert(all.take(i as int) =~= all);
        while i > 0
            invariant
                all == self.entries.deep_view(),
                i <= self.entries@.len(),
                self@.contains_key(key) == table(all.take(i as int)).contains_key(key),
                self@.contains_key(key) ==> self@[key] == table(all.take(i as int))[key],
            decreases i,
        {
            i -= 1;
            proof {
                assert(all.take(i + 1).drop_last() =~= all.take(i as int));
                assert(all.take(i + 1).last() == self.entries@[i as int].deep_view());
            }
            if self.entries[i].0 == key {
                return Some(self.entries[i].1);
            }
        }
        None
    }

    /// The entries of all keys but `key`.
    fn without(&self, key: usize) -> (kept: Vec<(usize, usize)>)
        ensures
            table(kept.deep_view()) == self@.remove(key),
            distinct_keys(kept@),
            forall|a: int| 0 <= a < kept@.len() ==> (#[trigger] kept@[a]).0 != key,
    {
        proof {
            use_type_invariant(self);
        }
        let ghost all = self.entries.deep_view();
        let mut kept: Vec<(usize, usize)> = Vec::new();
        let mut i: usize = 0;
        assert(table(kept.deep_view()) =~= table(all.take(0)).remove(key));
        while i < self.entries.len()
            invariant
                all == self.entries.deep_view(),
                i <= self.entries@.len(),
                table(kept.deep_view()) == table(all.take(i as int)).remove(key),
                distinct_keys(self.entries@),
                distinct_keys(kept@),
                forall|a: int| 0 <= a < kept@.len() ==> (#[trigger] kept@[a]).0 != key,
                forall|a: int, m: int|
                    0 <= a < kept@.len() && i <= m < self.entries@.len() ==> (
                    #[trigger] kept@[a]).0 != (#[trigger] self.entries@[m]).0,
            decreases self.entries@.len() - i,
        {
            let ghost before = kept.deep_view();
            proof {
                assert(all.take(i + 1).drop_last() =~= all.take(i as int));
                assert(all.take(i + 1).last() == self.entries@[i as int].deep_view());
            }
            if self.entries[i].0 != key {
                kept.push((self.entries[i].0, self.entries[i].1));
                proof {
                    assert(kept.deep_view().drop_last() =~= before);
                    assert(kept.deep_view().last() == self.entries@[i as int].deep_view());
                }
            }
            assert(table(kept.deep_view()) =~= table(all.take(i + 1)).remove(key));
            i += 1;
        }
        assert(all.take(i as int) =~= all);
        kept
    }

    pub fn remove(&mut self, key: usize)
        ensures
            final(self)@ == old(self)@.remove(key),
    {
        self.entries = self.without(key);
    }

    pub fn insert(&mut self, key: usize, pointer: usize)
        ensures
            final(self)@ == old(self)@.insert(key, pointer),
    {
        let mut entries = self.without(key);
        let ghost before = entries.deep_view();
        entries.push((key, pointer));
        proof {
            assert(entries.deep_view().drop_last() =~= before);
            assert(table(entries.deep_view()) =~= old(self)@.insert(key, pointer));
        }
        self.entries = entries;
    }

    /// Every index at or behind `at` moves up by one.
    pub fn shift(&mut self, at: usize)
        ensures
            final(self)@ == shifted_table(old(self)@, at),
    {
        proof {
            use_type_invariant(&*self);
        }
        let ghost all = self.entries.deep_view();
        let mut moved: Vec<(usize, usize)> = Vec::new();
        let mut i: usize = 0;
        while i < self.entries.len()
            invariant
                all == self.entries.deep_view(),
                i <= self.entries@.len(),
                moved@.len() == i,
                forall|k: int|
                    0 <= k < i ==> (#[trigger] moved@[k]).deep_view() == (all[k].0, shifted(
                        all[k].1,
                        at,
                    )),
            decreases self.entries@.len() - i,
        {
            let pointer: usize = self.entries[i].1;
            let next: usize = if pointer >= at && pointer < usize::MAX {
                pointer + 1
            } else {
                pointer
            };
            moved.push((self.entries[i].0, next));
            i += 1;
        }
        proof {
            table_map(all, moved.deep_view(), |p: usize| shifted(p, at));
            assert forall|a: int, b: int| 0 <= a < b < moved@.len() implies (
            #[trigger] moved@[a]).0 != (#[trigger] moved@[b]).0 by {
                assert(moved@[a].deep_view().0 == all[a].0);
                assert(moved@[b].deep_view().0 == all[b].0);
                assert(self.entries@[a].0 != self.entries@[b].0);
            }
        }
        self.entries = moved;
    }
}

/// A table from texts to texts.
#[derive(Debug)]
pub struct TextMap {
    entries: Vec<(String, String)>,
}

impl View for TextMap {
    type V = Map<Seq<char>, Seq<char>>;

    closed spec fn view(&self) -> Map<Seq<char>, Seq<char>> {
        table(self.entries.deep_view())
    }
}

impl TextMap {
    pub fn new() -> (result: Self)
        ensures
            result@ == Map::<Seq<char>, Seq<char>>::empty(),
    {
        TextMap { entries: Vec::new() }
    }

    pub fn get(&self, key: &str) -> (result: Option<&String>)
        ensures
            match result {
                Some(value) => self@.contains_key(key@) && self@[key@] == value@,
                None => !self@.contains_key(key@),
            },
    {
        let ghost all = self.entries.deep_view();
        let mut i: usize = self.entries.len();
        assert(all.take(i as int) =~= all);
        while i > 0
            invariant
                all == self.entries.deep_view(),
                i <= self.entries@.len(),
                self@.contains_key(key@) == table(all.take(i as int)).contains_key(key@),
                self@.contains_key(key@) ==> self@[key@] == table(all.take(i as int))[key@],
            decreases i,
        {
            i -= 1;
            proof {
                assert(all.take(i + 1).drop_last() =~= all.take(i as int));
                assert(all.take(i + 1).last() == self.entries@[i as int].deep_view());
            }
            if text::same(self.entries[i].0.as_str(), key) {
                return Some(&self.entries[i].1);
            }
        }
        None
    }

    pub fn insert(&mut self, key: String, value: String)
        ensures
            final(self)@ == old(self)@.insert(key@, value@),
    {
        let ghost all = self.entries.deep_view();
        let mut kept: Vec<(String, String)> = Vec::new();
        let mut i: usize = 0;
        assert(table(kept.deep_view()) =~= table(all.take(0)).remove(key@));
        while i < self.entries.len()
            invariant
                all == self.entries.deep_view(),
                i <= self.entries@.len(),
                table(kept.deep_view()) == table(all.take(i as int)).remove(key@),
            decreases self.entries@.len() - i,
        {
            let ghost before = kept.deep_view();
            proof {
                assert(all.take(i + 1).drop_last() =~= all.take(i as int));
                assert(all.take(i + 1).last() == self.entries@[i as int].deep_view());
            }
            if !text::same(self.entries[i].0.as_str(), key.as_str()) {
                kept.push((self.entries[i].0.clone(), self.entries[i].1.clone()));
                proof {
                    assert(kept.deep_view().drop_last() =~= before);
                    assert(kept.deep_view().last() == self.entries@[i as int].deep_view());
                }
            }
            assert(table(kept.deep_view()) =~= table(all.take(i + 1)).remove(key@));
            i += 1;
        }
        assert(all.take(i as int) =~= all);
        let ghost before = kept.deep_view();
        kept.push((key, value));
        proof {
            assert(kept.deep_view().drop_last() =~= before);
            assert(table(kept.deep_view()) =~= old(self)@.insert(key@, value@));
        }
        self.entries = kept;
    }
}

} // verus!
