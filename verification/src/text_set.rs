//! Sets of texts.
use crate::text;
use vstd::prelude::*;
use vstd::string::*;

verus! {

/// The set of the items of a list.
pub open spec fn set_of(items: Seq<Seq<char>>) -> Set<Seq<char>>
    decreases items.len(),
{
    if items.len() == 0 {
        Set::empty()
    } else {
        set_of(items.drop_last()).insert(items.last())
    }
}

/// A set of texts.
#[derive(Debug)]
pub struct TextSet {
    items: Vec<String>,
}

impl View for TextSet {
    type V = Set<Seq<char>>;

    closed spec fn view(&self) -> Set<Seq<char>> {
        set_of(self.items.deep_view())
    }
}

impl TextSet {
    pub fn new() -> (result: Self)
        ensures
            result@ == Set::<Seq<char>>::empty(),
    {
        TextSet { items: Vec::new() }
    }

    pub fn contains(&self, item: &str) -> (result: bool)
        ensures
            result == self@.contains(item@),
    {
        let ghost all = self.items.deep_view();
        let mut i: usize = self.items.len();
        assert(all.take(i as int) =~= all);
        while i > 0
            invariant
                all == self.items.deep_view(),
                i <= self.items@.len(),
                self@.contains(item@) == set_of(all.take(i as int)).contains(item@),
            decreases i,
        {
            i -= 1;
            proof {
                assert(all.take(i + 1).drop_last() =~= all.take(i as int));
                assert(all.take(i + 1).last() == self.items@[i as int]@);
            }
            if text::same(self.items[i].as_str(), item) {
                return true;
            }
        }
        false
    }

    pub fn insert(&mut self, item: String)
        ensures
            final(self)@ == old(self)@.insert(item@),
    {
        let ghost before = self.items.deep_view();
        self.items.push(item);
        proof {
            assert(self.items.deep_view().drop_last() =~= before);
        }
    }

    /// Takes `item` out, and says whether it was in.
    pub fn remove(&mut self, item: &str) -> (result: bool)
        ensures
            result == old(self)@.contains(item@),
            final(self)@ == old(self)@.remove(item@),
    {
        let found = self.contains(item);
        let ghost all = self.items.deep_view();
        let mut kept: Vec<String> = Vec::new();
        let mut i: usize = 0;
        assert(set_of(kept.deep_view()) =~= set_of(all.take(0)).remove(item@));
        while i < self.items.len()
            invariant
                all == self.items.deep_view(),
                i <= self.items@.len(),
                set_of(kept.deep_view()) == set_of(all.take(i as int)).remove(item@),
            decreases self.items@.len() - i,
        {
            let ghost before = kept.deep_view();
            proof {
                assert(all.take(i + 1).drop_last() =~= all.take(i as int));
                assert(all.take(i + 1).last() == self.items@[i as int]@);
            }
            if !text::same(self.items[i].as_str(), item) {
                kept.push(self.items[i].clone());
                proof {
                    assert(kept.deep_view().drop_last() =~= before);
                    assert(kept.deep_view().last() == self.items@[i as int]@);
                }
            }
            assert(set_of(kept.deep_view()) =~= set_of(all.take(i + 1)).remove(item@));
            i += 1;
        }
        assert(all.take(i as int) =~= all);
        self.items = kept;
        found
    }
}

} // verus!
