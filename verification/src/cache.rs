//! Installations a locator has reported, keyed by executable.

use vstd::prelude::*;
use crate::r_installation::{same_installation, RInstallation};
use crate::text::{chars_eq, chars_of};

verus! {

/// The entries as a map; a later entry for the same key wins.
pub open spec fn entries_map(v: Seq<(String, RInstallation)>) -> Map<Seq<char>, RInstallation>
    decreases v.len(),
{
    if v.len() == 0 {
        Map::empty()
    } else {
        entries_map(v.drop_last()).insert(v.last().0@, v.last().1)
    }
}

/// A map from executable paths to the installation reported for them.
#[derive(Debug)]
pub struct LocatorCache {
    entries: Vec<(String, RInstallation)>,
}

impl LocatorCache {
    pub closed spec fn view(&self) -> Map<Seq<char>, RInstallation> {
        entries_map(self.entries@)
    }

    pub fn new() -> (r: LocatorCache)
        ensures
            r.view() == Map::<Seq<char>, RInstallation>::empty(),
    {
        LocatorCache { entries: Vec::new() }
    }

    /// Forgets every entry.
    pub fn clear(&mut self)
        ensures
            final(self).view() == Map::<Seq<char>, RInstallation>::empty(),
    {
        self.entries = Vec::new();
    }

    /// Adds the entries in order; a later entry for a key replaces an earlier one.
    pub fn insert_many(&mut self, entries: Vec<(String, RInstallation)>)
        ensures
            final(self).view() == old(self).view().union_prefer_right(entries_map(entries@)),
    {
        let ghost start = self.entries@;
        let mut i: usize = 0;
        let mut entries = entries;
        let ghost all = entries@;
        let n = entries.len();
        while i < n
            invariant
                n == all.len(),
                i <= all.len(),
                entries@ == all.subrange(i as int, all.len() as int),
                entries_map(self.entries@) == entries_map(start).union_prefer_right(
                    entries_map(all.subrange(0, i as int)),
                ),
            decreases all.len() - i,
        {
            let e = entries.remove(0);
            assert(all.subrange(0, i + 1).drop_last() == all.subrange(0, i as int));
            assert(e == all[i as int]);
            let ghost before = self.entries@;
            self.entries.push(e);
            assert(self.entries@.drop_last() == before);
            assert(entries_map(self.entries@) == entries_map(before).insert(e.0@, e.1));
            assert(entries_map(all.subrange(0, i + 1)) == entries_map(all.subrange(0, i as int)).insert(
                e.0@,
                e.1,
            ));
            assert(entries_map(self.entries@) =~= entries_map(start).union_prefer_right(
                entries_map(all.subrange(0, i + 1)),
            ));
            i = i + 1;
        }
        assert(all.subrange(0, all.len() as int) == all);
    }

    /// Records `value` for `key`, replacing what was recorded.
    pub fn insert(&mut self, key: String, value: RInstallation)
        ensures
            final(self).view() == old(self).view().insert(key@, value),
    {
        let ghost before = self.entries@;
        self.entries.push((key, value));
        assert(self.entries@.drop_last() == before);
    }

    /// The entries, in insertion order.
    pub fn into_entries(self) -> (r: Vec<(String, RInstallation)>)
        ensures
            entries_map(r@) == self.view(),
    {
        self.entries
    }

    /// Whether some installation was reported for `key`.
    pub fn contains_key(&self, key: &str) -> (r: bool)
        ensures
            r == self.view().dom().contains(key@),
    {
        self.find(key).is_some()
    }

    fn find(&self, key: &str) -> (r: Option<usize>)
        ensures
            match r {
                Some(i) => i < self.entries@.len() && self.view().dom().contains(key@)
                    && self.view()[key@] == self.entries@[i as int].1,
                None => !self.view().dom().contains(key@),
            },
    {
        let k = chars_of(key);
        let mut i: usize = self.entries.len();
        assert(self.entries@.subrange(0, i as int) == self.entries@);
        while i > 0
            invariant
                i <= self.entries@.len(),
                k@ == key@,
                forall|j: int|
                    i <= j < self.entries@.len() ==> #[trigger] self.entries@[j].0@ != key@,
                entries_map(self.entries@).dom().contains(key@) == entries_map(
                    self.entries@.subrange(0, i as int),
                ).dom().contains(key@),
                entries_map(self.entries@).dom().contains(key@) ==> entries_map(self.entries@)[key@]
                    == entries_map(self.entries@.subrange(0, i as int))[key@],
            decreases i,
        {
            let ghost pre = self.entries@.subrange(0, i - 1);
            assert(self.entries@.subrange(0, i as int).drop_last() == pre);
            let name = chars_of(self.entries[i - 1].0.as_str());
            if chars_eq(name.as_slice(), k.as_slice()) {
                return Some(i - 1);
            }
            i = i - 1;
        }
        assert(entries_map(self.entries@.subrange(0, 0)) == Map::<Seq<char>, RInstallation>::empty());
        None
    }

    /// The installation reported for `key`.
    pub fn get(&self, key: &str) -> (r: Option<RInstallation>)
        ensures
            match r {
                Some(i) => self.view().dom().contains(key@) && same_installation(
                    i,
                    self.view()[key@],
                ),
                None => !self.view().dom().contains(key@),
            },
    {
        match self.find(key) {
            Some(i) => Some(self.entries[i].1.copy()),
            None => None,
        }
    }
}

} // verus!
