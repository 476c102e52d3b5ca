//! The gateway's thread cache: which bus address answers each thread.
use vstd::prelude::*;

verus! {

/// A map from thread id to recipient address, the later of two entries
/// for one thread winning.
pub struct ThreadCache {
    entries: Vec<(String, String)>,
}

/// The map that a list of entries stands for.
pub open spec fn entries_map(s: Seq<(String, String)>) -> Map<Seq<char>, Seq<char>>
    decreases s.len(),
{
    if s.len() == 0 {
        Map::empty()
    } else {
        entries_map(s.drop_last()).insert(s.last().0@, s.last().1@)
    }
}

impl View for ThreadCache {
    type V = Map<Seq<char>, Seq<char>>;

    closed spec fn view(&self) -> Map<Seq<char>, Seq<char>> {
        entries_map(self.entries@)
    }
}

impl ThreadCache {
    /// An empty cache.
    pub fn new() -> (r: ThreadCache)
        ensures
            r@ == Map::<Seq<char>, Seq<char>>::empty(),
    {
        ThreadCache { entries: Vec::new() }
    }

    /// The recipient cached for `thread`.
    pub fn get(&self, thread: &String) -> (r: Option<String>)
        ensures
            match r {
                Some(a) => self@.contains_key(thread@) && self@[thread@] == a@,
                None => !self@.contains_key(thread@),
            },
    {
        let mut i: usize = self.entries.len();
        proof {
            assert(self.entries@.subrange(0, i as int) =~= self.entries@);
        }
        while i > 0
            invariant
                i <= self.entries.len(),
                forall|j: int| i <= j < self.entries.len() ==> self.entries@[j].0@ != thread@,
                entries_map(self.entries@).contains_key(thread@) == entries_map(
                    self.entries@.subrange(0, i as int),
                ).contains_key(thread@),
                entries_map(self.entries@).contains_key(thread@) ==> entries_map(self.entries@)[thread@]
                    == entries_map(self.entries@.subrange(0, i as int))[thread@],
            decreases i,
        {
            let ghost pre = self.entries@.subrange(0, i as int);
            proof {
                assert(pre.drop_last() =~= self.entries@.subrange(0, i - 1));
            }
            if self.entries[i - 1].0 == *thread {
                return Some(self.entries[i - 1].1.clone());
            }
            i = i - 1;
        }
        proof {
            assert(self.entries@.subrange(0, 0).len() == 0);
        }
        None
    }

    /// Drops the entry of `thread`, if there is one.
    pub fn remove(&mut self, thread: &String)
        ensures
            final(self)@ == old(self)@.remove(thread@),
    {
        let ghost orig = self.entries@;
        let mut kept: Vec<(String, String)> = Vec::new();
        let mut i: usize = 0;
        while i < self.entries.len()
            invariant
                self.entries@ == orig,
                i <= orig.len(),
                entries_map(kept@) == entries_map(orig.subrange(0, i as int)).remove(thread@),
            decreases orig.len() - i,
        {
            let ghost pre = orig.subrange(0, i as int);
            proof {
                assert(orig.subrange(0, i + 1).drop_last() =~= pre);
            }
            if self.entries[i].0 != *thread {
                let e = (self.entries[i].0.clone(), self.entries[i].1.clone());
                let ghost before = kept@;
                kept.push(e);
                proof {
                    assert(kept@.drop_last() =~= before);
                    assert(entries_map(kept@) =~= entries_map(orig.subrange(0, i + 1)).remove(thread@));
                }
            } else {
                proof {
                    assert(entries_map(kept@) =~= entries_map(orig.subrange(0, i + 1)).remove(thread@));
                }
            }
            i = i + 1;
        }
        proof {
            assert(orig.subrange(0, orig.len() as int) =~= orig);
        }
        self.entries = kept;
    }

    /// Records `recipient` as the address that answers `thread`.
    pub fn insert(&mut self, thread: String, recipient: String)
        ensures
            final(self)@ == old(self)@.insert(thread@, recipient@),
    {
        self.remove(&thread);
        let ghost before = self.entries@;
        self.entries.push((thread, recipient));
        proof {
            assert(self.entries@.drop_last() =~= before);
            assert(entries_map(self.entries@) =~= old(self)@.remove(thread@).insert(thread@, recipient@));
            assert(entries_map(self.entries@) =~= old(self)@.insert(thread@, recipient@));
        }
    }
}

} // verus!
