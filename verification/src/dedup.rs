//! The dedup set: canonical file keys, each claimed by exactly one task.

use vstd::prelude::*;

use crate::paths::path_view;

verus! {

/// A set of claimed file keys. Each key is a canonical path; `insert` is the
/// check-and-insert step that lets exactly one task claim each key.
pub struct DedupSet {
    keys: Vec<Vec<String>>,
}

impl DedupSet {
    /// The set of keys claimed so far.
    pub closed spec fn claimed(&self) -> Set<Seq<Seq<char>>> {
        Set::new(
            |p: Seq<Seq<char>>|
                exists|i: int| 0 <= i < self.keys.deep_view().len() && self.keys.deep_view()[i] == p,
        )
    }

    /// An empty dedup set.
    pub fn new() -> (r: DedupSet)
        ensures
            r.claimed() == Set::<Seq<Seq<char>>>::empty(),
    {
        let r = DedupSet { keys: Vec::new() };
        proof {
            assert(r.claimed() =~= Set::<Seq<Seq<char>>>::empty());
        }
        r
    }

    /// Whether `key` has already been claimed.
    pub fn contains(&self, key: &Vec<String>) -> (r: bool)
        ensures
            r == self.claimed().contains(path_view(key)),
    {
        let mut i: usize = 0;
        while i < self.keys.len()
            invariant
                i <= self.keys.len(),
                forall|j: int| 0 <= j < i ==> self.keys.deep_view()[j] != path_view(key),
            decreases self.keys.len() - i,
        {
            if crate::paths::path_eq(&self.keys[i], key) {
                proof {
                    assert(self.keys.deep_view()[i as int] == path_view(key));
                }
                return true;
            }
            i = i + 1;
        }
        false
    }

    /// Claim `key`: returns true and adds it if it was not yet claimed;
    /// returns false and leaves the set unchanged if it was.
    pub fn insert(&mut self, key: Vec<String>) -> (fresh: bool)
        ensures
            fresh == !old(self).claimed().contains(path_view(&key)),
            final(self).claimed() == old(self).claimed().insert(path_view(&key)),
    {
        if self.contains(&key) {
            proof {
                assert(self.claimed() =~= old(self).claimed().insert(path_view(&key)));
            }
            return false;
        }
        let ghost pre = self.keys.deep_view();
        let ghost kv = path_view(&key);
        self.keys.push(key);
        proof {
            assert(self.keys.deep_view().len() == pre.len() + 1);
            assert(forall|j: int| 0 <= j < pre.len() ==> self.keys.deep_view()[j] == pre[j]);
            assert(self.keys.deep_view()[pre.len() as int] == kv);
            assert forall|p: Seq<Seq<char>>|
                self.claimed().contains(p) == old(self).claimed().insert(kv).contains(p) by {
                if self.claimed().contains(p) {
                    let i = choose|i: int|
                        0 <= i < self.keys.deep_view().len() && self.keys.deep_view()[i] == p;
                    if i < pre.len() {
                        assert(old(self).keys.deep_view()[i] == p);
                        assert(old(self).claimed().contains(p));
                    } else {
                        assert(p == kv);
                    }
                }
                if old(self).claimed().contains(p) {
                    let i = choose|i: int| 0 <= i < pre.len() && pre[i] == p;
                    assert(self.keys.deep_view()[i] == p);
                    assert(self.claimed().contains(p));
                }
                if p == kv {
                    assert(self.claimed().contains(p));
                }
            }
            assert(self.claimed() =~= old(self).claimed().insert(kv));
        }
        true
    }
}

} // verus!
