//! Import maps: from module specifier to the path or URL it resolves to.

use crate::assoc::{
    as_map, distinct_keys, has_key, lemma_absent_is_unmapped, lemma_empty_is_empty,
    lemma_pair_is_mapped, lemma_push_inserts, lemma_update_inserts,
};
use vstd::prelude::*;

verus! {

/// A mapping from module specifier to resolved target. Two import maps are
/// the same when they resolve the same specifiers to the same targets, in
/// whatever order the entries were inserted.
#[derive(Debug)]
pub struct ImportMap {
    entries: Vec<(String, String)>,
}

/// What a vector of entries holds, as pairs of plain sequences.
pub open spec fn pairs_of(entries: Seq<(String, String)>) -> Seq<(Seq<char>, Seq<char>)> {
    Seq::new(entries.len(), |i: int| (entries[i].0@, entries[i].1@))
}

impl View for ImportMap {
    type V = Map<Seq<char>, Seq<char>>;

    closed spec fn view(&self) -> Map<Seq<char>, Seq<char>> {
        as_map(self.pairs())
    }
}

impl ImportMap {
    /// The entries in the order in which they are kept.
    pub closed spec fn pairs(&self) -> Seq<(Seq<char>, Seq<char>)> {
        pairs_of(self.entries@)
    }

    #[verifier::type_invariant]
    spec fn well_formed(&self) -> bool {
        distinct_keys(self.pairs())
    }

    /// The import map that resolves nothing.
    pub fn new() -> (m: ImportMap)
        ensures
            m@ == Map::<Seq<char>, Seq<char>>::empty(),
    {
        let m = ImportMap { entries: Vec::new() };
        proof {
            lemma_empty_is_empty(m.pairs());
        }
        m
    }

    fn position(&self, specifier: &String) -> (found: Option<usize>)
        ensures
            match found {
                Some(i) => i < self.pairs().len() && self.pairs()[i as int].0 == specifier@,
                None => !has_key(self.pairs(), specifier@),
            },
    {
        let mut i: usize = 0;
        while i < self.entries.len()
            invariant
                i <= self.entries.len(),
                forall|j: int| 0 <= j < i ==> (#[trigger] self.pairs()[j]).0 != specifier@,
            decreases self.entries.len() - i,
        {
            if self.entries[i].0 == *specifier {
                return Some(i);
            }
            i += 1;
        }
        None
    }

    /// Resolves `specifier` to `target` from now on.
    pub fn insert(&mut self, specifier: String, target: String)
        ensures
            final(self)@ == old(self)@.insert(specifier@, target@),
    {
        proof {
            use_type_invariant(&*self);
        }
        let ghost before = self.pairs();
        match self.position(&specifier) {
            Some(i) => {
                proof {
                    lemma_update_inserts(before, i as int, target@);
                }
                let mut entries: Vec<(String, String)> = Vec::new();
                core::mem::swap(&mut self.entries, &mut entries);
                entries.set(i, (specifier, target));
                assert(pairs_of(entries@) =~= before.update(
                    i as int,
                    (before[i as int].0, target@),
                ));
                core::mem::swap(&mut self.entries, &mut entries);
            },
            None => {
                proof {
                    lemma_push_inserts(before, specifier@, target@);
                }
                let mut entries: Vec<(String, String)> = Vec::new();
                core::mem::swap(&mut self.entries, &mut entries);
                entries.push((specifier, target));
                assert(pairs_of(entries@) =~= before.push((specifier@, target@)));
                core::mem::swap(&mut self.entries, &mut entries);
            },
        }
    }

    /// The target that `specifier` resolves to, if it resolves.
    pub fn get(&self, specifier: &String) -> (target: Option<&String>)
        ensures
            match target {
                Some(t) => self@.contains_key(specifier@) && t@ == self@[specifier@],
                None => !self@.contains_key(specifier@),
            },
    {
        proof {
            use_type_invariant(self);
        }
        match self.position(specifier) {
            Some(i) => {
                proof {
                    lemma_pair_is_mapped(self.pairs(), i as int);
                }
                Some(&self.entries[i].1)
            },
            None => {
                proof {
                    lemma_absent_is_unmapped(self.pairs(), specifier@);
                }
                None
            },
        }
    }

    fn within(&self, other: &ImportMap) -> (b: bool)
        ensures
            b == self@.submap_of(other@),
    {
        proof {
            use_type_invariant(self);
        }
        let mut i: usize = 0;
        while i < self.entries.len()
            invariant
                i <= self.entries.len(),
                distinct_keys(self.pairs()),
                forall|j: int|
                    0 <= j < i ==> other@.contains_key((#[trigger] self.pairs()[j]).0)
                        && other@[self.pairs()[j].0] == self.pairs()[j].1,
            decreases self.entries.len() - i,
        {
            proof {
                lemma_pair_is_mapped(self.pairs(), i as int);
            }
            match other.get(&self.entries[i].0) {
                Some(t) => {
                    if !(*t == self.entries[i].1) {
                        return false;
                    }
                },
                None => {
                    return false;
                },
            }
            i += 1;
        }
        proof {
            assert forall|k: Seq<char>| #[trigger] self@.dom().contains(k) implies other@.dom().contains(
                k,
            ) && self@[k] == other@[k] by {
                let j = crate::assoc::position_of(self.pairs(), k);
                lemma_pair_is_mapped(self.pairs(), j);
            }
        }
        true
    }

    /// Whether both maps resolve the same specifiers to the same targets.
    pub fn same_as(&self, other: &ImportMap) -> (b: bool)
        ensures
            b == (self@ == other@),
    {
        let b = self.within(other) && other.within(self);
        proof {
            if b {
                assert(self@ =~= other@);
            }
        }
        b
    }
}

impl Clone for ImportMap {
    fn clone(&self) -> (m: ImportMap)
        ensures
            m@ == self@,
    {
        proof {
            use_type_invariant(self);
        }
        let mut entries: Vec<(String, String)> = Vec::new();
        let mut i: usize = 0;
        while i < self.entries.len()
            invariant
                i <= self.entries.len(),
                entries.len() == i,
                forall|j: int|
                    0 <= j < i ==> (#[trigger] entries[j]).0@ == self.entries[j].0@ && entries[j].1@
                        == self.entries[j].1@,
            decreases self.entries.len() - i,
        {
            entries.push((self.entries[i].0.clone(), self.entries[i].1.clone()));
            i += 1;
        }
        assert(pairs_of(entries@) =~= self.pairs());
        ImportMap { entries }
    }
}

} // verus!
