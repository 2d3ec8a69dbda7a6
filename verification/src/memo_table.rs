//! The memoization table: the cached result of each derivation call, with
//! the revision at which it was last found valid and the inputs it read.

use crate::assoc::{
    as_map, distinct_keys, has_key, lemma_absent_is_unmapped, lemma_empty_is_empty,
    lemma_pair_is_mapped, lemma_push_inserts, lemma_update_inserts,
};
use crate::input_store::keys_view;
use crate::query_key::{QueryKey, QueryKeyView};
use crate::revision::Revision;
use vstd::prelude::*;

verus! {

/// The cached result of one derivation call.
#[derive(Debug)]
pub struct MemoEntry {
    /// The call whose result this is.
    pub query_key: QueryKey,
    /// The compiled output.
    pub value: String,
    /// The latest revision at which the value was computed or found valid.
    pub verified_at: Revision,
    /// The keys of the inputs that were read while the value was
    /// computed, in the order of the reads.
    pub dependencies: Vec<String>,
}

/// A memo entry as plain values, without its query key.
pub struct MemoView {
    pub value: Seq<char>,
    pub verified_at: nat,
    pub dependencies: Seq<Seq<char>>,
}

impl View for MemoEntry {
    type V = MemoView;

    open spec fn view(&self) -> MemoView {
        MemoView {
            value: self.value@,
            verified_at: self.verified_at@,
            dependencies: keys_view(self.dependencies@),
        }
    }
}

/// What a vector of entries holds, as pairs of query key and entry.
pub open spec fn pairs_of(entries: Seq<MemoEntry>) -> Seq<(QueryKeyView, MemoView)> {
    Seq::new(entries.len(), |i: int| (entries[i].query_key@, entries[i]@))
}

/// A mapping from query key to memo entry. Keys are compared by what they
/// name, so that a query whose import map was built in another order finds
/// the same entry.
#[derive(Debug)]
pub struct MemoTable {
    entries: Vec<MemoEntry>,
}

impl View for MemoTable {
    type V = Map<QueryKeyView, MemoView>;

    closed spec fn view(&self) -> Map<QueryKeyView, MemoView> {
        as_map(self.pairs())
    }
}

impl MemoTable {
    /// The entries in the order in which they are kept.
    pub closed spec fn pairs(&self) -> Seq<(QueryKeyView, MemoView)> {
        pairs_of(self.entries@)
    }

    #[verifier::type_invariant]
    spec fn well_formed(&self) -> bool {
        distinct_keys(self.pairs())
    }

    /// A table without entries.
    pub fn new() -> (table: MemoTable)
        ensures
            table@ == Map::<QueryKeyView, MemoView>::empty(),
    {
        let table = MemoTable { entries: Vec::new() };
        proof {
            lemma_empty_is_empty(table.pairs());
        }
        table
    }

    fn position(&self, query_key: &QueryKey) -> (found: Option<usize>)
        ensures
            match found {
                Some(i) => i < self.pairs().len() && self.pairs()[i as int].0 == query_key@,
                None => !has_key(self.pairs(), query_key@),
            },
    {
        let mut i: usize = 0;
        while i < self.entries.len()
            invariant
                i <= self.entries.len(),
                forall|j: int| 0 <= j < i ==> (#[trigger] self.pairs()[j]).0 != query_key@,
            decreases self.entries.len() - i,
        {
            if self.entries[i].query_key.same_as(query_key) {
                return Some(i);
            }
            i += 1;
        }
        None
    }

    /// The entry cached for `query_key`, if there is one.
    pub fn get(&self, query_key: &QueryKey) -> (found: Option<&MemoEntry>)
        ensures
            match found {
                Some(e) => self@.contains_key(query_key@) && e@ == self@[query_key@]
                    && e.query_key@ == query_key@,
                None => !self@.contains_key(query_key@),
            },
    {
        proof {
            use_type_invariant(self);
        }
        match self.position(query_key) {
            Some(i) => {
                proof {
                    lemma_pair_is_mapped(self.pairs(), i as int);
                }
                Some(&self.entries[i])
            },
            None => {
                proof {
                    lemma_absent_is_unmapped(self.pairs(), query_key@);
                }
                None
            },
        }
    }

    /// Caches `entry` for its query key, in place of what was cached for
    /// that key before.
    pub fn put(&mut self, entry: MemoEntry)
        ensures
            final(self)@ == old(self)@.insert(entry.query_key@, entry@),
    {
        proof {
            use_type_invariant(&*self);
        }
        let ghost before = self.pairs();
        let found = self.position(&entry.query_key);
        // The entries leave the table while they change, so that the table
        // never holds a key twice.
        let mut entries: Vec<MemoEntry> = Vec::new();
        core::mem::swap(&mut self.entries, &mut entries);
        match found {
            Some(i) => {
                proof {
                    lemma_update_inserts(before, i as int, entry@);
                }
                entries.set(i, entry);
                assert(pairs_of(entries@) =~= before.update(i as int, (before[i as int].0, entry@)));
            },
            None => {
                proof {
                    lemma_push_inserts(before, entry.query_key@, entry@);
                }
                entries.push(entry);
                assert(pairs_of(entries@) =~= before.push((entry.query_key@, entry@)));
            },
        }
        core::mem::swap(&mut self.entries, &mut entries);
    }

    /// Marks the entry of `query_key` as found valid at the revision `at`.
    /// The value and the dependencies stay; a key without an entry gets
    /// none.
    pub fn mark_verified(&mut self, query_key: &QueryKey, at: Revision)
        ensures
            old(self)@.contains_key(query_key@) ==> final(self)@ == old(self)@.insert(
                query_key@,
                (MemoView { verified_at: at@, ..old(self)@[query_key@] }),
            ),
            !old(self)@.contains_key(query_key@) ==> final(self)@ == old(self)@,
    {
        proof {
            use_type_invariant(&*self);
        }
        let ghost before = self.pairs();
        match self.position(query_key) {
            Some(i) => {
                let ghost marked = MemoView { verified_at: at@, ..before[i as int].1 };
                proof {
                    lemma_pair_is_mapped(before, i as int);
                    lemma_update_inserts(before, i as int, marked);
                }
                let mut entries: Vec<MemoEntry> = Vec::new();
                core::mem::swap(&mut self.entries, &mut entries);
                let mut entry = entries.remove(i);
                entry.verified_at = at;
                entries.insert(i, entry);
                assert(pairs_of(entries@) =~= before.update(i as int, (before[i as int].0, marked)));
                core::mem::swap(&mut self.entries, &mut entries);
            },
            None => {
                proof {
                    lemma_absent_is_unmapped(before, query_key@);
                }
            },
        }
    }

    /// Forgets every entry.
    pub fn invalidate_all(&mut self)
        ensures
            final(self)@ == Map::<QueryKeyView, MemoView>::empty(),
    {
        let mut entries: Vec<MemoEntry> = Vec::new();
        core::mem::swap(&mut self.entries, &mut entries);
        proof {
            lemma_empty_is_empty(self.pairs());
        }
    }
}

} // verus!
