//! The input store: raw source artifacts by key, and the revision clock
//! that every write advances.

use crate::assoc::{
    as_map, distinct_keys, has_key, lemma_absent_is_unmapped, lemma_empty_is_empty,
    lemma_pair_is_mapped, lemma_push_inserts, lemma_update_inserts,
};
use crate::error::{QueryError, QueryErrorView};
use crate::revision::Revision;
use vstd::prelude::*;

verus! {

/// One source artifact: its key, its bytes, and the revision at which the
/// bytes were written.
#[derive(Debug)]
pub struct InputEntry {
    pub key: String,
    pub content: Vec<u8>,
    pub revision: Revision,
}

/// What the store holds under one key, as plain values.
pub struct InputView {
    pub content: Seq<u8>,
    pub revision: nat,
}

impl View for InputEntry {
    type V = InputView;

    open spec fn view(&self) -> InputView {
        InputView { content: self.content@, revision: self.revision@ }
    }
}

/// The keys in `keys`, as plain sequences.
pub open spec fn keys_view(keys: Seq<String>) -> Seq<Seq<char>> {
    Seq::new(keys.len(), |i: int| keys[i]@)
}

/// Every key of `keys` is an input whose content was written at or before
/// the revision `at`.
pub open spec fn unchanged_since(
    inputs: Map<Seq<char>, InputView>,
    keys: Seq<Seq<char>>,
    at: nat,
) -> bool {
    forall|i: int|
        0 <= i < keys.len() ==> inputs.contains_key(#[trigger] keys[i]) && inputs[keys[i]].revision
            <= at
}

/// What a vector of entries holds, as pairs of key and content.
pub open spec fn pairs_of(entries: Seq<InputEntry>) -> Seq<(Seq<char>, InputView)> {
    Seq::new(entries.len(), |i: int| (entries[i].key@, entries[i]@))
}

/// The source artifacts of a session, and its revision clock. An entry is
/// created by the first write to its key, replaced by each later one, and
/// never removed.
#[derive(Debug)]
pub struct InputStore {
    entries: Vec<InputEntry>,
    clock: Revision,
}

impl InputStore {
    /// The entries in the order in which they are kept.
    pub closed spec fn pairs(&self) -> Seq<(Seq<char>, InputView)> {
        pairs_of(self.entries@)
    }

    /// What is stored under each key.
    pub closed spec fn contents(&self) -> Map<Seq<char>, InputView> {
        as_map(self.pairs())
    }

    /// What the revision clock shows.
    pub closed spec fn revision(&self) -> nat {
        self.clock@
    }

    #[verifier::type_invariant]
    spec fn well_formed(&self) -> bool {
        distinct_keys(self.pairs())
    }

    /// A store without inputs, at the start of the clock.
    pub fn new() -> (store: InputStore)
        ensures
            store.contents() == Map::<Seq<char>, InputView>::empty(),
            store.revision() == 0,
    {
        let store = InputStore { entries: Vec::new(), clock: Revision::start() };
        proof {
            lemma_empty_is_empty(store.pairs());
        }
        store
    }

    /// What the revision clock shows.
    pub fn current_revision(&self) -> (r: Revision)
        ensures
            r@ == self.revision(),
    {
        self.clock
    }

    fn position(&self, key: &String) -> (found: Option<usize>)
        ensures
            match found {
                Some(i) => i < self.pairs().len() && self.pairs()[i as int].0 == key@,
                None => !has_key(self.pairs(), key@),
            },
    {
        let mut i: usize = 0;
        while i < self.entries.len()
            invariant
                i <= self.entries.len(),
                forall|j: int| 0 <= j < i ==> (#[trigger] self.pairs()[j]).0 != key@,
            decreases self.entries.len() - i,
        {
            if self.entries[i].key == *key {
                return Some(i);
            }
            i += 1;
        }
        None
    }

    /// Stores `content` under `key`, advances the clock by one tick, and
    /// stamps the entry with the new revision.
    pub fn write(&mut self, key: String, content: Vec<u8>)
        requires
            old(self).revision() < Revision::limit(),
        ensures
            final(self).revision() == old(self).revision() + 1,
            final(self).contents() == old(self).contents().insert(
                key@,
                (InputView { content: content@, revision: old(self).revision() + 1 }),
            ),
    {
        proof {
            use_type_invariant(&*self);
        }
        let ghost before = self.pairs();
        let next = self.clock.next();
        let found = self.position(&key);
        let entry = InputEntry { key, content, revision: next };
        // The entries leave the store while they change, so that the store
        // never holds a key twice.
        let mut entries: Vec<InputEntry> = Vec::new();
        core::mem::swap(&mut self.entries, &mut entries);
        match found {
            Some(i) => {
                proof {
                    lemma_update_inserts(before, i as int, entry@);
                }
                entries.set(i, entry);
                assert(pairs_of(entries@) =~= before.update(i as int, (before[i as int].0, entry@)));
            },
            None => {
                proof {
                    lemma_push_inserts(before, entry.key@, entry@);
                }
                entries.push(entry);
                assert(pairs_of(entries@) =~= before.push((entry.key@, entry@)));
            },
        }
        core::mem::swap(&mut self.entries, &mut entries);
        self.clock = next;
    }

    /// The entry under `key`, if there is one.
    pub fn entry(&self, key: &String) -> (found: Option<&InputEntry>)
        ensures
            match found {
                Some(e) => self.contents().contains_key(key@) && e@ == self.contents()[key@]
                    && e.key@ == key@,
                None => !self.contents().contains_key(key@),
            },
    {
        proof {
            use_type_invariant(self);
        }
        match self.position(key) {
            Some(i) => {
                proof {
                    lemma_pair_is_mapped(self.pairs(), i as int);
                }
                Some(&self.entries[i])
            },
            None => {
                proof {
                    lemma_absent_is_unmapped(self.pairs(), key@);
                }
                None
            },
        }
    }

    /// The bytes stored under `key`. Reading a key that was never written
    /// is the caller's mistake, and is reported as `MissingInput`.
    pub fn read(&self, key: &String) -> (r: Result<&Vec<u8>, QueryError>)
        ensures
            match r {
                Ok(content) => self.contents().contains_key(key@) && content@
                    == self.contents()[key@].content,
                Err(e) => !self.contents().contains_key(key@) && e@ == QueryErrorView::MissingInput(
                    key@,
                ),
            },
    {
        match self.entry(key) {
            Some(e) => Ok(&e.content),
            None => Err(QueryError::MissingInput(key.clone())),
        }
    }

    /// Whether every key of `keys` is an input that has not been written
    /// since the revision `at`.
    pub fn unchanged_since(&self, keys: &Vec<String>, at: Revision) -> (b: bool)
        ensures
            b == unchanged_since(self.contents(), keys_view(keys@), at@),
    {
        let mut i: usize = 0;
        while i < keys.len()
            invariant
                i <= keys.len(),
                forall|j: int|
                    0 <= j < i ==> self.contents().contains_key(#[trigger] keys_view(keys@)[j])
                        && self.contents()[keys_view(keys@)[j]].revision <= at@,
            decreases keys.len() - i,
        {
            assert(keys_view(keys@)[i as int] == keys[i as int]@);
            match self.entry(&keys[i]) {
                Some(e) => {
                    if !e.revision.at_most(at) {
                        return false;
                    }
                },
                None => {
                    return false;
                },
            }
            i += 1;
        }
        true
    }
}

} // verus!
