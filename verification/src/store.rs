//! The puzzles on file, each under the key that its solution gives.

use vstd::prelude::*;

use crate::board::lemma_push_new;
use crate::keys::{keys_view, same_key};
use crate::puzzle::{Puzzle, PuzzleView};

verus! {

/// A puzzle and the key it is filed under.
struct Entry {
    key: Vec<u8>,
    puzzle: Puzzle,
}

/// The keys of a list of entries, in the same order.
spec fn entry_keys(entries: Seq<Entry>) -> Seq<Seq<u8>> {
    entries.map_values(|e: Entry| e.key@)
}

/// What a list of entries files under which key, where no key stands twice.
spec fn filed(entries: Seq<Entry>) -> Map<Seq<u8>, PuzzleView> {
    Map::new(
        |key: Seq<u8>| entry_keys(entries).contains(key),
        |key: Seq<u8>| entries[entry_keys(entries).index_of(key)].puzzle@,
    )
}

/// An entry is found under its own key.
proof fn lemma_filed_at(entries: Seq<Entry>, i: int)
    requires
        entry_keys(entries).no_duplicates(),
        0 <= i < entries.len(),
    ensures
        filed(entries).contains_key(entries[i].key@),
        filed(entries)[entries[i].key@] == entries[i].puzzle@,
{
    let keys = entry_keys(entries);
    assert(keys[i] == entries[i].key@);
    assert(keys.contains(entries[i].key@));
    assert(keys.index_of(entries[i].key@) == i);
}

/// An entry under a new key adds that key and leaves the rest alone.
proof fn lemma_filed_push(entries: Seq<Entry>, entry: Entry)
    requires
        entry_keys(entries).no_duplicates(),
        !entry_keys(entries).contains(entry.key@),
    ensures
        entry_keys(entries.push(entry)).no_duplicates(),
        filed(entries.push(entry)) == filed(entries).insert(entry.key@, entry.puzzle@),
{
    let keys = entry_keys(entries);
    let more = entries.push(entry);
    let more_keys = entry_keys(more);
    assert(more_keys =~= keys.push(entry.key@));
    lemma_push_new(keys, entry.key@);
    let wanted = filed(entries).insert(entry.key@, entry.puzzle@);
    assert forall|key: Seq<u8>| filed(more).contains_key(key) implies filed(more)[key]
        == wanted[key] by {
        let i = more_keys.index_of(key);
        lemma_filed_at(more, i);
        if i < keys.len() {
            lemma_filed_at(entries, i);
        }
    }
    assert(filed(more) =~= wanted);
}

/// A new entry in the place of one with the same key changes what is filed
/// under that key and leaves the rest alone.
proof fn lemma_filed_update(entries: Seq<Entry>, i: int, entry: Entry)
    requires
        entry_keys(entries).no_duplicates(),
        0 <= i < entries.len(),
        entry.key@ == entries[i].key@,
    ensures
        entry_keys(entries.update(i, entry)).no_duplicates(),
        filed(entries.update(i, entry)) == filed(entries).insert(entry.key@, entry.puzzle@),
{
    let keys = entry_keys(entries);
    let changed = entries.update(i, entry);
    assert(entry_keys(changed) =~= keys);
    let wanted = filed(entries).insert(entry.key@, entry.puzzle@);
    lemma_filed_at(entries, i);
    assert forall|key: Seq<u8>| filed(changed).contains_key(key) implies filed(changed)[key]
        == wanted[key] by {
        assert(keys.contains(key));
        let j = keys.index_of(key);
        assert(keys[j] == key && keys[i] == entries[i].key@);
        assert(entry_keys(changed)[j] == changed[j].key@);
        lemma_filed_at(changed, j);
        lemma_filed_at(entries, j);
        if key == entry.key@ {
            assert(j == i);
        } else {
            assert(changed[j] == entries[j]);
        }
    }
    assert(filed(changed) =~= wanted);
}

/// A map from keys to puzzles.
pub struct PuzzleStore {
    entries: Vec<Entry>,
}

impl View for PuzzleStore {
    type V = Map<Seq<u8>, PuzzleView>;

    closed spec fn view(&self) -> Map<Seq<u8>, PuzzleView> {
        filed(self.entries@)
    }
}

impl PuzzleStore {
    #[verifier::type_invariant]
    spec fn distinct(self) -> bool {
        entry_keys(self.entries@).no_duplicates()
    }

    /// The store with nothing on file.
    pub fn new() -> (store: Self)
        ensures
            store@ == Map::<Seq<u8>, PuzzleView>::empty(),
    {
        let store = PuzzleStore { entries: Vec::new() };
        assert(store@ =~= Map::<Seq<u8>, PuzzleView>::empty());
        store
    }

    /// Where the entry for `key` stands, if there is one.
    fn position(&self, key: &Vec<u8>) -> (at: Option<usize>)
        ensures
            entry_keys(self.entries@).no_duplicates(),
            match at {
                Some(i) => i < self.entries.len() && self.entries[i as int].key@ == key@,
                None => !self@.contains_key(key@),
            },
    {
        proof {
            use_type_invariant(self);
        }
        let mut i: usize = 0;
        while i < self.entries.len()
            invariant
                i <= self.entries.len(),
                entry_keys(self.entries@).no_duplicates(),
                forall|j: int| 0 <= j < i ==> entry_keys(self.entries@)[j] != key@,
            decreases self.entries.len() - i,
        {
            if same_key(&self.entries[i].key, key) {
                return Some(i);
            }
            i += 1;
        }
        None
    }

    /// The puzzle filed under `key`, if there is one.
    pub fn get(&self, key: &Vec<u8>) -> (found: Option<&Puzzle>)
        ensures
            match found {
                Some(puzzle) => self@.contains_key(key@) && self@[key@] == puzzle@,
                None => !self@.contains_key(key@),
            },
    {
        match self.position(key) {
            Some(i) => {
                proof {
                    lemma_filed_at(self.entries@, i as int);
                }
                Some(&self.entries[i].puzzle)
            },
            None => None,
        }
    }

    /// Files `puzzle` under `key`, in the place of what was filed there.
    /// Returns what was filed there before.
    pub fn insert(&mut self, key: Vec<u8>, puzzle: Puzzle) -> (before: Option<Puzzle>)
        ensures
            final(self)@ == old(self)@.insert(key@, puzzle@),
            match before {
                Some(previous) => old(self)@.contains_key(key@) && old(self)@[key@] == previous@,
                None => !old(self)@.contains_key(key@),
            },
    {
        let at = self.position(&key);
        let entry = Entry { key, puzzle };
        let mut entries: Vec<Entry> = Vec::new();
        core::mem::swap(&mut entries, &mut self.entries);
        let ghost filed_before = entries@;
        entries.push(entry);
        let before = match at {
            Some(i) => {
                proof {
                    lemma_filed_at(filed_before, i as int);
                    lemma_filed_update(filed_before, i as int, entry);
                }
                let previous = entries.swap_remove(i);
                assert(entries@ =~= filed_before.update(i as int, entry));
                Some(previous.puzzle)
            },
            None => {
                proof {
                    lemma_filed_push(filed_before, entry);
                }
                None
            },
        };
        self.entries = entries;
        before
    }

    /// The keys under which something is filed, each once.
    pub fn keys(&self) -> (keys: Vec<Vec<u8>>)
        ensures
            keys_view(keys@).no_duplicates(),
            forall|key: Seq<u8>| #[trigger] keys_view(keys@).contains(key) <==> self@.contains_key(key),
    {
        proof {
            use_type_invariant(self);
        }
        let mut keys: Vec<Vec<u8>> = Vec::new();
        let mut i: usize = 0;
        while i < self.entries.len()
            invariant
                i <= self.entries.len(),
                keys.len() == i,
                forall|j: int| 0 <= j < i ==> keys[j]@ == self.entries[j].key@,
            decreases self.entries.len() - i,
        {
            keys.push(self.entries[i].key.clone());
            i += 1;
        }
        assert(keys_view(keys@) =~= entry_keys(self.entries@));
        keys
    }
}

} // verus!
