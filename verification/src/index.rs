//! The list of the keys under which an unsolved puzzle is filed.

use vstd::prelude::*;

use crate::board::{lemma_push_new, lemma_without, without};
use crate::keys::{keys_view, same_key};

verus! {

/// A list of keys in which no key stands twice. A key that leaves is
/// replaced by the last one, so the order is that of arrival only as long as
/// nothing has left.
pub struct UnsolvedIndex {
    keys: Vec<Vec<u8>>,
}

impl View for UnsolvedIndex {
    type V = Seq<Seq<u8>>;

    closed spec fn view(&self) -> Seq<Seq<u8>> {
        keys_view(self.keys@)
    }
}

impl UnsolvedIndex {
    #[verifier::type_invariant]
    spec fn distinct(self) -> bool {
        keys_view(self.keys@).no_duplicates()
    }

    /// The empty list.
    pub fn new() -> (index: Self)
        ensures
            index@ == Seq::<Seq<u8>>::empty(),
    {
        let index = UnsolvedIndex { keys: Vec::new() };
        assert(index@ =~= Seq::<Seq<u8>>::empty());
        index
    }

    /// Where `key` stands in the list, if it does.
    fn position(&self, key: &Vec<u8>) -> (at: Option<usize>)
        ensures
            self@.no_duplicates(),
            match at {
                Some(i) => i < self@.len() && self@[i as int] == key@,
                None => !self@.contains(key@),
            },
    {
        proof {
            use_type_invariant(self);
        }
        let mut i: usize = 0;
        while i < self.keys.len()
            invariant
                i <= self.keys.len(),
                self@.no_duplicates(),
                forall|j: int| 0 <= j < i ==> self@[j] != key@,
            decreases self.keys.len() - i,
        {
            if same_key(&self.keys[i], key) {
                return Some(i);
            }
            i += 1;
        }
        None
    }

    /// Whether `key` is listed.
    pub fn contains(&self, key: &Vec<u8>) -> (found: bool)
        ensures
            found == self@.contains(key@),
    {
        self.position(key).is_some()
    }

    /// Lists `key` behind the others, unless it is listed already. Returns
    /// whether it was added.
    pub fn insert(&mut self, key: Vec<u8>) -> (added: bool)
        ensures
            old(self)@.no_duplicates(),
            final(self)@.no_duplicates(),
            added == !old(self)@.contains(key@),
            final(self)@ == if added {
                old(self)@.push(key@)
            } else {
                old(self)@
            },
    {
        match self.position(&key) {
            Some(_) => false,
            None => {
                proof {
                    let before = keys_view(self.keys@);
                    assert(keys_view(self.keys@.push(key)) =~= before.push(key@));
                    lemma_push_new(before, key@);
                }
                let mut keys: Vec<Vec<u8>> = Vec::new();
                core::mem::swap(&mut keys, &mut self.keys);
                keys.push(key);
                self.keys = keys;
                true
            },
        }
    }

    /// Takes `key` off the list and puts the last key in its place. Returns
    /// whether it was listed.
    pub fn remove(&mut self, key: &Vec<u8>) -> (removed: bool)
        ensures
            old(self)@.no_duplicates(),
            final(self)@.no_duplicates(),
            removed == old(self)@.contains(key@),
            final(self)@ == without(old(self)@, key@),
    {
        match self.position(key) {
            None => false,
            Some(i) => {
                proof {
                    let before = keys_view(self.keys@);
                    let after = keys_view(self.keys@.update(i as int, self.keys@.last()).drop_last());
                    assert(before.contains(key@));
                    assert(before.index_of(key@) == i as int);
                    assert(after =~= without(before, key@));
                    lemma_without(before, key@);
                }
                let mut keys: Vec<Vec<u8>> = Vec::new();
                core::mem::swap(&mut keys, &mut self.keys);
                keys.swap_remove(i);
                self.keys = keys;
                true
            },
        }
    }

    /// The keys on the list, in order.
    pub fn to_vec(&self) -> (keys: Vec<Vec<u8>>)
        ensures
            self@.no_duplicates(),
            keys_view(keys@) == self@,
    {
        proof {
            use_type_invariant(self);
        }
        let mut keys: Vec<Vec<u8>> = Vec::new();
        let mut i: usize = 0;
        while i < self.keys.len()
            invariant
                i <= self.keys.len(),
                keys.len() == i,
                forall|j: int| 0 <= j < i ==> keys[j]@ == self.keys[j]@,
            decreases self.keys.len() - i,
        {
            keys.push(self.keys[i].clone());
            i += 1;
        }
        assert(keys_view(keys@) =~= self@);
        keys
    }
}

} // verus!
