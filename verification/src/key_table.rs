//! A table from structural keys to identifiers. It holds each key once, in
//! the order in which the keys were entered.

use vstd::prelude::*;

verus! {

/// Whether two word sequences are the same.
pub fn same_words(a: &Vec<u32>, b: &Vec<u32>) -> (same: bool)
    ensures
        same == (a@ == b@),
{
    if a.len() != b.len() {
        return false;
    }
    let mut i: usize = 0;
    while i < a.len()
        invariant
            i <= a.len(),
            a.len() == b.len(),
            forall|j: int| 0 <= j < i ==> a[j] == b[j],
        decreases a.len() - i,
    {
        if a[i] != b[i] {
            return false;
        }
        i += 1;
    }
    assert(a@ =~= b@);
    true
}

/// The identifier entered for each key. It stands in for a hash map keyed by
/// word sequences.
pub struct KeyTable {
    keys: Vec<Vec<u32>>,
    ids: Vec<u32>,
}

impl KeyTable {
    /// Every key has its identifier, and no key occurs twice.
    pub closed spec fn well_formed(&self) -> bool {
        &&& self.keys.len() == self.ids.len()
        &&& forall|i: int, j: int|
            0 <= i < j < self.keys.len() ==> self.keys[i]@ != self.keys[j]@
    }

    /// Where the table holds `key`.
    pub closed spec fn position(&self, key: Seq<u32>) -> int {
        choose|i: int| 0 <= i < self.keys.len() && self.keys[i]@ == key
    }

    /// Whether the table holds `key`.
    pub closed spec fn holds(&self, key: Seq<u32>) -> bool {
        exists|i: int| 0 <= i < self.keys.len() && self.keys[i]@ == key
    }

    /// An empty table.
    pub fn new() -> (table: KeyTable)
        ensures
            table.well_formed(),
            table@ == Map::<Seq<u32>, u32>::empty(),
    {
        let table = KeyTable { keys: Vec::new(), ids: Vec::new() };
        assert(table@ =~= Map::<Seq<u32>, u32>::empty());
        table
    }

    /// The identifier entered for `key`, if there is one.
    pub fn get(&self, key: &Vec<u32>) -> (found: Option<u32>)
        requires
            self.well_formed(),
        ensures
            found == if self@.contains_key(key@) {
                Some(self@[key@])
            } else {
                None::<u32>
            },
    {
        let mut i: usize = 0;
        while i < self.keys.len()
            invariant
                i <= self.keys.len(),
                self.well_formed(),
                forall|j: int| 0 <= j < i ==> self.keys[j]@ != key@,
            decreases self.keys.len() - i,
        {
            if same_words(&self.keys[i], key) {
                assert(self.holds(key@));
                assert(self.position(key@) == i);
                return Some(self.ids[i]);
            }
            i += 1;
        }
        assert(!self.holds(key@));
        None
    }

    /// Enters `id` for a key that the table does not hold yet.
    pub fn insert(&mut self, key: Vec<u32>, id: u32)
        requires
            old(self).well_formed(),
            !old(self)@.contains_key(key@),
        ensures
            final(self).well_formed(),
            final(self)@ == old(self)@.insert(key@, id),
    {
        let ghost before = *self;
        let ghost words = key@;
        self.keys.push(key);
        self.ids.push(id);
        assert(self.well_formed()) by {
            assert forall|i: int, j: int| 0 <= i < j < self.keys.len() implies self.keys[i]@
                != self.keys[j]@ by {
                if j == before.keys.len() {
                    assert(before.keys[i]@ == self.keys[i]@);
                    assert(before.holds(self.keys[i]@));
                }
            }
        }
        assert(self@ =~= before@.insert(words, id)) by {
            assert forall|k: Seq<u32>| #[trigger] self@.contains_key(k) <==> before@.insert(words, id).contains_key(k) by {
                if self.holds(k) {
                    let i = self.position(k);
                    if i < before.keys.len() {
                        assert(before.keys[i]@ == k);
                        assert(before.holds(k));
                    }
                }
                if before.holds(k) {
                    let i = before.position(k);
                    assert(self.keys[i]@ == k);
                }
                if k == words {
                    assert(self.keys[before.keys.len() as int]@ == k);
                }
            }
            assert forall|k: Seq<u32>| #[trigger] self@.contains_key(k) implies self@[k] == before@.insert(words, id)[k] by {
                let i = self.position(k);
                if k == words {
                    assert(self.keys[before.keys.len() as int]@ == k);
                    assert(i == before.keys.len());
                } else {
                    assert(before.keys[i]@ == k);
                    assert(before.holds(k));
                    let j = before.position(k);
                    assert(self.keys[j]@ == k);
                    assert(i == j);
                }
            }
        }
    }
}

impl View for KeyTable {
    type V = Map<Seq<u32>, u32>;

    closed spec fn view(&self) -> Map<Seq<u32>, u32> {
        Map::new(|key: Seq<u32>| self.holds(key), |key: Seq<u32>| self.ids[self.position(key)])
    }
}

} // verus!
