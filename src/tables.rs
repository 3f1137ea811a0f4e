use vstd::prelude::*;
use crate::types::AccountId;

verus! {

/// Counters keyed by identity, held as a list with one entry per identity.
pub struct HoldingTable {
    entries: Vec<(AccountId, i32)>,
    model: Ghost<Map<Seq<u8>, int>>,
}

impl View for HoldingTable {
    type V = Map<Seq<u8>, int>;

    closed spec fn view(&self) -> Map<Seq<u8>, int> {
        self.model@
    }
}

impl HoldingTable {
    pub closed spec fn wf(&self) -> bool {
        &&& forall|i: int|
            0 <= i < self.entries@.len() ==> #[trigger] self.model@.contains_key(
                self.entries@[i].0@,
            ) && self.model@[self.entries@[i].0@] == self.entries@[i].1 as int
        &&& forall|k: Seq<u8>| #[trigger]
            self.model@.contains_key(k) ==> exists|i: int|
                0 <= i < self.entries@.len() && #[trigger] self.entries@[i].0@ == k
        &&& forall|i: int, j: int|
            0 <= i < j < self.entries@.len() ==> #[trigger] self.entries@[i].0@
                != #[trigger] self.entries@[j].0@
    }

    pub fn new() -> (r: HoldingTable)
        ensures
            r.wf(),
            r@ == Map::<Seq<u8>, int>::empty(),
    {
        HoldingTable { entries: Vec::new(), model: Ghost(Map::empty()) }
    }

    fn find(&self, who: &AccountId) -> (r: Option<usize>)
        requires
            self.wf(),
        ensures
            match r {
                Some(i) => i < self.entries@.len() && self.entries@[i as int].0@ == who@,
                None => !self@.contains_key(who@),
            },
    {
        let mut i: usize = 0;
        while i < self.entries.len()
            invariant
                0 <= i <= self.entries@.len(),
                forall|k: int| 0 <= k < i ==> self.entries@[k].0@ != who@,
            decreases self.entries@.len() - i,
        {
            if self.entries[i].0.same_as(who) {
                return Some(i);
            }
            i = i + 1;
        }
        None
    }

    /// The counter of `who`, zero when it has none.
    pub fn get(&self, who: &AccountId) -> (r: i32)
        requires
            self.wf(),
        ensures
            r as int == (if self@.contains_key(who@) {
                self@[who@]
            } else {
                0
            }),
    {
        match self.find(who) {
            Some(i) => self.entries[i].1,
            None => 0,
        }
    }

    /// Sets the counter of `who` to `value`.
    pub fn set(&mut self, who: AccountId, value: i32)
        requires
            old(self).wf(),
        ensures
            final(self).wf(),
            final(self)@ == old(self)@.insert(who@, value as int),
    {
        let ghost old_entries = self.entries@;
        let ghost mut pos: int = 0;
        match self.find(&who) {
            Some(i) => {
                proof {
                    pos = i as int;
                }
                self.entries.set(i, (who, value));
                assert forall|k: int| 0 <= k < self.entries@.len() && k != i implies
                    self.entries@[k] == old_entries[k] by {}
            },
            None => {
                proof {
                    pos = self.entries@.len() as int;
                }
                self.entries.push((who, value));
            },
        }
        self.model = Ghost(self.model@.insert(who@, value as int));
        assert forall|k: Seq<u8>| #[trigger] self.model@.contains_key(k) implies exists|i: int|
            0 <= i < self.entries@.len() && #[trigger] self.entries@[i].0@ == k by {
            if k != who@ {
                let j = choose|j: int| 0 <= j < old_entries.len() && #[trigger] old_entries[j].0@ == k;
                assert(self.entries@[j].0@ == k);
            } else {
                assert(self.entries@[pos].0@ == k);
            }
        }
    }
}

/// The identity behind each name, held as a list with one entry per name.
pub struct NameTable {
    entries: Vec<(String, AccountId)>,
    model: Ghost<Map<Seq<char>, Seq<u8>>>,
}

impl View for NameTable {
    type V = Map<Seq<char>, Seq<u8>>;

    closed spec fn view(&self) -> Map<Seq<char>, Seq<u8>> {
        self.model@
    }
}

impl NameTable {
    pub closed spec fn wf(&self) -> bool {
        &&& forall|i: int|
            0 <= i < self.entries@.len() ==> #[trigger] self.model@.contains_key(
                self.entries@[i].0@,
            ) && self.model@[self.entries@[i].0@] == self.entries@[i].1@
        &&& forall|k: Seq<char>| #[trigger]
            self.model@.contains_key(k) ==> exists|i: int|
                0 <= i < self.entries@.len() && #[trigger] self.entries@[i].0@ == k
    }

    pub fn new() -> (r: NameTable)
        ensures
            r.wf(),
            r@ == Map::<Seq<char>, Seq<u8>>::empty(),
    {
        NameTable { entries: Vec::new(), model: Ghost(Map::empty()) }
    }

    /// Whether `name` has an entry.
    pub fn contains(&self, name: &String) -> (r: bool)
        requires
            self.wf(),
        ensures
            r == self@.contains_key(name@),
    {
        let mut i: usize = 0;
        while i < self.entries.len()
            invariant
                self.wf(),
                0 <= i <= self.entries@.len(),
                forall|k: int| 0 <= k < i ==> self.entries@[k].0@ != name@,
            decreases self.entries@.len() - i,
        {
            if self.entries[i].0 == *name {
                proof {
                    assert(self.model@.contains_key(self.entries@[i as int].0@));
                }
                return true;
            }
            i = i + 1;
        }
        false
    }

    /// Adds an entry for a name that has none.
    pub fn insert(&mut self, name: String, who: AccountId)
        requires
            old(self).wf(),
            !old(self)@.contains_key(name@),
        ensures
            final(self).wf(),
            final(self)@ == old(self)@.insert(name@, who@),
    {
        let ghost old_entries = self.entries@;
        let ghost key = name@;
        self.entries.push((name, who));
        self.model = Ghost(self.model@.insert(key, who@));
        assert forall|k: Seq<char>| #[trigger] self.model@.contains_key(k) implies exists|i: int|
            0 <= i < self.entries@.len() && #[trigger] self.entries@[i].0@ == k by {
            if k != key {
                let j = choose|j: int| 0 <= j < old_entries.len() && #[trigger] old_entries[j].0@ == k;
                assert(self.entries@[j].0@ == k);
            } else {
                assert(self.entries@[old_entries.len() as int].0@ == k);
            }
        }
    }
}

} // verus!
