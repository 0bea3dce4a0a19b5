use vstd::prelude::*;
use crate::types::Address;

verus! {

/// A finite map keyed by [`Address`], held as a vector of entries with
/// distinct keys.
pub struct AddressTable<V> {
    entries: Vec<(Address, V)>,
    map: Ghost<Map<Address, V>>,
}

impl<V> View for AddressTable<V> {
    type V = Map<Address, V>;

    closed spec fn view(&self) -> Map<Address, V> {
        self.map@
    }
}

impl<V> AddressTable<V> {
    /// The entries and the map agree, and no key occurs twice.
    pub closed spec fn wf(&self) -> bool {
        &&& self.map@.dom().finite()
        &&& forall|i: int|
            0 <= i < self.entries@.len() ==> {
                &&& #[trigger] self.map@.contains_key(self.entries@[i].0)
                &&& self.map@[self.entries@[i].0] == self.entries@[i].1
            }
        &&& forall|i: int, j: int|
            0 <= i < self.entries@.len() && 0 <= j < self.entries@.len() && i != j
                ==> #[trigger] self.entries@[i].0 != #[trigger] self.entries@[j].0
        &&& forall|k: Address|
            #[trigger] self.map@.contains_key(k) ==> exists|i: int|
                0 <= i < self.entries@.len() && #[trigger] self.entries@[i].0 == k
    }

    pub fn new() -> (r: Self)
        ensures
            r.wf(),
            r@ == Map::<Address, V>::empty(),
    {
        AddressTable { entries: Vec::new(), map: Ghost(Map::empty()) }
    }

    fn index_of(&self, key: &Address) -> (r: Option<usize>)
        requires
            self.wf(),
        ensures
            match r {
                Some(i) => i < self.entries@.len() && self.entries@[i as int].0 == *key,
                None => !self@.contains_key(*key),
            },
    {
        let mut i: usize = 0;
        while i < self.entries.len()
            invariant
                self.wf(),
                i <= self.entries@.len(),
                forall|j: int| 0 <= j < i ==> self.entries@[j].0 != *key,
            decreases self.entries@.len() - i,
        {
            if self.entries[i].0 == *key {
                return Some(i);
            }
            i += 1;
        }
        None
    }

    /// Whether `key` has an entry.
    pub fn contains(&self, key: &Address) -> (r: bool)
        requires
            self.wf(),
        ensures
            r == self@.contains_key(*key),
    {
        self.index_of(key).is_some()
    }

    /// The value stored under `key`, if any.
    pub fn get(&self, key: &Address) -> (r: Option<&V>)
        requires
            self.wf(),
        ensures
            match r {
                Some(v) => self@.contains_key(*key) && *v == self@[*key],
                None => !self@.contains_key(*key),
            },
    {
        match self.index_of(key) {
            Some(i) => {
                assert(self.map@.contains_key(self.entries@[i as int].0));
                Some(&self.entries[i].1)
            },
            None => None,
        }
    }

    /// Stores `value` under `key`, replacing what was there.
    pub fn set(&mut self, key: Address, value: V)
        requires
            old(self).wf(),
        ensures
            final(self).wf(),
            final(self)@ == old(self)@.insert(key, value),
    {
        let ghost old_map = self.map@;
        match self.index_of(&key) {
            Some(i) => {
                let ghost old_entries = self.entries@;
                self.entries.set(i, (key, value));
                self.map = Ghost(old_map.insert(key, value));
                assert forall|j: int| 0 <= j < self.entries@.len() implies {
                    &&& #[trigger] self.map@.contains_key(self.entries@[j].0)
                    &&& self.map@[self.entries@[j].0] == self.entries@[j].1
                } by {
                    if j != i {
                        assert(old_map.contains_key(old_entries[j].0));
                    }
                }
                assert forall|k: Address| #[trigger] self.map@.contains_key(k) implies exists|j: int|
                    0 <= j < self.entries@.len() && #[trigger] self.entries@[j].0 == k by {
                    if k == key {
                        assert(self.entries@[i as int].0 == k);
                    } else {
                        assert(old_map.contains_key(k));
                        let j = choose|j: int| 0 <= j < old_entries.len() && #[trigger] old_entries[j].0 == k;
                        assert(self.entries@[j].0 == k);
                    }
                }
            },
            None => {
                let ghost old_entries = self.entries@;
                self.entries.push((key, value));
                self.map = Ghost(old_map.insert(key, value));
                let ghost n = old_entries.len() as int;
                assert(self.entries@[n].0 == key);
                assert forall|j: int| 0 <= j < self.entries@.len() implies {
                    &&& #[trigger] self.map@.contains_key(self.entries@[j].0)
                    &&& self.map@[self.entries@[j].0] == self.entries@[j].1
                } by {
                    if j != n {
                        assert(old_map.contains_key(old_entries[j].0));
                    }
                }
                assert forall|j: int, l: int|
                    0 <= j < self.entries@.len() && 0 <= l < self.entries@.len() && j != l
                        implies #[trigger] self.entries@[j].0 != #[trigger] self.entries@[l].0 by {
                    if j == n {
                        assert(old_map.contains_key(old_entries[l].0));
                    } else if l == n {
                        assert(old_map.contains_key(old_entries[j].0));
                    }
                }
                assert forall|k: Address| #[trigger] self.map@.contains_key(k) implies exists|j: int|
                    0 <= j < self.entries@.len() && #[trigger] self.entries@[j].0 == k by {
                    if k != key {
                        assert(old_map.contains_key(k));
                        let j = choose|j: int| 0 <= j < old_entries.len() && #[trigger] old_entries[j].0 == k;
                        assert(self.entries@[j].0 == k);
                    }
                }
            },
        }
    }

    /// Removes the entry of `key` and hands back its value, if there was one.
    pub fn take(&mut self, key: &Address) -> (r: Option<V>)
        requires
            old(self).wf(),
        ensures
            final(self).wf(),
            final(self)@ == old(self)@.remove(*key),
            match r {
                Some(v) => old(self)@.contains_key(*key) && v == old(self)@[*key],
                None => !old(self)@.contains_key(*key),
            },
    {
        let ghost old_map = self.map@;
        let ghost old_entries = self.entries@;
        match self.index_of(key) {
            Some(i) => {
                assert(old_map.contains_key(old_entries[i as int].0));
                let (_, v) = self.entries.remove(i);
                self.map = Ghost(old_map.remove(*key));
                assert forall|j: int| 0 <= j < self.entries@.len() implies {
                    &&& #[trigger] self.map@.contains_key(self.entries@[j].0)
                    &&& self.map@[self.entries@[j].0] == self.entries@[j].1
                } by {
                    if j < i {
                        assert(old_map.contains_key(old_entries[j].0));
                        assert(old_entries[j].0 != old_entries[i as int].0);
                    } else {
                        assert(old_map.contains_key(old_entries[j + 1].0));
                        assert(old_entries[j + 1].0 != old_entries[i as int].0);
                    }
                }
                assert forall|j: int, l: int|
                    0 <= j < self.entries@.len() && 0 <= l < self.entries@.len() && j != l
                        implies #[trigger] self.entries@[j].0 != #[trigger] self.entries@[l].0 by {
                    let jj = if j < i { j } else { j + 1 };
                    let ll = if l < i { l } else { l + 1 };
                    assert(old_entries[jj].0 != old_entries[ll].0);
                }
                assert forall|k: Address| #[trigger] self.map@.contains_key(k) implies exists|j: int|
                    0 <= j < self.entries@.len() && #[trigger] self.entries@[j].0 == k by {
                    assert(old_map.contains_key(k));
                    let j = choose|j: int| 0 <= j < old_entries.len() && #[trigger] old_entries[j].0 == k;
                    if j < i {
                        assert(self.entries@[j].0 == k);
                    } else {
                        assert(j != i);
                        assert(self.entries@[j - 1].0 == k);
                    }
                }
                Some(v)
            },
            None => {
                assert(old_map.remove(*key) =~= old_map);
                None
            },
        }
    }
}

/// A finite set of address pairs, held as a vector without repetitions.
pub struct PairSet {
    pairs: Vec<(Address, Address)>,
    set: Ghost<Set<(Address, Address)>>,
}

impl View for PairSet {
    type V = Set<(Address, Address)>;

    closed spec fn view(&self) -> Set<(Address, Address)> {
        self.set@
    }
}

impl PairSet {
    pub closed spec fn wf(&self) -> bool {
        &&& forall|i: int| 0 <= i < self.pairs@.len() ==> #[trigger] self.set@.contains(self.pairs@[i])
        &&& forall|i: int, j: int|
            0 <= i < self.pairs@.len() && 0 <= j < self.pairs@.len() && i != j
                ==> #[trigger] self.pairs@[i] != #[trigger] self.pairs@[j]
        &&& forall|p: (Address, Address)|
            #[trigger] self.set@.contains(p) ==> exists|i: int|
                0 <= i < self.pairs@.len() && #[trigger] self.pairs@[i] == p
    }

    pub fn new() -> (r: Self)
        ensures
            r.wf(),
            r@ == Set::<(Address, Address)>::empty(),
    {
        PairSet { pairs: Vec::new(), set: Ghost(Set::empty()) }
    }

    fn index_of(&self, a: &Address, b: &Address) -> (r: Option<usize>)
        requires
            self.wf(),
        ensures
            match r {
                Some(i) => i < self.pairs@.len() && self.pairs@[i as int] == (*a, *b),
                None => !self@.contains((*a, *b)),
            },
    {
        let mut i: usize = 0;
        while i < self.pairs.len()
            invariant
                self.wf(),
                i <= self.pairs@.len(),
                forall|j: int| 0 <= j < i ==> self.pairs@[j] != (*a, *b),
            decreases self.pairs@.len() - i,
        {
            if self.pairs[i].0 == *a && self.pairs[i].1 == *b {
                return Some(i);
            }
            i += 1;
        }
        None
    }

    /// Whether the pair is present.
    pub fn contains(&self, a: &Address, b: &Address) -> (r: bool)
        requires
            self.wf(),
        ensures
            r == self@.contains((*a, *b)),
    {
        self.index_of(a, b).is_some()
    }

    /// Adds the pair.
    pub fn insert(&mut self, a: Address, b: Address)
        requires
            old(self).wf(),
        ensures
            final(self).wf(),
            final(self)@ == old(self)@.insert((a, b)),
    {
        if self.index_of(&a, &b).is_none() {
            let ghost old_set = self.set@;
            let ghost old_pairs = self.pairs@;
            self.pairs.push((a, b));
            self.set = Ghost(old_set.insert((a, b)));
            assert(self.pairs@[self.pairs@.len() - 1] == (a, b));
            assert forall|p: (Address, Address)| #[trigger] self.set@.contains(p) implies exists|i: int|
                0 <= i < self.pairs@.len() && #[trigger] self.pairs@[i] == p by {
                if p != (a, b) {
                    let i = choose|i: int| 0 <= i < old_pairs.len() && #[trigger] old_pairs[i] == p;
                    assert(self.pairs@[i] == p);
                }
            }
        } else {
            assert(self.set@.insert((a, b)) =~= self.set@);
        }
    }

    /// Removes the pair.
    pub fn remove(&mut self, a: &Address, b: &Address)
        requires
            old(self).wf(),
        ensures
            final(self).wf(),
            final(self)@ == old(self)@.remove((*a, *b)),
    {
        let ghost target = (*a, *b);
        let ghost old_set = self.set@;
        let ghost old_pairs = self.pairs@;
        match self.index_of(a, b) {
            Some(i) => {
                self.pairs.remove(i);
                self.set = Ghost(old_set.remove(target));
                assert forall|j: int| 0 <= j < self.pairs@.len() implies #[trigger] self.set@.contains(
                    self.pairs@[j],
                ) by {
                    let jj = if j < i { j } else { j + 1 };
                    assert(old_pairs[jj] != old_pairs[i as int]);
                    assert(old_set.contains(old_pairs[jj]));
                }
                assert forall|j: int, l: int|
                    0 <= j < self.pairs@.len() && 0 <= l < self.pairs@.len() && j != l
                        implies #[trigger] self.pairs@[j] != #[trigger] self.pairs@[l] by {
                    let jj = if j < i { j } else { j + 1 };
                    let ll = if l < i { l } else { l + 1 };
                    assert(old_pairs[jj] != old_pairs[ll]);
                }
                assert forall|p: (Address, Address)| #[trigger] self.set@.contains(p) implies exists|k: int|
                    0 <= k < self.pairs@.len() && #[trigger] self.pairs@[k] == p by {
                    let j = choose|j: int| 0 <= j < old_pairs.len() && #[trigger] old_pairs[j] == p;
                    if j < i {
                        assert(self.pairs@[j] == p);
                    } else {
                        assert(j != i);
                        assert(self.pairs@[j - 1] == p);
                    }
                }
            },
            None => {
                assert(old_set.remove(target) =~= old_set);
            },
        }
    }
}

} // verus!
