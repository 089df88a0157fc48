//! The identity registry: a bidirectional mapping between addresses and
//! compact integer ids. Id 0 never denotes a real entity; ids are issued
//! monotonically and never reused after removal.
use vstd::prelude::*;

verus! {

/// The id that denotes "no entity".
pub const NULL_ID: u64 = 0;

/// Bidirectional address-to-id interning table.
pub struct IdRegistry {
    next_id: u64,
    entries: Vec<(u64, u64)>,
}

impl IdRegistry {
    /// The address-to-id direction.
    pub closed spec fn ids(self) -> Map<u64, u64> {
        Map::new(
            |a: u64| exists|i: int|
                0 <= i < self.entries@.len() && (#[trigger] self.entries@[i]).0 == a,
            |a: u64| self.entries@[choose|i: int|
                0 <= i < self.entries@.len() && (#[trigger] self.entries@[i]).0 == a].1,
        )
    }

    /// The id-to-address direction.
    pub closed spec fn addresses(self) -> Map<u64, u64> {
        Map::new(
            |id: u64| exists|i: int|
                0 <= i < self.entries@.len() && (#[trigger] self.entries@[i]).1 == id,
            |id: u64| self.entries@[choose|i: int|
                0 <= i < self.entries@.len() && (#[trigger] self.entries@[i]).1 == id].0,
        )
    }

    pub closed spec fn wf(self) -> bool {
        &&& self.next_id >= 1
        &&& forall|i: int, j: int|
            0 <= i < j < self.entries@.len()
                ==> (#[trigger] self.entries@[i]).0 != (#[trigger] self.entries@[j]).0
                    && self.entries@[i].1 != self.entries@[j].1
        &&& forall|i: int|
            0 <= i < self.entries@.len()
                ==> 0 < (#[trigger] self.entries@[i]).1 < self.next_id
    }

    proof fn lemma_entry(self, i: int)
        requires
            self.wf(),
            0 <= i < self.entries@.len(),
        ensures
            self.ids().contains_key(self.entries@[i].0),
            self.ids()[self.entries@[i].0] == self.entries@[i].1,
            self.addresses().contains_key(self.entries@[i].1),
            self.addresses()[self.entries@[i].1] == self.entries@[i].0,
    {
        let a = self.entries@[i].0;
        let id = self.entries@[i].1;
        let n = choose|n: int|
            0 <= n < self.entries@.len() && (#[trigger] self.entries@[n]).0 == a;
        assert(n == i);
        let m = choose|m: int|
            0 <= m < self.entries@.len() && (#[trigger] self.entries@[m]).1 == id;
        assert(m == i);
    }

    /// Every issued id is non-null.
    pub proof fn lemma_ids_non_null(self, a: u64)
        requires
            self.wf(),
            self.ids().contains_key(a),
        ensures
            self.ids()[a] != NULL_ID,
            self.addresses().contains_key(self.ids()[a]),
            self.addresses()[self.ids()[a]] == a,
    {
        let n = choose|n: int|
            0 <= n < self.entries@.len() && (#[trigger] self.entries@[n]).0 == a;
        self.lemma_entry(n);
    }

    pub fn new() -> (r: Self)
        ensures
            r.wf(),
            r.ids() == Map::<u64, u64>::empty(),
            r.addresses() == Map::<u64, u64>::empty(),
    {
        let r = IdRegistry { next_id: 1, entries: Vec::new() };
        proof {
            assert(r.ids() =~= Map::<u64, u64>::empty());
            assert(r.addresses() =~= Map::<u64, u64>::empty());
        }
        r
    }

    fn find_by_address(&self, address: u64) -> (r: Option<usize>)
        requires
            self.wf(),
        ensures
            match r {
                Some(i) => i < self.entries@.len() && self.entries@[i as int].0 == address
                    && self.ids().contains_key(address)
                    && self.ids()[address] == self.entries@[i as int].1,
                None => !self.ids().contains_key(address),
            },
    {
        let mut i: usize = 0;
        while i < self.entries.len()
            invariant
                self.wf(),
                i <= self.entries@.len(),
                forall|j: int| 0 <= j < i ==> (#[trigger] self.entries@[j]).0 != address,
            decreases self.entries@.len() - i,
        {
            if self.entries[i].0 == address {
                proof {
                    self.lemma_entry(i as int);
                }
                return Some(i);
            }
            i += 1;
        }
        None
    }

    /// The id for an address, `NULL_ID` when the address is unknown.
    pub fn get_id(&self, address: u64) -> (r: u64)
        requires
            self.wf(),
        ensures
            self.ids().contains_key(address) ==> r == self.ids()[address] && r != NULL_ID,
            !self.ids().contains_key(address) ==> r == NULL_ID,
    {
        match self.find_by_address(address) {
            Some(i) => {
                proof {
                    self.lemma_ids_non_null(address);
                }
                self.entries[i].1
            }
            None => NULL_ID,
        }
    }

    /// The id for an address; `None` signals an unknown address explicitly.
    pub fn get_id_non_zero(&self, address: u64) -> (r: Option<u64>)
        requires
            self.wf(),
        ensures
            match r {
                Some(id) => self.ids().contains_key(address) && id == self.ids()[address]
                    && id != NULL_ID,
                None => !self.ids().contains_key(address),
            },
    {
        match self.find_by_address(address) {
            Some(i) => {
                proof {
                    self.lemma_ids_non_null(address);
                }
                Some(self.entries[i].1)
            }
            None => None,
        }
    }

    /// The address an id was issued to, if any.
    pub fn get_address(&self, id: u64) -> (r: Option<u64>)
        requires
            self.wf(),
        ensures
            match r {
                Some(a) => self.addresses().contains_key(id) && a == self.addresses()[id],
                None => !self.addresses().contains_key(id),
            },
    {
        let mut i: usize = 0;
        while i < self.entries.len()
            invariant
                self.wf(),
                i <= self.entries@.len(),
                forall|j: int| 0 <= j < i ==> (#[trigger] self.entries@[j]).1 != id,
            decreases self.entries@.len() - i,
        {
            if self.entries[i].1 == id {
                proof {
                    self.lemma_entry(i as int);
                }
                return Some(self.entries[i].0);
            }
            i += 1;
        }
        None
    }

    /// Issue a fresh id to a new address; `None` when the address already
    /// has one or the id space is exhausted.
    pub fn insert_new(&mut self, address: u64) -> (r: Option<u64>)
        requires
            old(self).wf(),
        ensures
            final(self).wf(),
            match r {
                Some(id) => !old(self).ids().contains_key(address)
                    && id != NULL_ID
                    && !old(self).addresses().contains_key(id)
                    && final(self).ids() == old(self).ids().insert(address, id)
                    && final(self).addresses() == old(self).addresses().insert(id, address),
                None => (old(self).ids().contains_key(address)
                        || old(self).next_id_spec() == u64::MAX)
                    && *final(self) == *old(self),
            },
    {
        let ghost pre = *self;
        if self.find_by_address(address).is_some() {
            return None;
        }
        if self.next_id == u64::MAX {
            return None;
        }
        let id = self.next_id;
        self.next_id = self.next_id + 1;
        self.entries.push((address, id));
        proof {
            assert forall|i: int|
                0 <= i < pre.entries@.len() implies (#[trigger] pre.entries@[i]).1 != id by {
            }
            assert forall|a: u64| #[trigger] self.ids().contains_key(a)
                implies pre.ids().insert(address, id).contains_key(a) by {
                let n = choose|n: int|
                    0 <= n < self.entries@.len() && (#[trigger] self.entries@[n]).0 == a;
                if n < pre.entries@.len() {
                    pre.lemma_entry(n);
                }
            }
            assert forall|a: u64| #[trigger] pre.ids().insert(address, id).contains_key(a)
                implies self.ids().contains_key(a)
                    && self.ids()[a] == pre.ids().insert(address, id)[a] by {
                if a == address {
                    self.lemma_entry(pre.entries@.len() as int);
                } else {
                    let n = choose|n: int|
                        0 <= n < pre.entries@.len() && (#[trigger] pre.entries@[n]).0 == a;
                    pre.lemma_entry(n);
                    self.lemma_entry(n);
                }
            }
            assert(self.ids() =~= pre.ids().insert(address, id));
            assert forall|x: u64| #[trigger] self.addresses().contains_key(x)
                implies pre.addresses().insert(id, address).contains_key(x) by {
                let n = choose|n: int|
                    0 <= n < self.entries@.len() && (#[trigger] self.entries@[n]).1 == x;
                if n < pre.entries@.len() {
                    pre.lemma_entry(n);
                }
            }
            assert forall|x: u64| #[trigger] pre.addresses().insert(id, address).contains_key(x)
                implies self.addresses().contains_key(x)
                    && self.addresses()[x] == pre.addresses().insert(id, address)[x] by {
                if x == id {
                    self.lemma_entry(pre.entries@.len() as int);
                } else {
                    let n = choose|n: int|
                        0 <= n < pre.entries@.len() && (#[trigger] pre.entries@[n]).1 == x;
                    pre.lemma_entry(n);
                    self.lemma_entry(n);
                }
            }
            assert(self.addresses() =~= pre.addresses().insert(id, address));
        }
        Some(id)
    }

    /// The id for an address, issued now if the address is new. Fails only
    /// when the id space is exhausted.
    pub fn get_id_or_insert(&mut self, address: u64) -> (r: Option<u64>)
        requires
            old(self).wf(),
        ensures
            final(self).wf(),
            match r {
                Some(id) => id != NULL_ID
                    && if old(self).ids().contains_key(address) {
                        id == old(self).ids()[address] && *final(self) == *old(self)
                    } else {
                        final(self).ids() == old(self).ids().insert(address, id)
                            && final(self).addresses() == old(self).addresses().insert(id, address)
                    },
                None => !old(self).ids().contains_key(address)
                    && old(self).next_id_spec() == u64::MAX
                    && *final(self) == *old(self),
            },
    {
        match self.find_by_address(address) {
            Some(i) => {
                proof {
                    self.lemma_ids_non_null(address);
                }
                Some(self.entries[i].1)
            }
            None => self.insert_new(address),
        }
    }

    /// Remove an address's mapping; the freed id is never reissued. Returns
    /// the removed id, `NULL_ID` when the address was unknown.
    pub fn remove_by_address(&mut self, address: u64) -> (r: u64)
        requires
            old(self).wf(),
        ensures
            final(self).wf(),
            if old(self).ids().contains_key(address) {
                r == old(self).ids()[address] && r != NULL_ID
                    && final(self).ids() == old(self).ids().remove(address)
                    && final(self).addresses() == old(self).addresses().remove(r)
            } else {
                r == NULL_ID && *final(self) == *old(self)
            },
    {
        let ghost pre = *self;
        match self.find_by_address(address) {
            Some(i) => {
                let id = self.entries[i].1;
                proof {
                    self.lemma_ids_non_null(address);
                }
                self.entries.remove(i);
                proof {
                    assert forall|a: u64| #[trigger] self.ids().contains_key(a)
                        implies pre.ids().remove(address).contains_key(a)
                            && pre.ids().remove(address)[a] == self.ids()[a] by {
                        let n = choose|n: int|
                            0 <= n < self.entries@.len() && (#[trigger] self.entries@[n]).0 == a;
                        let m = if n < i { n } else { n + 1 };
                        pre.lemma_entry(m);
                        self.lemma_entry(n);
                    }
                    assert forall|a: u64| #[trigger] pre.ids().remove(address).contains_key(a)
                        implies self.ids().contains_key(a) by {
                        let n = choose|n: int|
                            0 <= n < pre.entries@.len() && (#[trigger] pre.entries@[n]).0 == a;
                        let m = if n < i { n } else { n - 1 };
                        assert(self.entries@[m].0 == a);
                    }
                    assert(self.ids() =~= pre.ids().remove(address));
                    assert forall|x: u64| #[trigger] self.addresses().contains_key(x)
                        implies pre.addresses().remove(id).contains_key(x)
                            && pre.addresses().remove(id)[x] == self.addresses()[x] by {
                        let n = choose|n: int|
                            0 <= n < self.entries@.len() && (#[trigger] self.entries@[n]).1 == x;
                        let m = if n < i { n } else { n + 1 };
                        pre.lemma_entry(m);
                        self.lemma_entry(n);
                    }
                    assert forall|x: u64| #[trigger] pre.addresses().remove(id).contains_key(x)
                        implies self.addresses().contains_key(x) by {
                        let n = choose|n: int|
                            0 <= n < pre.entries@.len() && (#[trigger] pre.entries@[n]).1 == x;
                        let m = if n < i { n } else { n - 1 };
                        assert(self.entries@[m].1 == x);
                    }
                    assert(self.addresses() =~= pre.addresses().remove(id));
                }
                id
            }
            None => NULL_ID,
        }
    }

    pub closed spec fn next_id_spec(self) -> u64 {
        self.next_id
    }
}

} // verus!
