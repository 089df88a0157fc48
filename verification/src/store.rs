//! Small key-value stores with unique keys, standing in for the per-entity
//! storage records of the host platform. Keys are compact integer ids;
//! composite keys use two or three components.
use vstd::prelude::*;

verus! {

/// A store keyed by a single integer, each key present at most once.
pub struct Store<V> {
    entries: Vec<(u64, V)>,
}

impl<V> Store<V> {
    pub closed spec fn as_map(self) -> Map<u64, V> {
        Map::new(
            |k: u64| exists|i: int| 0 <= i < self.entries@.len() && (#[trigger] self.entries@[i]).0 == k,
            |k: u64| self.entries@[choose|i: int| 0 <= i < self.entries@.len() && (#[trigger] self.entries@[i]).0 == k].1,
        )
    }

    pub closed spec fn wf(self) -> bool {
        forall|i: int, j: int|
            0 <= i < j < self.entries@.len()
                ==> (#[trigger] self.entries@[i]).0 != (#[trigger] self.entries@[j]).0
    }

    proof fn lemma_entry_value(self, i: int)
        requires
            self.wf(),
            0 <= i < self.entries@.len(),
        ensures
            self.as_map().contains_key(self.entries@[i].0),
            self.as_map()[self.entries@[i].0] == self.entries@[i].1,
    {
        let k = self.entries@[i].0;
        assert(exists|n: int| 0 <= n < self.entries@.len() && (#[trigger] self.entries@[n]).0 == k);
        let n = choose|n: int| 0 <= n < self.entries@.len() && (#[trigger] self.entries@[n]).0 == k;
        assert(n == i);
    }

    proof fn lemma_absent(self, k: u64)
        requires
            forall|i: int| 0 <= i < self.entries@.len() ==> (#[trigger] self.entries@[i]).0 != k,
        ensures
            !self.as_map().contains_key(k),
    {
    }

    pub fn new() -> (r: Self)
        ensures
            r.wf(),
            r.as_map() == Map::<u64, V>::empty(),
    {
        let r = Store { entries: Vec::new() };
        proof {
            assert(r.as_map() =~= Map::<u64, V>::empty());
        }
        r
    }

    fn find_index(&self, key: u64) -> (r: Option<usize>)
        requires
            self.wf(),
        ensures
            match r {
                Some(i) => i < self.entries@.len() && self.entries@[i as int].0 == key
                    && self.as_map().contains_key(key)
                    && self.as_map()[key] == self.entries@[i as int].1,
                None => !self.as_map().contains_key(key),
            },
    {
        let mut i: usize = 0;
        while i < self.entries.len()
            invariant
                self.wf(),
                i <= self.entries@.len(),
                forall|j: int| 0 <= j < i ==> (#[trigger] self.entries@[j]).0 != key,
            decreases self.entries@.len() - i,
        {
            if self.entries[i].0 == key {
                proof {
                    self.lemma_entry_value(i as int);
                }
                return Some(i);
            }
            i += 1;
        }
        proof {
            self.lemma_absent(key);
        }
        None
    }

    pub fn contains_key(&self, key: u64) -> (r: bool)
        requires
            self.wf(),
        ensures
            r == self.as_map().contains_key(key),
    {
        self.find_index(key).is_some()
    }

    pub fn get(&self, key: u64) -> (r: Option<&V>)
        requires
            self.wf(),
        ensures
            match r {
                Some(v) => self.as_map().contains_key(key) && *v == self.as_map()[key],
                None => !self.as_map().contains_key(key),
            },
    {
        match self.find_index(key) {
            Some(i) => Some(&self.entries[i].1),
            None => None,
        }
    }

    pub fn set(&mut self, key: u64, value: V)
        requires
            old(self).wf(),
        ensures
            final(self).wf(),
            final(self).as_map() == old(self).as_map().insert(key, value),
    {
        let ghost pre = *self;
        match self.find_index(key) {
            Some(i) => {
                let ghost prev = self.entries@;
                self.entries.remove(i);
                self.entries.insert(i, (key, value));
                proof {
                    assert(self.entries@ =~= prev.update(i as int, (key, value)));
                    assert forall|k: u64| #[trigger] self.as_map().contains_key(k)
                        implies pre.as_map().insert(key, value).contains_key(k) by {
                        let n = choose|n: int|
                            0 <= n < self.entries@.len() && (#[trigger] self.entries@[n]).0 == k;
                        if n != i {
                            pre.lemma_entry_value(n);
                        }
                    }
                    assert forall|k: u64| #[trigger] pre.as_map().insert(key, value).contains_key(k)
                        implies self.as_map().contains_key(k)
                            && self.as_map()[k] == pre.as_map().insert(key, value)[k] by {
                        if k == key {
                            self.lemma_entry_value(i as int);
                        } else {
                            let n = choose|n: int|
                                0 <= n < pre.entries@.len() && (#[trigger] pre.entries@[n]).0 == k;
                            self.lemma_entry_value(n);
                            pre.lemma_entry_value(n);
                        }
                    }
                    assert(self.as_map() =~= pre.as_map().insert(key, value));
                }
            }
            None => {
                self.entries.push((key, value));
                proof {
                    assert forall|k: u64| #[trigger] self.as_map().contains_key(k)
                        implies pre.as_map().insert(key, value).contains_key(k) by {
                        let n = choose|n: int|
                            0 <= n < self.entries@.len() && (#[trigger] self.entries@[n]).0 == k;
                        if n < pre.entries@.len() {
                            pre.lemma_entry_value(n);
                        }
                    }
                    assert forall|k: u64| #[trigger] pre.as_map().insert(key, value).contains_key(k)
                        implies self.as_map().contains_key(k)
                            && self.as_map()[k] == pre.as_map().insert(key, value)[k] by {
                        if k == key {
                            self.lemma_entry_value(pre.entries@.len() as int);
                        } else {
                            let n = choose|n: int|
                                0 <= n < pre.entries@.len() && (#[trigger] pre.entries@[n]).0 == k;
                            self.lemma_entry_value(n);
                            pre.lemma_entry_value(n);
                        }
                    }
                    assert(self.as_map() =~= pre.as_map().insert(key, value));
                }
            }
        }
    }

    pub fn remove(&mut self, key: u64)
        requires
            old(self).wf(),
        ensures
            final(self).wf(),
            final(self).as_map() == old(self).as_map().remove(key),
    {
        let ghost pre = *self;
        match self.find_index(key) {
            Some(i) => {
                self.entries.remove(i);
                proof {
                    assert forall|k: u64| #[trigger] self.as_map().contains_key(k)
                        implies pre.as_map().remove(key).contains_key(k)
                            && pre.as_map().remove(key)[k] == self.as_map()[k] by {
                        let n = choose|n: int|
                            0 <= n < self.entries@.len() && (#[trigger] self.entries@[n]).0 == k;
                        let m = if n < i { n } else { n + 1 };
                        pre.lemma_entry_value(m);
                        self.lemma_entry_value(n);
                    }
                    assert forall|k: u64| #[trigger] pre.as_map().remove(key).contains_key(k)
                        implies self.as_map().contains_key(k) by {
                        let n = choose|n: int|
                            0 <= n < pre.entries@.len() && (#[trigger] pre.entries@[n]).0 == k;
                        let m = if n < i { n } else { n - 1 };
                        assert(self.entries@[m].0 == k);
                    }
                    assert(self.as_map() =~= pre.as_map().remove(key));
                }
            }
            None => {
                proof {
                    assert(self.as_map() =~= pre.as_map().remove(key));
                }
            }
        }
    }
}

/// The sequence after removing position `i` by swapping the last element in.
pub open spec fn seq_swap_remove<T>(s: Seq<T>, i: int) -> Seq<T>
    recommends
        0 <= i < s.len(),
{
    s.update(i, s.last()).drop_last()
}

/// An insertion-ordered set of integer ids, indexable one-based and pruned
/// by swap-remove, as the platform's unordered-set storage is.
pub struct OrderedSet {
    items: Vec<u64>,
}

impl View for OrderedSet {
    type V = Seq<u64>;

    closed spec fn view(&self) -> Seq<u64> {
        self.items@
    }
}

impl OrderedSet {
    pub open spec fn wf(self) -> bool {
        forall|i: int, j: int| 0 <= i < j < self@.len() ==> self@[i] != self@[j]
    }

    pub fn new() -> (r: Self)
        ensures
            r.wf(),
            r@ == Seq::<u64>::empty(),
    {
        let r = OrderedSet { items: Vec::new() };
        proof {
            assert(r@ =~= Seq::<u64>::empty());
        }
        r
    }

    pub fn len(&self) -> (r: usize)
        ensures
            r == self@.len(),
    {
        self.items.len()
    }

    pub fn contains(&self, x: u64) -> (r: bool)
        ensures
            r == self@.contains(x),
    {
        let mut i: usize = 0;
        while i < self.items.len()
            invariant
                i <= self@.len(),
                forall|j: int| 0 <= j < i ==> self@[j] != x,
            decreases self@.len() - i,
        {
            if self.items[i] == x {
                return true;
            }
            i += 1;
        }
        false
    }

    /// Append `x` unless it is already a member.
    pub fn insert(&mut self, x: u64)
        requires
            old(self).wf(),
        ensures
            final(self).wf(),
            final(self)@ == if old(self)@.contains(x) { old(self)@ } else { old(self)@.push(x) },
    {
        if !self.contains(x) {
            self.items.push(x);
        }
    }

    /// Insert every listed id.
    pub fn insert_all(&mut self, xs: &Vec<u64>)
        requires
            old(self).wf(),
        ensures
            final(self).wf(),
            forall|t: u64| #![trigger final(self)@.contains(t)] #![trigger old(self)@.contains(t)] #![trigger xs@.contains(t)]
                final(self)@.contains(t) == (old(self)@.contains(t) || xs@.contains(t)),
    {
        let mut i: usize = 0;
        while i < xs.len()
            invariant
                self.wf(),
                i <= xs@.len(),
                forall|t: u64|
                    self@.contains(t)
                        == (old(self)@.contains(t) || xs@.subrange(0, i as int).contains(t)),
            decreases xs@.len() - i,
        {
            let ghost pre = self@;
            let x = xs[i];
            self.insert(x);
            proof {
                let subi = xs@.subrange(0, i as int);
                let subn = xs@.subrange(0, (i + 1) as int);
                assert(subn.drop_last() =~= subi);
                assert forall|t: u64|
                    self@.contains(t)
                        == (old(self)@.contains(t)
                            || xs@.subrange(0, (i + 1) as int).contains(t)) by {
                    if self@.contains(t) {
                        if pre.contains(t) {
                            if subi.contains(t) {
                                let w = choose|w: int| 0 <= w < subi.len() && subi[w] == t;
                                assert(subn[w] == t);
                            }
                        } else {
                            let w = choose|w: int| 0 <= w < self@.len() && self@[w] == t;
                            assert(self@ == pre.push(x));
                            if w < pre.len() {
                                assert(pre[w] == t);
                            }
                            assert(t == x);
                            assert(subn[i as int] == t);
                        }
                    }
                    if old(self)@.contains(t) {
                        assert(pre.contains(t));
                        let w = choose|w: int| 0 <= w < pre.len() && pre[w] == t;
                        assert(self@[w] == t);
                    }
                    if subn.contains(t) {
                        let w = choose|w: int| 0 <= w < subn.len() && subn[w] == t;
                        if w < i {
                            assert(subi[w] == t);
                            let v = choose|v: int| 0 <= v < pre.len() && pre[v] == t;
                            assert(self@[v] == t);
                        } else {
                            assert(t == x);
                            if pre.contains(t) {
                                let v = choose|v: int| 0 <= v < pre.len() && pre[v] == t;
                                assert(self@[v] == t);
                            } else {
                                assert(self@ == pre.push(x));
                                assert(self@[pre.len() as int] == t);
                            }
                        }
                    }
                }
            }
            i += 1;
        }
        proof {
            assert(xs@.subrange(0, xs@.len() as int) =~= xs@);
        }
    }

    pub fn clone_set(&self) -> (r: Self)
        ensures
            r@ == self@,
    {
        let mut items: Vec<u64> = Vec::new();
        let mut i: usize = 0;
        while i < self.items.len()
            invariant
                i <= self@.len(),
                items@ == self@.subrange(0, i as int),
            decreases self@.len() - i,
        {
            items.push(self.items[i]);
            proof {
                assert(self@.subrange(0, (i + 1) as int)
                    =~= self@.subrange(0, i as int).push(self@[i as int]));
            }
            i += 1;
        }
        proof {
            assert(self@.subrange(0, self@.len() as int) =~= self@);
        }
        OrderedSet { items }
    }

    /// Remove `x` by swapping the last member into its slot; a no-op when
    /// `x` is not a member.
    pub fn swap_remove_item(&mut self, x: u64) -> (r: bool)
        requires
            old(self).wf(),
        ensures
            final(self).wf(),
            r == old(self)@.contains(x),
            if old(self)@.contains(x) {
                final(self)@ == seq_swap_remove(old(self)@, old(self)@.index_of(x))
            } else {
                final(self)@ == old(self)@
            },
            forall|y: u64| #![trigger final(self)@.contains(y)] #![trigger old(self)@.contains(y)]
                final(self)@.contains(y) == (old(self)@.contains(y) && !(r && y == x)),
    {
        let mut i: usize = 0;
        while i < self.items.len()
            invariant
                self.wf(),
                self@ == old(self)@,
                i <= self@.len(),
                forall|j: int| 0 <= j < i ==> self@[j] != x,
            decreases self@.len() - i,
        {
            if self.items[i] == x {
                proof {
                    assert(old(self)@.contains(x));
                    assert(old(self)@.index_of(x) == i);
                }
                self.items.swap_remove(i);
                proof {
                    let pre = old(self)@;
                    assert forall|a: int, b: int|
                        0 <= a < b < self@.len() implies self@[a] != self@[b] by {
                        assert(pre[a] == pre[a]);
                    }
                    assert forall|y: u64|
                        self@.contains(y) == (pre.contains(y) && y != x) by {
                        if self@.contains(y) {
                            let j = choose|j: int| 0 <= j < self@.len() && self@[j] == y;
                            if j == i {
                                assert(pre[pre.len() - 1] == y);
                            } else {
                                assert(pre[j] == y);
                            }
                        }
                        if pre.contains(y) && y != x {
                            let j = choose|j: int| 0 <= j < pre.len() && pre[j] == y;
                            if j == pre.len() - 1 {
                                assert(i < pre.len() - 1);
                                assert(self@[i as int] == y);
                            } else {
                                assert(self@[j] == y);
                            }
                        }
                    }
                }
                return true;
            }
            i += 1;
        }
        false
    }

    /// The member at a one-based position.
    pub fn get_one_based(&self, index: usize) -> (r: u64)
        requires
            1 <= index <= self@.len(),
        ensures
            r == self@[index - 1],
    {
        self.items[index - 1]
    }
}

/// A store keyed by a pair of integers, each key present at most once.
pub struct Store2<V> {
    entries: Vec<(u64, u64, V)>,
}

impl<V> Store2<V> {
    pub closed spec fn as_map(self) -> Map<(u64, u64), V> {
        Map::new(
            |k: (u64, u64)| exists|i: int|
                0 <= i < self.entries@.len()
                    && (#[trigger] self.entries@[i]).0 == k.0 && self.entries@[i].1 == k.1,
            |k: (u64, u64)| self.entries@[choose|i: int|
                0 <= i < self.entries@.len()
                    && (#[trigger] self.entries@[i]).0 == k.0 && self.entries@[i].1 == k.1].2,
        )
    }

    pub closed spec fn wf(self) -> bool {
        forall|i: int, j: int|
            0 <= i < j < self.entries@.len()
                ==> ((#[trigger] self.entries@[i]).0, self.entries@[i].1)
                    != ((#[trigger] self.entries@[j]).0, self.entries@[j].1)
    }

    proof fn lemma_entry_value(self, i: int)
        requires
            self.wf(),
            0 <= i < self.entries@.len(),
        ensures
            self.as_map().contains_key((self.entries@[i].0, self.entries@[i].1)),
            self.as_map()[(self.entries@[i].0, self.entries@[i].1)] == self.entries@[i].2,
    {
        let k = (self.entries@[i].0, self.entries@[i].1);
        assert(exists|n: int|
            0 <= n < self.entries@.len()
                && (#[trigger] self.entries@[n]).0 == k.0 && self.entries@[n].1 == k.1);
        let n = choose|n: int|
            0 <= n < self.entries@.len()
                && (#[trigger] self.entries@[n]).0 == k.0 && self.entries@[n].1 == k.1;
        assert(n == i);
    }

    pub fn new() -> (r: Self)
        ensures
            r.wf(),
            r.as_map() == Map::<(u64, u64), V>::empty(),
    {
        let r = Store2 { entries: Vec::new() };
        proof {
            assert(r.as_map() =~= Map::<(u64, u64), V>::empty());
        }
        r
    }

    fn find_index(&self, k0: u64, k1: u64) -> (r: Option<usize>)
        requires
            self.wf(),
        ensures
            match r {
                Some(i) => i < self.entries@.len()
                    && self.entries@[i as int].0 == k0 && self.entries@[i as int].1 == k1
                    && self.as_map().contains_key((k0, k1))
                    && self.as_map()[(k0, k1)] == self.entries@[i as int].2,
                None => !self.as_map().contains_key((k0, k1)),
            },
    {
        let mut i: usize = 0;
        while i < self.entries.len()
            invariant
                self.wf(),
                i <= self.entries@.len(),
                forall|j: int| 0 <= j < i
                    ==> ((#[trigger] self.entries@[j]).0, self.entries@[j].1) != (k0, k1),
            decreases self.entries@.len() - i,
        {
            if self.entries[i].0 == k0 && self.entries[i].1 == k1 {
                proof {
                    self.lemma_entry_value(i as int);
                }
                return Some(i);
            }
            i += 1;
        }
        None
    }

    pub fn contains_key(&self, k0: u64, k1: u64) -> (r: bool)
        requires
            self.wf(),
        ensures
            r == self.as_map().contains_key((k0, k1)),
    {
        self.find_index(k0, k1).is_some()
    }

    pub fn get(&self, k0: u64, k1: u64) -> (r: Option<&V>)
        requires
            self.wf(),
        ensures
            match r {
                Some(v) => self.as_map().contains_key((k0, k1)) && *v == self.as_map()[(k0, k1)],
                None => !self.as_map().contains_key((k0, k1)),
            },
    {
        match self.find_index(k0, k1) {
            Some(i) => Some(&self.entries[i].2),
            None => None,
        }
    }

    pub fn set(&mut self, k0: u64, k1: u64, value: V)
        requires
            old(self).wf(),
        ensures
            final(self).wf(),
            final(self).as_map() == old(self).as_map().insert((k0, k1), value),
    {
        let ghost pre = *self;
        match self.find_index(k0, k1) {
            Some(i) => {
                let ghost prev = self.entries@;
                self.entries.remove(i);
                self.entries.insert(i, (k0, k1, value));
                proof {
                    assert(self.entries@ =~= prev.update(i as int, (k0, k1, value)));
                    assert forall|k: (u64, u64)| #[trigger] self.as_map().contains_key(k)
                        implies pre.as_map().insert((k0, k1), value).contains_key(k) by {
                        let n = choose|n: int|
                            0 <= n < self.entries@.len()
                                && (#[trigger] self.entries@[n]).0 == k.0 && self.entries@[n].1 == k.1;
                        if n != i {
                            pre.lemma_entry_value(n);
                        }
                    }
                    assert forall|k: (u64, u64)|
                        #[trigger] pre.as_map().insert((k0, k1), value).contains_key(k)
                        implies self.as_map().contains_key(k)
                            && self.as_map()[k] == pre.as_map().insert((k0, k1), value)[k] by {
                        if k == (k0, k1) {
                            self.lemma_entry_value(i as int);
                        } else {
                            let n = choose|n: int|
                                0 <= n < pre.entries@.len()
                                    && (#[trigger] pre.entries@[n]).0 == k.0
                                    && pre.entries@[n].1 == k.1;
                            self.lemma_entry_value(n);
                            pre.lemma_entry_value(n);
                        }
                    }
                    assert(self.as_map() =~= pre.as_map().insert((k0, k1), value));
                }
            }
            None => {
                self.entries.push((k0, k1, value));
                proof {
                    assert forall|k: (u64, u64)| #[trigger] self.as_map().contains_key(k)
                        implies pre.as_map().insert((k0, k1), value).contains_key(k) by {
                        let n = choose|n: int|
                            0 <= n < self.entries@.len()
                                && (#[trigger] self.entries@[n]).0 == k.0 && self.entries@[n].1 == k.1;
                        if n < pre.entries@.len() {
                            pre.lemma_entry_value(n);
                        }
                    }
                    assert forall|k: (u64, u64)|
                        #[trigger] pre.as_map().insert((k0, k1), value).contains_key(k)
                        implies self.as_map().contains_key(k)
                            && self.as_map()[k] == pre.as_map().insert((k0, k1), value)[k] by {
                        if k == (k0, k1) {
                            self.lemma_entry_value(pre.entries@.len() as int);
                        } else {
                            let n = choose|n: int|
                                0 <= n < pre.entries@.len()
                                    && (#[trigger] pre.entries@[n]).0 == k.0
                                    && pre.entries@[n].1 == k.1;
                            self.lemma_entry_value(n);
                            pre.lemma_entry_value(n);
                        }
                    }
                    assert(self.as_map() =~= pre.as_map().insert((k0, k1), value));
                }
            }
        }
    }

    pub fn remove(&mut self, k0: u64, k1: u64)
        requires
            old(self).wf(),
        ensures
            final(self).wf(),
            final(self).as_map() == old(self).as_map().remove((k0, k1)),
    {
        let ghost pre = *self;
        match self.find_index(k0, k1) {
            Some(i) => {
                self.entries.remove(i);
                proof {
                    assert forall|k: (u64, u64)| #[trigger] self.as_map().contains_key(k)
                        implies pre.as_map().remove((k0, k1)).contains_key(k)
                            && pre.as_map().remove((k0, k1))[k] == self.as_map()[k] by {
                        let n = choose|n: int|
                            0 <= n < self.entries@.len()
                                && (#[trigger] self.entries@[n]).0 == k.0 && self.entries@[n].1 == k.1;
                        let m = if n < i { n } else { n + 1 };
                        pre.lemma_entry_value(m);
                        self.lemma_entry_value(n);
                    }
                    assert forall|k: (u64, u64)|
                        #[trigger] pre.as_map().remove((k0, k1)).contains_key(k)
                        implies self.as_map().contains_key(k) by {
                        let n = choose|n: int|
                            0 <= n < pre.entries@.len()
                                && (#[trigger] pre.entries@[n]).0 == k.0 && pre.entries@[n].1 == k.1;
                        let m = if n < i { n } else { n - 1 };
                        assert(self.entries@[m].0 == k.0 && self.entries@[m].1 == k.1);
                    }
                    assert(self.as_map() =~= pre.as_map().remove((k0, k1)));
                }
            }
            None => {
                proof {
                    assert(self.as_map() =~= pre.as_map().remove((k0, k1)));
                }
            }
        }
    }
}

impl<V: Copy> Store2<V> {
    /// A fresh copy of the store.
    pub fn clone_store(&self) -> (r: Self)
        requires
            self.wf(),
        ensures
            r.wf(),
            r.as_map() == self.as_map(),
    {
        let mut entries: Vec<(u64, u64, V)> = Vec::new();
        let mut i: usize = 0;
        while i < self.entries.len()
            invariant
                i <= self.entries@.len(),
                entries@ == self.entries@.subrange(0, i as int),
            decreases self.entries@.len() - i,
        {
            entries.push(self.entries[i]);
            proof {
                assert(self.entries@.subrange(0, (i + 1) as int)
                    =~= self.entries@.subrange(0, i as int).push(self.entries@[i as int]));
            }
            i += 1;
        }
        proof {
            assert(self.entries@.subrange(0, self.entries@.len() as int) =~= self.entries@);
        }
        let r = Store2 { entries };
        proof {
            assert(r.as_map() =~= self.as_map());
        }
        r
    }
}

/// A store keyed by a triple of integers, each key present at most once.
pub struct Store3<V> {
    entries: Vec<(u64, u64, u64, V)>,
}

impl<V> Store3<V> {
    pub closed spec fn as_map(self) -> Map<(u64, u64, u64), V> {
        Map::new(
            |k: (u64, u64, u64)| exists|i: int|
                0 <= i < self.entries@.len()
                    && (#[trigger] self.entries@[i]).0 == k.0
                    && self.entries@[i].1 == k.1 && self.entries@[i].2 == k.2,
            |k: (u64, u64, u64)| self.entries@[choose|i: int|
                0 <= i < self.entries@.len()
                    && (#[trigger] self.entries@[i]).0 == k.0
                    && self.entries@[i].1 == k.1 && self.entries@[i].2 == k.2].3,
        )
    }

    pub closed spec fn wf(self) -> bool {
        forall|i: int, j: int|
            0 <= i < j < self.entries@.len()
                ==> ((#[trigger] self.entries@[i]).0, self.entries@[i].1, self.entries@[i].2)
                    != ((#[trigger] self.entries@[j]).0, self.entries@[j].1, self.entries@[j].2)
    }

    proof fn lemma_entry_value(self, i: int)
        requires
            self.wf(),
            0 <= i < self.entries@.len(),
        ensures
            self.as_map().contains_key(
                (self.entries@[i].0, self.entries@[i].1, self.entries@[i].2)),
            self.as_map()[(self.entries@[i].0, self.entries@[i].1, self.entries@[i].2)]
                == self.entries@[i].3,
    {
        let k = (self.entries@[i].0, self.entries@[i].1, self.entries@[i].2);
        assert(exists|n: int|
            0 <= n < self.entries@.len()
                && (#[trigger] self.entries@[n]).0 == k.0
                && self.entries@[n].1 == k.1 && self.entries@[n].2 == k.2);
        let n = choose|n: int|
            0 <= n < self.entries@.len()
                && (#[trigger] self.entries@[n]).0 == k.0
                && self.entries@[n].1 == k.1 && self.entries@[n].2 == k.2;
        assert(n == i);
    }

    pub fn new() -> (r: Self)
        ensures
            r.wf(),
            r.as_map() == Map::<(u64, u64, u64), V>::empty(),
    {
        let r = Store3 { entries: Vec::new() };
        proof {
            assert(r.as_map() =~= Map::<(u64, u64, u64), V>::empty());
        }
        r
    }

    fn find_index(&self, k0: u64, k1: u64, k2: u64) -> (r: Option<usize>)
        requires
            self.wf(),
        ensures
            match r {
                Some(i) => i < self.entries@.len()
                    && self.entries@[i as int].0 == k0
                    && self.entries@[i as int].1 == k1
                    && self.entries@[i as int].2 == k2
                    && self.as_map().contains_key((k0, k1, k2))
                    && self.as_map()[(k0, k1, k2)] == self.entries@[i as int].3,
                None => !self.as_map().contains_key((k0, k1, k2)),
            },
    {
        let mut i: usize = 0;
        while i < self.entries.len()
            invariant
                self.wf(),
                i <= self.entries@.len(),
                forall|j: int| 0 <= j < i
                    ==> ((#[trigger] self.entries@[j]).0, self.entries@[j].1, self.entries@[j].2)
                        != (k0, k1, k2),
            decreases self.entries@.len() - i,
        {
            if self.entries[i].0 == k0 && self.entries[i].1 == k1 && self.entries[i].2 == k2 {
                proof {
                    self.lemma_entry_value(i as int);
                }
                return Some(i);
            }
            i += 1;
        }
        None
    }

    pub fn contains_key(&self, k0: u64, k1: u64, k2: u64) -> (r: bool)
        requires
            self.wf(),
        ensures
            r == self.as_map().contains_key((k0, k1, k2)),
    {
        self.find_index(k0, k1, k2).is_some()
    }

    pub fn get(&self, k0: u64, k1: u64, k2: u64) -> (r: Option<&V>)
        requires
            self.wf(),
        ensures
            match r {
                Some(v) => self.as_map().contains_key((k0, k1, k2))
                    && *v == self.as_map()[(k0, k1, k2)],
                None => !self.as_map().contains_key((k0, k1, k2)),
            },
    {
        match self.find_index(k0, k1, k2) {
            Some(i) => Some(&self.entries[i].3),
            None => None,
        }
    }

    pub fn set(&mut self, k0: u64, k1: u64, k2: u64, value: V)
        requires
            old(self).wf(),
        ensures
            final(self).wf(),
            final(self).as_map() == old(self).as_map().insert((k0, k1, k2), value),
    {
        let ghost pre = *self;
        match self.find_index(k0, k1, k2) {
            Some(i) => {
                let ghost prev = self.entries@;
                self.entries.remove(i);
                self.entries.insert(i, (k0, k1, k2, value));
                proof {
                    assert(self.entries@ =~= prev.update(i as int, (k0, k1, k2, value)));
                    assert forall|k: (u64, u64, u64)| #[trigger] self.as_map().contains_key(k)
                        implies pre.as_map().insert((k0, k1, k2), value).contains_key(k) by {
                        let n = choose|n: int|
                            0 <= n < self.entries@.len()
                                && (#[trigger] self.entries@[n]).0 == k.0
                                && self.entries@[n].1 == k.1 && self.entries@[n].2 == k.2;
                        if n != i {
                            pre.lemma_entry_value(n);
                        }
                    }
                    assert forall|k: (u64, u64, u64)|
                        #[trigger] pre.as_map().insert((k0, k1, k2), value).contains_key(k)
                        implies self.as_map().contains_key(k)
                            && self.as_map()[k] == pre.as_map().insert((k0, k1, k2), value)[k] by {
                        if k == (k0, k1, k2) {
                            self.lemma_entry_value(i as int);
                        } else {
                            let n = choose|n: int|
                                0 <= n < pre.entries@.len()
                                    && (#[trigger] pre.entries@[n]).0 == k.0
                                    && pre.entries@[n].1 == k.1 && pre.entries@[n].2 == k.2;
                            self.lemma_entry_value(n);
                            pre.lemma_entry_value(n);
                        }
                    }
                    assert(self.as_map() =~= pre.as_map().insert((k0, k1, k2), value));
                }
            }
            None => {
                self.entries.push((k0, k1, k2, value));
                proof {
                    assert forall|k: (u64, u64, u64)| #[trigger] self.as_map().contains_key(k)
                        implies pre.as_map().insert((k0, k1, k2), value).contains_key(k) by {
                        let n = choose|n: int|
                            0 <= n < self.entries@.len()
                                && (#[trigger] self.entries@[n]).0 == k.0
                                && self.entries@[n].1 == k.1 && self.entries@[n].2 == k.2;
                        if n < pre.entries@.len() {
                            pre.lemma_entry_value(n);
                        }
                    }
                    assert forall|k: (u64, u64, u64)|
                        #[trigger] pre.as_map().insert((k0, k1, k2), value).contains_key(k)
                        implies self.as_map().contains_key(k)
                            && self.as_map()[k] == pre.as_map().insert((k0, k1, k2), value)[k] by {
                        if k == (k0, k1, k2) {
                            self.lemma_entry_value(pre.entries@.len() as int);
                        } else {
                            let n = choose|n: int|
                                0 <= n < pre.entries@.len()
                                    && (#[trigger] pre.entries@[n]).0 == k.0
                                    && pre.entries@[n].1 == k.1 && pre.entries@[n].2 == k.2;
                            self.lemma_entry_value(n);
                            pre.lemma_entry_value(n);
                        }
                    }
                    assert(self.as_map() =~= pre.as_map().insert((k0, k1, k2), value));
                }
            }
        }
    }

    pub fn remove(&mut self, k0: u64, k1: u64, k2: u64)
        requires
            old(self).wf(),
        ensures
            final(self).wf(),
            final(self).as_map() == old(self).as_map().remove((k0, k1, k2)),
    {
        let ghost pre = *self;
        match self.find_index(k0, k1, k2) {
            Some(i) => {
                self.entries.remove(i);
                proof {
                    assert forall|k: (u64, u64, u64)| #[trigger] self.as_map().contains_key(k)
                        implies pre.as_map().remove((k0, k1, k2)).contains_key(k)
                            && pre.as_map().remove((k0, k1, k2))[k] == self.as_map()[k] by {
                        let n = choose|n: int|
                            0 <= n < self.entries@.len()
                                && (#[trigger] self.entries@[n]).0 == k.0
                                && self.entries@[n].1 == k.1 && self.entries@[n].2 == k.2;
                        let m = if n < i { n } else { n + 1 };
                        pre.lemma_entry_value(m);
                        self.lemma_entry_value(n);
                    }
                    assert forall|k: (u64, u64, u64)|
                        #[trigger] pre.as_map().remove((k0, k1, k2)).contains_key(k)
                        implies self.as_map().contains_key(k) by {
                        let n = choose|n: int|
                            0 <= n < pre.entries@.len()
                                && (#[trigger] pre.entries@[n]).0 == k.0
                                && pre.entries@[n].1 == k.1 && pre.entries@[n].2 == k.2;
                        let m = if n < i { n } else { n - 1 };
                        assert(self.entries@[m].0 == k.0 && self.entries@[m].1 == k.1
                            && self.entries@[m].2 == k.2);
                    }
                    assert(self.as_map() =~= pre.as_map().remove((k0, k1, k2)));
                }
            }
            None => {
                proof {
                    assert(self.as_map() =~= pre.as_map().remove((k0, k1, k2)));
                }
            }
        }
    }
}

} // verus!
