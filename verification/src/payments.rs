//! Token payments and the per-user deposited-funds collection: an unordered
//! list of (token, nonce, amount) entries in which each (token, nonce) pair
//! appears at most once; amounts are merged on deposit and decremented or
//! removed on deduction.
use vstd::prelude::*;

verus! {

/// A fungible or semi-fungible token amount. Token identifiers and nonces
/// are compact integer ids issued by the surrounding system.
#[derive(Clone, Copy, PartialEq, Eq, Structural, Debug)]
pub struct Payment {
    pub token_identifier: u64,
    pub token_nonce: u64,
    pub amount: u64,
}

impl Payment {
    pub fn new(token_identifier: u64, token_nonce: u64, amount: u64) -> (r: Payment)
        ensures
            r == (Payment { token_identifier, token_nonce, amount }),
    {
        Payment { token_identifier, token_nonce, amount }
    }
}

/// Whether some entry of `s` carries the (token, nonce) pair.
pub open spec fn has_entry(s: Seq<Payment>, token: u64, nonce: u64) -> bool {
    exists|i: int|
        0 <= i < s.len() && (#[trigger] s[i]).token_identifier == token && s[i].token_nonce == nonce
}

/// The index of the (token, nonce) entry; meaningful only when `has_entry`
/// holds and the pair occurs once.
pub open spec fn entry_index(s: Seq<Payment>, token: u64, nonce: u64) -> int {
    choose|i: int|
        0 <= i < s.len() && (#[trigger] s[i]).token_identifier == token && s[i].token_nonce == nonce
}

/// The amount held for a (token, nonce) pair, zero when absent.
pub open spec fn amount_of(s: Seq<Payment>, token: u64, nonce: u64) -> u64 {
    if has_entry(s, token, nonce) {
        s[entry_index(s, token, nonce)].amount
    } else {
        0
    }
}

/// Each (token, nonce) pair appears at most once.
pub open spec fn entries_unique(s: Seq<Payment>) -> bool {
    forall|i: int, j: int|
        0 <= i < j < s.len()
            ==> ((#[trigger] s[i]).token_identifier, s[i].token_nonce)
                != ((#[trigger] s[j]).token_identifier, s[j].token_nonce)
}

/// Merge-or-append of one payment; `None` when merging would overflow.
pub open spec fn add_payment_spec(s: Seq<Payment>, p: Payment) -> Option<Seq<Payment>> {
    if has_entry(s, p.token_identifier, p.token_nonce) {
        let i = entry_index(s, p.token_identifier, p.token_nonce);
        if s[i].amount + p.amount <= u64::MAX {
            Some(s.update(i, Payment {
                token_identifier: p.token_identifier,
                token_nonce: p.token_nonce,
                amount: (s[i].amount + p.amount) as u64,
            }))
        } else {
            None
        }
    } else {
        Some(s.push(p))
    }
}

/// Exact-match deduction: `None` when the pair is absent or the held amount
/// is too small; an exactly exhausted entry is removed, otherwise decremented.
pub open spec fn deduct_payment_spec(s: Seq<Payment>, p: Payment) -> Option<Seq<Payment>> {
    if has_entry(s, p.token_identifier, p.token_nonce) {
        let i = entry_index(s, p.token_identifier, p.token_nonce);
        if s[i].amount < p.amount {
            None
        } else if s[i].amount == p.amount {
            Some(s.remove(i))
        } else {
            Some(s.update(i, Payment {
                token_identifier: p.token_identifier,
                token_nonce: p.token_nonce,
                amount: (s[i].amount - p.amount) as u64,
            }))
        }
    } else {
        None
    }
}

/// A user's deposited funds: unordered token balances, each (token, nonce)
/// pair held at most once.
#[derive(Clone)]
pub struct UniquePayments {
    payments: Vec<Payment>,
}

impl View for UniquePayments {
    type V = Seq<Payment>;

    closed spec fn view(&self) -> Seq<Payment> {
        self.payments@
    }
}

impl UniquePayments {
    pub open spec fn wf(self) -> bool {
        entries_unique(self@)
    }

    pub fn new() -> (r: Self)
        ensures
            r.wf(),
            r@ == Seq::<Payment>::empty(),
    {
        let r = UniquePayments { payments: Vec::new() };
        proof {
            assert(r@ =~= Seq::<Payment>::empty());
        }
        r
    }

    pub fn from_single(p: Payment) -> (r: Self)
        ensures
            r.wf(),
            r@ =~= seq![p],
    {
        let mut v: Vec<Payment> = Vec::new();
        v.push(p);
        UniquePayments { payments: v }
    }

    /// Rebuild from a list already known to hold each (token, nonce) once.
    pub fn new_from_unique_payments(payments: Vec<Payment>) -> (r: Self)
        requires
            entries_unique(payments@),
        ensures
            r.wf(),
            r@ == payments@,
    {
        UniquePayments { payments }
    }

    pub fn len(&self) -> (r: usize)
        ensures
            r == self@.len(),
    {
        self.payments.len()
    }

    pub fn get_at(&self, i: usize) -> (r: Payment)
        requires
            i < self@.len(),
        ensures
            r == self@[i as int],
    {
        self.payments[i]
    }

    /// A fresh copy of the held entries.
    pub fn clone_payments(&self) -> (r: Self)
        ensures
            r@ == self@,
    {
        let mut items: Vec<Payment> = Vec::new();
        let mut i: usize = 0;
        while i < self.payments.len()
            invariant
                i <= self@.len(),
                items@ == self@.subrange(0, i as int),
            decreases self@.len() - i,
        {
            items.push(self.payments[i]);
            proof {
                assert(self@.subrange(0, (i + 1) as int)
                    =~= self@.subrange(0, i as int).push(self@[i as int]));
            }
            i += 1;
        }
        proof {
            assert(self@.subrange(0, self@.len() as int) =~= self@);
        }
        UniquePayments { payments: items }
    }

    /// Hand the entries out as a plain list, in storage order.
    pub fn into_payments(self) -> (r: Vec<Payment>)
        ensures
            r@ == self@,
    {
        self.payments
    }

    fn find_index(&self, token: u64, nonce: u64) -> (r: Option<usize>)
        requires
            self.wf(),
        ensures
            match r {
                Some(i) => has_entry(self@, token, nonce)
                    && i == entry_index(self@, token, nonce)
                    && i < self@.len()
                    && self@[i as int].token_identifier == token
                    && self@[i as int].token_nonce == nonce,
                None => !has_entry(self@, token, nonce),
            },
    {
        let mut i: usize = 0;
        while i < self.payments.len()
            invariant
                self.wf(),
                i <= self@.len(),
                forall|j: int| 0 <= j < i
                    ==> ((#[trigger] self@[j]).token_identifier, self@[j].token_nonce)
                        != (token, nonce),
            decreases self@.len() - i,
        {
            if self.payments[i].token_identifier == token && self.payments[i].token_nonce == nonce {
                proof {
                    let n = entry_index(self@, token, nonce);
                    assert(self@[n].token_identifier == token && self@[n].token_nonce == nonce);
                    assert(n == i);
                }
                return Some(i);
            }
            i += 1;
        }
        None
    }

    /// Merge-or-append one payment. Fails, changing nothing, only when the
    /// merged amount would not fit the amount type.
    pub fn add_payment(&mut self, p: Payment) -> (ok: bool)
        requires
            old(self).wf(),
        ensures
            final(self).wf(),
            match add_payment_spec(old(self)@, p) {
                Some(s) => ok && final(self)@ == s,
                None => !ok && final(self)@ == old(self)@,
            },
    {
        match self.find_index(p.token_identifier, p.token_nonce) {
            Some(i) => {
                let held = self.payments[i].amount;
                if p.amount <= u64::MAX - held {
                    let merged = Payment {
                        token_identifier: p.token_identifier,
                        token_nonce: p.token_nonce,
                        amount: held + p.amount,
                    };
                    self.payments.remove(i);
                    self.payments.insert(i, merged);
                    proof {
                        assert(self@ =~= add_payment_spec(old(self)@, p).unwrap());
                    }
                    true
                } else {
                    false
                }
            }
            None => {
                self.payments.push(p);
                true
            }
        }
    }

    /// Exact-match deduction of `p` from the held funds.
    pub fn deduct_payment(&mut self, p: &Payment) -> (r: Result<(), ()>)
        requires
            old(self).wf(),
        ensures
            final(self).wf(),
            match deduct_payment_spec(old(self)@, *p) {
                Some(s) => r is Ok && final(self)@ == s,
                None => r is Err && final(self)@ == old(self)@,
            },
    {
        match self.find_index(p.token_identifier, p.token_nonce) {
            Some(i) => {
                let held = self.payments[i].amount;
                if held < p.amount {
                    Err(())
                } else if held == p.amount {
                    self.payments.remove(i);
                    Ok(())
                } else {
                    let rest = Payment {
                        token_identifier: p.token_identifier,
                        token_nonce: p.token_nonce,
                        amount: held - p.amount,
                    };
                    self.payments.remove(i);
                    self.payments.insert(i, rest);
                    proof {
                        assert(self@ =~= deduct_payment_spec(old(self)@, *p).unwrap());
                    }
                    Ok(())
                }
            }
            None => Err(()),
        }
    }

    /// Remove and return the first entry carrying `token`, whatever its nonce.
    pub fn find_token(&mut self, token: u64) -> (r: Option<Payment>)
        requires
            old(self).wf(),
        ensures
            final(self).wf(),
            match r {
                Some(p) => {
                    &&& exists|i: int|
                        0 <= i < old(self)@.len()
                            && (#[trigger] old(self)@[i]).token_identifier == token
                            && old(self)@[i] == p
                            && final(self)@ == old(self)@.remove(i)
                            && forall|j: int|
                                0 <= j < i ==> (#[trigger] old(self)@[j]).token_identifier != token
                },
                None => final(self)@ == old(self)@
                    && forall|i: int|
                        0 <= i < old(self)@.len()
                            ==> (#[trigger] old(self)@[i]).token_identifier != token,
            },
    {
        let mut i: usize = 0;
        while i < self.payments.len()
            invariant
                self.wf(),
                i <= self@.len(),
                self@ == old(self)@,
                forall|j: int| 0 <= j < i
                    ==> (#[trigger] self@[j]).token_identifier != token,
            decreases self@.len() - i,
        {
            if self.payments[i].token_identifier == token {
                let found = self.payments[i];
                self.payments.remove(i);
                return Some(found);
            }
            i += 1;
        }
        None
    }
}

} // verus!
