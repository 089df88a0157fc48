//! Action-token deposits: tokens users leave with the fee contract for
//! service endpoints to spend, separate from fee deposits. Withdrawal
//! requests name (token, nonce, amount) triples; a triple the user does not
//! hold in full is skipped, never an error.
use vstd::prelude::*;

use crate::fee_contract::SubscriptionFee;
use crate::payments::{add_payment_spec, deduct_payment_spec, Payment, UniquePayments};
use crate::results::FeeError;

verus! {

/// Left-to-right processing of a withdrawal request list against held
/// tokens: each (token, nonce, amount) triple held in full is deducted and
/// paid out; every other triple is skipped.
pub open spec fn withdraw_tokens_spec(
    funds: Seq<Payment>,
    requests: Seq<(u64, u64, u64)>,
) -> (Seq<Payment>, Seq<Payment>)
    decreases requests.len(),
{
    if requests.len() == 0 {
        (funds, Seq::empty())
    } else {
        let (f1, o1) = withdraw_tokens_spec(funds, requests.drop_last());
        let p = Payment {
            token_identifier: requests.last().0,
            token_nonce: requests.last().1,
            amount: requests.last().2,
        };
        match deduct_payment_spec(f1, p) {
            Some(f2) => (f2, o1.push(p)),
            None => (f1, o1),
        }
    }
}

impl SubscriptionFee {
    /// A user's deposited action tokens; empty when none are stored.
    pub open spec fn tokens_of(self, user_id: u64) -> Seq<Payment> {
        if self.user_deposited_tokens.as_map().contains_key(user_id) {
            self.user_deposited_tokens.as_map()[user_id]@
        } else {
            Seq::empty()
        }
    }

    /// Deposit an attached action-token payment for the caller, issuing the
    /// caller a compact id on first contact. The payment must be a positive
    /// amount of an accepted action token; it is merged into the caller's
    /// held tokens.
    pub fn deposit_tokens(&mut self, caller: u64, payment: Payment) -> (r: Result<(), FeeError>)
        requires
            old(self).wf(),
        ensures
            final(self).wf(),
            match r {
                Ok(()) => {
                    &&& payment.amount > 0
                    &&& old(self).accepted_user_tokens@.contains(payment.token_identifier)
                    &&& {
                        let uid = final(self).user_id.ids()[caller];
                        &&& final(self).user_id.ids().contains_key(caller)
                        &&& (old(self).user_id.ids().contains_key(caller)
                            ==> final(self).user_id == old(self).user_id
                                && uid == old(self).user_id.ids()[caller])
                        &&& (!old(self).user_id.ids().contains_key(caller)
                            ==> final(self).user_id.ids()
                                == old(self).user_id.ids().insert(caller, uid)
                                && final(self).user_id.addresses()
                                    == old(self).user_id.addresses().insert(uid, caller))
                        &&& add_payment_spec(old(self).tokens_of(uid), payment)
                            == Some(final(self).tokens_of(uid))
                        &&& final(self).user_deposited_tokens.as_map()
                            == old(self).user_deposited_tokens.as_map().insert(
                                uid, final(self).user_deposited_tokens.as_map()[uid])
                        &&& *final(self) == (SubscriptionFee {
                            user_id: final(self).user_id,
                            user_deposited_tokens: final(self).user_deposited_tokens,
                            ..*old(self)
                        })
                    }
                },
                Err(e) => *final(self) == *old(self) && ({
                    ||| e == FeeError::NoPayment && payment.amount == 0
                    ||| e == FeeError::InvalidPaymentToken
                        && !old(self).accepted_user_tokens@.contains(payment.token_identifier)
                    ||| e == FeeError::IdSpaceExhausted
                        && !old(self).user_id.ids().contains_key(caller)
                        && old(self).user_id.next_id_spec() == u64::MAX
                    ||| e == FeeError::AmountOverflow
                        && old(self).user_id.ids().contains_key(caller)
                        && add_payment_spec(
                            old(self).tokens_of(old(self).user_id.ids()[caller]),
                            payment,
                        ) is None
                }),
            },
    {
        if payment.amount == 0 {
            return Err(FeeError::NoPayment);
        }
        if !self.accepted_user_tokens.contains(payment.token_identifier) {
            return Err(FeeError::InvalidPaymentToken);
        }
        let ghost pre = *self;
        match self.user_id.get_id_non_zero(caller) {
            Some(caller_id) => {
                proof {
                    pre.user_id.lemma_ids_non_null(caller);
                }
                match self.user_deposited_tokens.get(caller_id) {
                    Some(existing) => {
                        let mut tokens = existing.clone_payments();
                        if !tokens.add_payment(payment) {
                            return Err(FeeError::AmountOverflow);
                        }
                        self.user_deposited_tokens.set(caller_id, tokens);
                        proof {
                            assert forall|u: u64|
                                self.user_deposited_tokens.as_map().contains_key(u)
                                implies (#[trigger] self.user_deposited_tokens.as_map()[u]).wf()
                                by {
                                if u != caller_id {
                                    assert(pre.user_deposited_tokens.as_map()[u].wf());
                                }
                            }
                        }
                        Ok(())
                    }
                    None => {
                        let tokens = UniquePayments::from_single(payment);
                        proof {
                            assert(add_payment_spec(Seq::<Payment>::empty(), payment)
                                == Some(seq![payment]));
                        }
                        self.user_deposited_tokens.set(caller_id, tokens);
                        proof {
                            assert forall|u: u64|
                                self.user_deposited_tokens.as_map().contains_key(u)
                                implies (#[trigger] self.user_deposited_tokens.as_map()[u]).wf()
                                by {
                                if u != caller_id {
                                    assert(pre.user_deposited_tokens.as_map()[u].wf());
                                }
                            }
                        }
                        Ok(())
                    }
                }
            }
            None => {
                let caller_id = match self.user_id.insert_new(caller) {
                    Some(id) => id,
                    None => {
                        return Err(FeeError::IdSpaceExhausted);
                    }
                };
                let tokens = UniquePayments::from_single(payment);
                proof {
                    assert(add_payment_spec(Seq::<Payment>::empty(), payment)
                        == Some(seq![payment]));
                }
                self.user_deposited_tokens.set(caller_id, tokens);
                proof {
                    assert forall|u: u64| self.user_deposited_tokens.as_map().contains_key(u)
                        implies (#[trigger] self.user_deposited_tokens.as_map()[u]).wf() by {
                        if u != caller_id {
                            assert(pre.user_deposited_tokens.as_map()[u].wf());
                        }
                    }
                }
                Ok(())
            }
        }
    }

    /// Take the payment to attach to a per-user action call: where the
    /// descriptor names an endpoint payment token, the user's first held
    /// entry of that token is removed and handed back to attach; where it
    /// names none, the call goes out without a payment. A named token the
    /// user does not hold fails the action for this user, changing nothing.
    pub fn prepare_action_payment(&mut self, user_id: u64, opt_endpoint_payment: Option<u64>)
        -> (r: Result<Option<Payment>, FeeError>)
        requires
            old(self).wf(),
        ensures
            final(self).wf(),
            match r {
                Ok(None) => opt_endpoint_payment is None && *final(self) == *old(self),
                Ok(Some(p)) => {
                    &&& opt_endpoint_payment == Some(p.token_identifier)
                    &&& exists|i: int|
                        0 <= i < old(self).tokens_of(user_id).len()
                            && (#[trigger] old(self).tokens_of(user_id)[i]).token_identifier
                                == p.token_identifier
                            && old(self).tokens_of(user_id)[i] == p
                            && final(self).tokens_of(user_id)
                                == old(self).tokens_of(user_id).remove(i)
                            && (forall|j: int|
                                0 <= j < i
                                    ==> (#[trigger] old(self).tokens_of(user_id)[j])
                                        .token_identifier != p.token_identifier)
                    &&& final(self).user_deposited_tokens.as_map()
                        == old(self).user_deposited_tokens.as_map().insert(
                            user_id, final(self).user_deposited_tokens.as_map()[user_id])
                    &&& *final(self) == (SubscriptionFee {
                        user_deposited_tokens: final(self).user_deposited_tokens,
                        ..*old(self)
                    })
                },
                Err(e) => {
                    &&& *final(self) == *old(self)
                    &&& e == FeeError::InsufficientFunds
                    &&& opt_endpoint_payment is Some
                    &&& forall|i: int|
                        0 <= i < old(self).tokens_of(user_id).len()
                            ==> (#[trigger] old(self).tokens_of(user_id)[i]).token_identifier
                                != opt_endpoint_payment.unwrap()
                },
            },
    {
        let token = match opt_endpoint_payment {
            Some(token) => token,
            None => {
                return Ok(None);
            }
        };
        let ghost pre = *self;
        let held = match self.user_deposited_tokens.get(user_id) {
            Some(existing) => Some(existing.clone_payments()),
            None => None,
        };
        match held {
            Some(mut tokens) => {
                let ghost before = tokens@;
                match tokens.find_token(token) {
                    Some(found) => {
                        proof {
                            assert(before == pre.tokens_of(user_id));
                            let i = choose|i: int|
                                0 <= i < before.len()
                                    && (#[trigger] before[i]).token_identifier == token
                                    && before[i] == found
                                    && tokens@ == before.remove(i)
                                    && forall|j: int|
                                        0 <= j < i
                                            ==> (#[trigger] before[j]).token_identifier != token;
                            assert(pre.tokens_of(user_id)[i] == found);
                        }
                        self.user_deposited_tokens.set(user_id, tokens);
                        proof {
                            assert forall|u: u64|
                                self.user_deposited_tokens.as_map().contains_key(u)
                                implies (#[trigger] self.user_deposited_tokens.as_map()[u]).wf()
                                by {
                                if u != user_id {
                                    assert(pre.user_deposited_tokens.as_map()[u].wf());
                                }
                            }
                            assert forall|u: u64|
                                self.user_deposited_tokens.as_map().contains_key(u)
                                implies self.user_id.addresses().contains_key(u) by {
                                if u != user_id {
                                    assert(pre.user_deposited_tokens.as_map().contains_key(u));
                                }
                            }
                            let i = choose|i: int|
                                0 <= i < before.len()
                                    && (#[trigger] before[i]).token_identifier == token
                                    && before[i] == found
                                    && self.tokens_of(user_id) == before.remove(i)
                                    && forall|j: int|
                                        0 <= j < i
                                            ==> (#[trigger] before[j]).token_identifier != token;
                            assert(0 <= i < pre.tokens_of(user_id).len()
                                && pre.tokens_of(user_id)[i].token_identifier
                                    == found.token_identifier
                                && pre.tokens_of(user_id)[i] == found
                                && self.tokens_of(user_id) == pre.tokens_of(user_id).remove(i)
                                && forall|j: int|
                                    0 <= j < i
                                        ==> (#[trigger] pre.tokens_of(user_id)[j])
                                            .token_identifier != found.token_identifier);
                        }
                        Ok(Some(found))
                    }
                    None => Err(FeeError::InsufficientFunds),
                }
            }
            None => Err(FeeError::InsufficientFunds),
        }
    }

    /// Pay back the listed (token, nonce, amount) triples from the caller's
    /// held action tokens, skipping — not failing on — triples the caller
    /// does not hold in full, and return the payments actually made.
    pub fn withdraw_tokens(&mut self, caller: u64, tokens_to_withdraw: &Vec<(u64, u64, u64)>)
        -> (r: Result<Vec<Payment>, FeeError>)
        requires
            old(self).wf(),
        ensures
            final(self).wf(),
            match r {
                Ok(outputs) => {
                    &&& old(self).user_id.ids().contains_key(caller)
                    &&& {
                        let uid = old(self).user_id.ids()[caller];
                        let (remaining, outs) = withdraw_tokens_spec(
                            old(self).tokens_of(uid), tokens_to_withdraw@);
                        &&& outputs@ == outs
                        &&& final(self).tokens_of(uid) == remaining
                        &&& final(self).user_deposited_tokens.as_map()
                            == old(self).user_deposited_tokens.as_map().insert(
                                uid, final(self).user_deposited_tokens.as_map()[uid])
                        &&& *final(self) == (SubscriptionFee {
                            user_deposited_tokens: final(self).user_deposited_tokens,
                            ..*old(self)
                        })
                    }
                },
                Err(e) => *final(self) == *old(self)
                    && e == FeeError::UnknownAddress
                    && !old(self).user_id.ids().contains_key(caller),
            },
    {
        let caller_id = match self.user_id.get_id_non_zero(caller) {
            Some(id) => id,
            None => {
                return Err(FeeError::UnknownAddress);
            }
        };
        let ghost pre = *self;
        proof {
            pre.user_id.lemma_ids_non_null(caller);
        }
        let mut funds = match self.user_deposited_tokens.get(caller_id) {
            Some(existing) => existing.clone_payments(),
            None => UniquePayments::new(),
        };
        proof {
            assert(funds@ == pre.tokens_of(caller_id));
        }
        let ghost funds0 = funds@;
        let mut outputs: Vec<Payment> = Vec::new();
        let mut i: usize = 0;
        while i < tokens_to_withdraw.len()
            invariant
                funds.wf(),
                i <= tokens_to_withdraw@.len(),
                (funds@, outputs@) == withdraw_tokens_spec(
                    funds0, tokens_to_withdraw@.subrange(0, i as int)),
            decreases tokens_to_withdraw@.len() - i,
        {
            let (token_id, nonce, amount) = tokens_to_withdraw[i];
            let p = Payment { token_identifier: token_id, token_nonce: nonce, amount };
            proof {
                assert(tokens_to_withdraw@.subrange(0, (i + 1) as int).drop_last()
                    =~= tokens_to_withdraw@.subrange(0, i as int));
                assert(tokens_to_withdraw@.subrange(0, (i + 1) as int).last()
                    == tokens_to_withdraw@[i as int]);
            }
            match funds.deduct_payment(&p) {
                Ok(()) => {
                    outputs.push(p);
                }
                Err(()) => {}
            }
            i += 1;
        }
        proof {
            assert(tokens_to_withdraw@.subrange(0, tokens_to_withdraw@.len() as int)
                =~= tokens_to_withdraw@);
        }
        self.user_deposited_tokens.set(caller_id, funds);
        proof {
            assert forall|u: u64| self.user_deposited_tokens.as_map().contains_key(u)
                implies (#[trigger] self.user_deposited_tokens.as_map()[u]).wf() by {
                if u != caller_id {
                    assert(pre.user_deposited_tokens.as_map()[u].wf());
                }
            }
        }
        Ok(outputs)
    }
}

} // verus!
