//! Fee deposits and withdrawals on the central contract: users fund their
//! balance with accepted tokens whose stable value exceeds the configured
//! minimum, and may withdraw what they still hold; a withdrawal entry the
//! user does not hold is skipped, never an error.
use vstd::prelude::*;

use crate::fee_contract::SubscriptionFee;
use crate::pair_actions::{get_price, price_of_spec, PairDirectory};
use crate::payments::{add_payment_spec, deduct_payment_spec, Payment, UniquePayments};
use crate::results::FeeError;

verus! {

/// Left-to-right processing of a withdrawal request list against held funds:
/// each (token, amount) entry that the funds cover in full is deducted and
/// paid out; every other entry is skipped.
pub open spec fn withdraw_funds_spec(
    funds: Seq<Payment>,
    requests: Seq<(u64, u64)>,
) -> (Seq<Payment>, Seq<Payment>)
    decreases requests.len(),
{
    if requests.len() == 0 {
        (funds, Seq::empty())
    } else {
        let (f1, o1) = withdraw_funds_spec(funds, requests.drop_last());
        let p = Payment {
            token_identifier: requests.last().0,
            token_nonce: 0,
            amount: requests.last().1,
        };
        match deduct_payment_spec(f1, p) {
            Some(f2) => (f2, o1.push(p)),
            None => (f1, o1),
        }
    }
}

impl SubscriptionFee {
    /// Deposit an attached fee payment for the caller, issuing the caller a
    /// compact id on first contact. The payment must be a positive amount of
    /// an accepted fungible token, priceable, and worth strictly more than
    /// the configured minimum in the stable token; it is merged into the
    /// caller's balances, bounded by the per-user deposit cap.
    pub fn deposit(&mut self, pairs: &PairDirectory, caller: u64, payment: Payment)
        -> (r: Result<(), FeeError>)
        requires
            old(self).wf(),
            pairs.wf(),
        ensures
            final(self).wf(),
            match r {
                Ok(()) => {
                    &&& payment.amount > 0
                    &&& payment.token_nonce == 0
                    &&& old(self).accepted_fees_tokens@.contains(payment.token_identifier)
                    &&& {
                        let value = price_of_spec(
                            old(self).stable_token_id,
                            old(self).wegld_token_id,
                            old(self).pair_address_for_token.as_map(),
                            pairs.as_map(),
                            payment.token_identifier,
                            payment.amount,
                        );
                        &&& value is Some
                        &&& value.unwrap() > old(self).min_user_deposit_value
                    }
                    &&& {
                        let uid = final(self).user_id.ids()[caller];
                        &&& final(self).user_id.ids().contains_key(caller)
                        &&& (old(self).user_id.ids().contains_key(caller)
                            ==> final(self).user_id == old(self).user_id
                                && uid == old(self).user_id.ids()[caller])
                        &&& (!old(self).user_id.ids().contains_key(caller)
                            ==> final(self).user_id.ids()
                                == old(self).user_id.ids().insert(caller, uid)
                                && final(self).user_id.addresses()
                                    == old(self).user_id.addresses().insert(uid, caller))
                        &&& add_payment_spec(old(self).deposits_of(uid), payment)
                            == Some(final(self).deposits_of(uid))
                        &&& final(self).user_deposited_fees.as_map()
                            == old(self).user_deposited_fees.as_map().insert(
                                uid, final(self).user_deposited_fees.as_map()[uid])
                        &&& (old(self).user_deposited_fees.as_map().contains_key(uid)
                            ==> final(self).deposits_of(uid).len() < old(self).max_user_deposits)
                        &&& *final(self) == (SubscriptionFee {
                            user_id: final(self).user_id,
                            user_deposited_fees: final(self).user_deposited_fees,
                            ..*old(self)
                        })
                    }
                },
                Err(e) => *final(self) == *old(self) && ({
                    ||| e == FeeError::NoPayment && payment.amount == 0
                    ||| e == FeeError::NonFungiblePayment && payment.token_nonce != 0
                    ||| e == FeeError::InvalidPaymentToken
                        && !old(self).accepted_fees_tokens@.contains(payment.token_identifier)
                    ||| e == FeeError::PriceQueryFailed
                        && price_of_spec(
                            old(self).stable_token_id,
                            old(self).wegld_token_id,
                            old(self).pair_address_for_token.as_map(),
                            pairs.as_map(),
                            payment.token_identifier,
                            payment.amount,
                        ) is None
                    ||| e == FeeError::ValueBelowMinimum
                        && price_of_spec(
                            old(self).stable_token_id,
                            old(self).wegld_token_id,
                            old(self).pair_address_for_token.as_map(),
                            pairs.as_map(),
                            payment.token_identifier,
                            payment.amount,
                        ).unwrap() <= old(self).min_user_deposit_value
                    ||| e == FeeError::IdSpaceExhausted
                        && !old(self).user_id.ids().contains_key(caller)
                        && old(self).user_id.next_id_spec() == u64::MAX
                    ||| e == FeeError::MaxUserDepositsReached
                        && old(self).user_id.ids().contains_key(caller)
                        && ({
                            let uid = old(self).user_id.ids()[caller];
                            &&& old(self).user_deposited_fees.as_map().contains_key(uid)
                            &&& add_payment_spec(old(self).deposits_of(uid), payment) is Some
                            &&& add_payment_spec(old(self).deposits_of(uid), payment)
                                .unwrap().len() >= old(self).max_user_deposits
                        })
                    ||| e == FeeError::AmountOverflow
                        && old(self).user_id.ids().contains_key(caller)
                        && add_payment_spec(
                            old(self).deposits_of(old(self).user_id.ids()[caller]),
                            payment,
                        ) is None
                }),
            },
    {
        if payment.amount == 0 {
            return Err(FeeError::NoPayment);
        }
        if payment.token_nonce != 0 {
            return Err(FeeError::NonFungiblePayment);
        }
        if !self.accepted_fees_tokens.contains(payment.token_identifier) {
            return Err(FeeError::InvalidPaymentToken);
        }
        let value = match get_price(
            self.stable_token_id,
            self.wegld_token_id,
            &self.pair_address_for_token,
            pairs,
            payment.token_identifier,
            payment.amount,
        ) {
            Some(v) => v,
            None => {
                return Err(FeeError::PriceQueryFailed);
            }
        };
        if value <= self.min_user_deposit_value {
            return Err(FeeError::ValueBelowMinimum);
        }
        let ghost pre = *self;
        match self.user_id.get_id_non_zero(caller) {
            Some(caller_id) => {
                proof {
                    pre.user_id.lemma_ids_non_null(caller);
                }
                match self.user_deposited_fees.get(caller_id) {
                    Some(existing) => {
                        let mut fees = existing.clone_payments();
                        if !fees.add_payment(payment) {
                            return Err(FeeError::AmountOverflow);
                        }
                        if fees.len() >= self.max_user_deposits {
                            return Err(FeeError::MaxUserDepositsReached);
                        }
                        self.user_deposited_fees.set(caller_id, fees);
                        proof {
                            assert forall|u: u64|
                                self.user_deposited_fees.as_map().contains_key(u)
                                implies (#[trigger] self.user_deposited_fees.as_map()[u]).wf() by {
                                if u != caller_id {
                                    assert(pre.user_deposited_fees.as_map()[u].wf());
                                }
                            }
                        }
                        Ok(())
                    }
                    None => {
                        let fees = UniquePayments::from_single(payment);
                        proof {
                            assert(add_payment_spec(Seq::<Payment>::empty(), payment)
                                == Some(seq![payment]));
                        }
                        self.user_deposited_fees.set(caller_id, fees);
                        proof {
                            assert forall|u: u64|
                                self.user_deposited_fees.as_map().contains_key(u)
                                implies (#[trigger] self.user_deposited_fees.as_map()[u]).wf() by {
                                if u != caller_id {
                                    assert(pre.user_deposited_fees.as_map()[u].wf());
                                }
                            }
                        }
                        Ok(())
                    }
                }
            }
            None => {
                let caller_id = match self.user_id.insert_new(caller) {
                    Some(id) => id,
                    None => {
                        return Err(FeeError::IdSpaceExhausted);
                    }
                };
                let fees = UniquePayments::from_single(payment);
                proof {
                    assert(add_payment_spec(Seq::<Payment>::empty(), payment)
                        == Some(seq![payment]));
                }
                self.user_deposited_fees.set(caller_id, fees);
                proof {
                    assert forall|u: u64| self.user_deposited_fees.as_map().contains_key(u)
                        implies (#[trigger] self.user_deposited_fees.as_map()[u]).wf() by {
                        if u != caller_id {
                            assert(pre.user_deposited_fees.as_map()[u].wf());
                        }
                    }
                }
                Ok(())
            }
        }
    }

    /// Pay back the listed (token, amount) entries from the caller's fee
    /// balances, skipping — not failing on — entries the caller does not
    /// hold in full, and return the payments actually made.
    pub fn withdraw_funds(&mut self, caller: u64, tokens_to_withdraw: &Vec<(u64, u64)>)
        -> (r: Result<Vec<Payment>, FeeError>)
        requires
            old(self).wf(),
        ensures
            final(self).wf(),
            match r {
                Ok(outputs) => {
                    &&& old(self).user_id.ids().contains_key(caller)
                    &&& {
                        let uid = old(self).user_id.ids()[caller];
                        let (remaining, outs) = withdraw_funds_spec(
                            old(self).deposits_of(uid), tokens_to_withdraw@);
                        &&& outputs@ == outs
                        &&& final(self).deposits_of(uid) == remaining
                        &&& final(self).user_deposited_fees.as_map()
                            == old(self).user_deposited_fees.as_map().insert(
                                uid, final(self).user_deposited_fees.as_map()[uid])
                        &&& *final(self) == (SubscriptionFee {
                            user_deposited_fees: final(self).user_deposited_fees,
                            ..*old(self)
                        })
                    }
                },
                Err(e) => *final(self) == *old(self)
                    && e == FeeError::UnknownAddress
                    && !old(self).user_id.ids().contains_key(caller),
            },
    {
        let caller_id = match self.user_id.get_id_non_zero(caller) {
            Some(id) => id,
            None => {
                return Err(FeeError::UnknownAddress);
            }
        };
        let ghost pre = *self;
        proof {
            pre.user_id.lemma_ids_non_null(caller);
        }
        let mut funds = match self.user_deposited_fees.get(caller_id) {
            Some(existing) => existing.clone_payments(),
            None => UniquePayments::new(),
        };
        proof {
            assert(funds@ == pre.deposits_of(caller_id));
            assert(funds.wf());
        }
        let ghost funds0 = funds@;
        let mut outputs: Vec<Payment> = Vec::new();
        let mut i: usize = 0;
        while i < tokens_to_withdraw.len()
            invariant
                funds.wf(),
                i <= tokens_to_withdraw@.len(),
                (funds@, outputs@) == withdraw_funds_spec(
                    funds0, tokens_to_withdraw@.subrange(0, i as int)),
            decreases tokens_to_withdraw@.len() - i,
        {
            let (token_id, amount) = tokens_to_withdraw[i];
            let p = Payment { token_identifier: token_id, token_nonce: 0, amount };
            let ghost sub_next = tokens_to_withdraw@.subrange(0, (i + 1) as int);
            proof {
                assert(sub_next.drop_last() =~= tokens_to_withdraw@.subrange(0, i as int));
                assert(sub_next.last() == tokens_to_withdraw@[i as int]);
            }
            match funds.deduct_payment(&p) {
                Ok(()) => {
                    outputs.push(p);
                }
                Err(()) => {}
            }
            i += 1;
        }
        proof {
            assert(tokens_to_withdraw@.subrange(0, tokens_to_withdraw@.len() as int)
                =~= tokens_to_withdraw@);
        }
        self.user_deposited_fees.set(caller_id, funds);
        proof {
            assert forall|u: u64| self.user_deposited_fees.as_map().contains_key(u)
                implies (#[trigger] self.user_deposited_fees.as_map()[u]).wf() by {
                if u != caller_id {
                    assert(pre.user_deposited_fees.as_map()[u].wf());
                }
            }
        }
        Ok(outputs)
    }
}

} // verus!
