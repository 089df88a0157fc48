//! The payment-authorization state machine: a registered service charges a
//! subscriber once per cooldown interval, debiting the subscriber's
//! deposited fees either in the descriptor's named token, in that token's
//! stable-value equivalent, or first-fit from whatever the subscriber holds.
//! A failed attempt changes nothing and reports why, so a batch can skip the
//! user and go on. The whole attempt is mirrored by `subtract_payment_spec`
//! over the contract's mathematical views, which is what the batch engine's
//! resumption proofs compose.
use vstd::prelude::*;

use crate::fee_contract::SubscriptionFee;
use crate::pair_actions::{get_worth_of_price, worth_of_price_spec, PairDirectory, PairState};
use crate::payments::{deduct_payment_spec, Payment, UniquePayments};
use crate::results::{FeeError, ScResult};
use crate::service::ServiceInfo;
use crate::Epoch;

verus! {

/// The cooldown the subscriber-side batch applies between whole passes.
pub const MONTHLY_EPOCHS: Epoch = 30;

/// The parts of the fee contract a charge attempt reads but never changes.
pub struct FeeStaticView {
    pub stable_token_id: u64,
    pub wegld_token_id: u64,
    pub pair_for_token: Map<u64, u64>,
    pub service_ids: Map<u64, u64>,
    pub user_addresses: Map<u64, u64>,
    pub service_info: Map<u64, Seq<ServiceInfo>>,
    pub subscribed_users: Map<(u64, u64), Seq<u64>>,
}

/// The parts of the fee contract a charge attempt may change.
pub struct ChargeState {
    pub deposits: Map<u64, Seq<Payment>>,
    pub last_action: Map<(u64, u64, u64), u64>,
}

pub open spec fn deposits_in(st: ChargeState, user_id: u64) -> Seq<Payment> {
    if st.deposits.contains_key(user_id) {
        st.deposits[user_id]
    } else {
        Seq::empty()
    }
}

pub open spec fn last_action_in(st: ChargeState, user_id: u64, sid: u64, ix: u64) -> u64 {
    if st.last_action.contains_key((user_id, sid, ix)) {
        st.last_action[(user_id, sid, ix)]
    } else {
        0
    }
}

pub open spec fn descriptors_in(cfg: FeeStaticView, sid: u64) -> Seq<ServiceInfo> {
    if cfg.service_info.contains_key(sid) {
        cfg.service_info[sid]
    } else {
        Seq::empty()
    }
}

pub open spec fn subscribers_in(cfg: FeeStaticView, sid: u64, ix: u64) -> Seq<u64> {
    if cfg.subscribed_users.contains_key((sid, ix)) {
        cfg.subscribed_users[(sid, ix)]
    } else {
        Seq::empty()
    }
}

impl SubscriptionFee {
    /// The static view of this contract.
    pub open spec fn static_view(self) -> FeeStaticView {
        FeeStaticView {
            stable_token_id: self.stable_token_id,
            wegld_token_id: self.wegld_token_id,
            pair_for_token: self.pair_address_for_token.as_map(),
            service_ids: self.service_id.ids(),
            user_addresses: self.user_id.addresses(),
            service_info: self.service_info.as_map().map_values(|v: Vec<ServiceInfo>| v@),
            subscribed_users: self.subscribed_users.as_map().map_values(
                |s: crate::store::OrderedSet| s@),
        }
    }

    /// The chargeable view of this contract.
    pub open spec fn charge_state(self) -> ChargeState {
        ChargeState {
            deposits: self.user_deposited_fees.as_map().map_values(|p: UniquePayments| p@),
            last_action: self.user_last_action_epoch.as_map(),
        }
    }
}

/// First-fit "any token" debit: walk the held funds in storage order and
/// take the first token whose stable-value equivalent of `amount_in_stable`
/// is quotable and covered by the held amount. Yields the debited payment
/// and the remaining funds.
pub open spec fn subtract_any_token_spec(
    stable_token_id: u64,
    reference_token_id: u64,
    pair_for_token: Map<u64, u64>,
    pairs: Map<u64, PairState>,
    funds: Seq<Payment>,
    i: int,
    amount_in_stable: u64,
) -> Option<(Payment, Seq<Payment>)>
    decreases funds.len() - i,
{
    if i < 0 || i >= funds.len() {
        None
    } else {
        let token = funds[i].token_identifier;
        let attempt = match worth_of_price_spec(
            stable_token_id, reference_token_id, pair_for_token, pairs, token, amount_in_stable,
        ) {
            Some(worth) => {
                let p = Payment { token_identifier: token, token_nonce: 0, amount: worth };
                match deduct_payment_spec(funds, p) {
                    Some(remaining) => Some((p, remaining)),
                    None => None,
                }
            },
            None => None,
        };
        match attempt {
            Some(done) => Some(done),
            None => subtract_any_token_spec(
                stable_token_id, reference_token_id, pair_for_token, pairs, funds,
                i + 1, amount_in_stable,
            ),
        }
    }
}

/// What one charge attempt does to the chargeable state: on success, the
/// subscriber's funds are replaced by what the debit left and the cooldown
/// marker is set to the charge epoch; on failure nothing changes and the
/// error says why. This is the whole behaviour of `subtract_payment`.
pub open spec fn subtract_payment_spec(
    cfg: FeeStaticView,
    pairs: Map<u64, PairState>,
    st: ChargeState,
    caller: u64,
    service_index: usize,
    user_id: u64,
    current_epoch: Epoch,
) -> (ChargeState, ScResult<Payment, FeeError>) {
    if !cfg.service_ids.contains_key(caller) {
        (st, ScResult::Failure(FeeError::CallerNotRegisteredService))
    } else {
        let sid = cfg.service_ids[caller];
        let descriptors = descriptors_in(cfg, sid);
        if service_index >= descriptors.len() {
            (st, ScResult::Failure(FeeError::InvalidServiceIndex))
        } else if !subscribers_in(cfg, sid, service_index as u64).contains(user_id) {
            (st, ScResult::Failure(FeeError::NotSubscribed))
        } else {
            let info = descriptors[service_index as int];
            if info.subscription_epochs == 0 {
                (st, ScResult::Failure(FeeError::ZeroInterval))
            } else if last_action_in(st, user_id, sid, service_index as u64)
                + info.subscription_epochs > current_epoch {
                (st, ScResult::Failure(FeeError::TooSoon))
            } else if !cfg.user_addresses.contains_key(user_id) {
                (st, ScResult::Failure(FeeError::UnknownUser))
            } else {
                let funds = deposits_in(st, user_id);
                let outcome = match info.opt_payment_token {
                    Some(token) => if info.payment_in_stable {
                        match worth_of_price_spec(
                            cfg.stable_token_id,
                            cfg.wegld_token_id,
                            cfg.pair_for_token,
                            pairs,
                            token,
                            info.amount,
                        ) {
                            Some(worth) => {
                                let p = Payment {
                                    token_identifier: token,
                                    token_nonce: 0,
                                    amount: worth,
                                };
                                match deduct_payment_spec(funds, p) {
                                    Some(remaining) => Ok((p, remaining)),
                                    None => Err(FeeError::InsufficientFunds),
                                }
                            },
                            None => Err(FeeError::PriceQueryFailed),
                        }
                    } else {
                        let p = Payment {
                            token_identifier: token,
                            token_nonce: 0,
                            amount: info.amount,
                        };
                        match deduct_payment_spec(funds, p) {
                            Some(remaining) => Ok((p, remaining)),
                            None => Err(FeeError::InsufficientFunds),
                        }
                    },
                    None => match subtract_any_token_spec(
                        cfg.stable_token_id,
                        cfg.wegld_token_id,
                        cfg.pair_for_token,
                        pairs,
                        funds,
                        0,
                        info.amount,
                    ) {
                        Some(done) => Ok(done),
                        None => Err(FeeError::NoSuitableFunds),
                    },
                };
                match outcome {
                    Ok((payment, remaining)) => (
                        ChargeState {
                            deposits: st.deposits.insert(user_id, remaining),
                            last_action: st.last_action.insert(
                                (user_id, sid, service_index as u64), current_epoch),
                        },
                        ScResult::Success(payment),
                    ),
                    Err(e) => (st, ScResult::Failure(e)),
                }
            }
        }
    }
}

/// Repeated charge attempts within the cooldown deterministically fail
/// without side effects: after a successful charge, any further attempt on
/// the same (service, index, user) before the descriptor's interval has
/// elapsed fails with `TooSoon` and leaves the state exactly as the first
/// charge left it.
pub proof fn lemma_charge_cooldown_idempotent(
    cfg: FeeStaticView,
    pairs: Map<u64, PairState>,
    st: ChargeState,
    caller: u64,
    service_index: usize,
    user_id: u64,
    first_epoch: Epoch,
    second_epoch: Epoch,
)
    requires
        subtract_payment_spec(cfg, pairs, st, caller, service_index, user_id, first_epoch).1
            is Success,
        second_epoch < first_epoch + descriptors_in(
            cfg, cfg.service_ids[caller])[service_index as int].subscription_epochs,
    ensures
        ({
            let (st1, _) = subtract_payment_spec(
                cfg, pairs, st, caller, service_index, user_id, first_epoch);
            subtract_payment_spec(cfg, pairs, st1, caller, service_index, user_id, second_epoch)
                == (st1, ScResult::<Payment, FeeError>::Failure(FeeError::TooSoon))
        }),
{
    let sid = cfg.service_ids[caller];
    let (st1, _) = subtract_payment_spec(
        cfg, pairs, st, caller, service_index, user_id, first_epoch);
    assert(last_action_in(st1, user_id, sid, service_index as u64) == first_epoch);
}

/// A failed charge attempt leaves the chargeable state exactly as it was.
pub proof fn lemma_subtract_payment_failure_no_change(
    cfg: FeeStaticView,
    pairs: Map<u64, PairState>,
    st: ChargeState,
    caller: u64,
    service_index: usize,
    user_id: u64,
    current_epoch: Epoch,
)
    ensures
        subtract_payment_spec(cfg, pairs, st, caller, service_index, user_id, current_epoch).1
            is Failure
            ==> subtract_payment_spec(
                cfg, pairs, st, caller, service_index, user_id, current_epoch).0 == st,
{
}

impl SubscriptionFee {
    /// First-fit "any token" debit, executable side of
    /// `subtract_any_token_spec`; mutates nothing, handing back the payment
    /// and the remaining funds for the caller to commit.
    fn subtract_any_token(
        &self,
        pairs: &PairDirectory,
        funds: &UniquePayments,
        amount_in_stable: u64,
    ) -> (r: Option<(Payment, UniquePayments)>)
        requires
            self.wf(),
            pairs.wf(),
            funds.wf(),
        ensures
            match r {
                Some((p, remaining)) => {
                    &&& remaining.wf()
                    &&& subtract_any_token_spec(
                        self.stable_token_id,
                        self.wegld_token_id,
                        self.pair_address_for_token.as_map(),
                        pairs.as_map(),
                        funds@,
                        0,
                        amount_in_stable,
                    ) == Some((p, remaining@))
                },
                None => subtract_any_token_spec(
                    self.stable_token_id,
                    self.wegld_token_id,
                    self.pair_address_for_token.as_map(),
                    pairs.as_map(),
                    funds@,
                    0,
                    amount_in_stable,
                ) is None,
            },
    {
        let mut i: usize = 0;
        while i < funds.len()
            invariant
                self.wf(),
                pairs.wf(),
                funds.wf(),
                i <= funds@.len(),
                subtract_any_token_spec(
                    self.stable_token_id,
                    self.wegld_token_id,
                    self.pair_address_for_token.as_map(),
                    pairs.as_map(),
                    funds@,
                    0,
                    amount_in_stable,
                ) == subtract_any_token_spec(
                    self.stable_token_id,
                    self.wegld_token_id,
                    self.pair_address_for_token.as_map(),
                    pairs.as_map(),
                    funds@,
                    i as int,
                    amount_in_stable,
                ),
            decreases funds@.len() - i,
        {
            let token = funds.get_at(i).token_identifier;
            match get_worth_of_price(
                self.stable_token_id,
                self.wegld_token_id,
                &self.pair_address_for_token,
                pairs,
                token,
                amount_in_stable,
            ) {
                Some(worth) => {
                    let p = Payment { token_identifier: token, token_nonce: 0, amount: worth };
                    let mut remaining = funds.clone_payments();
                    match remaining.deduct_payment(&p) {
                        Ok(()) => {
                            return Some((p, remaining));
                        }
                        Err(()) => {}
                    }
                }
                None => {}
            }
            i += 1;
        }
        None
    }

    /// Charge `user_id` for the caller's descriptor at `service_index`: the
    /// whole attempt behaves as `subtract_payment_spec` says, debiting the
    /// user and recording the cooldown on success and changing nothing on
    /// failure. The returned payment is owed to the caller.
    pub fn subtract_payment(
        &mut self,
        pairs: &PairDirectory,
        caller: u64,
        service_index: usize,
        user_id: u64,
        current_epoch: Epoch,
    ) -> (r: ScResult<Payment, FeeError>)
        requires
            old(self).wf(),
            pairs.wf(),
        ensures
            final(self).wf(),
            final(self).static_view() == old(self).static_view(),
            (final(self).charge_state(), r) == subtract_payment_spec(
                old(self).static_view(),
                pairs.as_map(),
                old(self).charge_state(),
                caller,
                service_index,
                user_id,
                current_epoch,
            ),
            *final(self) == (SubscriptionFee {
                user_deposited_fees: final(self).user_deposited_fees,
                user_last_action_epoch: final(self).user_last_action_epoch,
                ..*old(self)
            }),
    {
        let sid = match self.service_id.get_id_non_zero(caller) {
            Some(id) => id,
            None => {
                return ScResult::Failure(FeeError::CallerNotRegisteredService);
            }
        };
        let descriptors_len = match self.service_info.get(sid) {
            Some(infos) => infos.len(),
            None => 0,
        };
        proof {
            assert(descriptors_len == descriptors_in(self.static_view(), sid).len());
        }
        if service_index >= descriptors_len {
            return ScResult::Failure(FeeError::InvalidServiceIndex);
        }
        let subscribed = match self.subscribed_users.get(sid, service_index as u64) {
            Some(subs) => subs.contains(user_id),
            None => false,
        };
        proof {
            assert(subscribed == subscribers_in(
                self.static_view(), sid, service_index as u64).contains(user_id));
        }
        if !subscribed {
            return ScResult::Failure(FeeError::NotSubscribed);
        }
        let info = match self.service_info.get(sid) {
            Some(infos) => infos[service_index],
            None => {
                proof {
                    assert(false);
                }
                return ScResult::Failure(FeeError::InvalidServiceIndex);
            }
        };
        proof {
            assert(info == descriptors_in(self.static_view(), sid)[service_index as int]);
        }
        if info.subscription_epochs == 0 {
            return ScResult::Failure(FeeError::ZeroInterval);
        }
        let last = match self.user_last_action_epoch.get(user_id, sid, service_index as u64) {
            Some(e) => *e,
            None => 0,
        };
        proof {
            assert(last == last_action_in(
                self.charge_state(), user_id, sid, service_index as u64));
        }
        if last > current_epoch || current_epoch - last < info.subscription_epochs {
            proof {
                assert(last + info.subscription_epochs > current_epoch);
            }
            return ScResult::Failure(FeeError::TooSoon);
        }
        proof {
            assert(!(last + info.subscription_epochs > current_epoch));
        }
        if self.user_id.get_address(user_id).is_none() {
            return ScResult::Failure(FeeError::UnknownUser);
        }
        let funds = match self.user_deposited_fees.get(user_id) {
            Some(existing) => existing.clone_payments(),
            None => UniquePayments::new(),
        };
        proof {
            assert(funds@ == deposits_in(self.charge_state(), user_id));
        }
        let outcome: Result<(Payment, UniquePayments), FeeError> = match info.opt_payment_token {
            Some(token) => {
                let amount = if info.payment_in_stable {
                    match get_worth_of_price(
                        self.stable_token_id,
                        self.wegld_token_id,
                        &self.pair_address_for_token,
                        pairs,
                        token,
                        info.amount,
                    ) {
                        Some(worth) => worth,
                        None => {
                            return ScResult::Failure(FeeError::PriceQueryFailed);
                        }
                    }
                } else {
                    info.amount
                };
                let p = Payment { token_identifier: token, token_nonce: 0, amount };
                let mut remaining = funds;
                match remaining.deduct_payment(&p) {
                    Ok(()) => Ok((p, remaining)),
                    Err(()) => Err(FeeError::InsufficientFunds),
                }
            }
            None => {
                match self.subtract_any_token(pairs, &funds, info.amount) {
                    Some(done) => Ok(done),
                    None => Err(FeeError::NoSuitableFunds),
                }
            }
        };
        match outcome {
            Ok((payment, remaining)) => {
                let ghost pre = *self;
                self.user_deposited_fees.set(user_id, remaining);
                self.user_last_action_epoch.set(
                    user_id, sid, service_index as u64, current_epoch);
                proof {
                    assert forall|u: u64| self.user_deposited_fees.as_map().contains_key(u)
                        implies (#[trigger] self.user_deposited_fees.as_map()[u]).wf() by {
                        if u != user_id {
                            assert(pre.user_deposited_fees.as_map()[u].wf());
                        }
                    }
                    assert forall|u: u64| self.user_deposited_fees.as_map().contains_key(u)
                        implies self.user_id.addresses().contains_key(u) by {
                        if u != user_id {
                            assert(pre.user_deposited_fees.as_map().contains_key(u));
                        }
                    }
                    assert(self.static_view() =~= pre.static_view()) by {
                        assert(self.service_info.as_map() == pre.service_info.as_map());
                        assert(self.subscribed_users.as_map() == pre.subscribed_users.as_map());
                    }
                    assert(self.charge_state().deposits
                        =~= pre.charge_state().deposits.insert(user_id, remaining@));
                    assert(self.charge_state().last_action
                        =~= pre.charge_state().last_action.insert(
                            (user_id, sid, service_index as u64), current_epoch));
                    assert(self.charge_state() == subtract_payment_spec(
                        pre.static_view(),
                        pairs.as_map(),
                        pre.charge_state(),
                        caller,
                        service_index,
                        user_id,
                        current_epoch,
                    ).0);
                }
                ScResult::Success(payment)
            }
            Err(e) => ScResult::Failure(e),
        }
    }
}

} // verus!
