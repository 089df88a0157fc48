//! The buy-and-lock deployment: an admin-driven service contract that
//! charges its subscribers in two energy tiers, pools the collected fees,
//! and turns them into locked tokens for the subscribers — splitting the
//! pool by configured percentages and distributing the bought tokens
//! remainder-exactly by each user's contribution. The swap, burn and lock
//! themselves happen outside; this contract decides the amounts and hands
//! the caller exact instructions.
use vstd::prelude::*;

use crate::fee_contract::SubscriptionFee;
use crate::pair_actions::{PairDirectory, PairState};
use crate::payments::Payment;
use crate::registry::IdRegistry;
use crate::results::{FeeError, ScResult};
use crate::store::{OrderedSet, Store, Store2};
use crate::subscriber::UserFees;
use crate::subscriber_config::{
    MexActionsPercentages, UserLastPayment, EPOCHS_IN_WEEK, TOTAL_PERCENTAGE,
};
use crate::subtract_payments::{subtract_payment_spec, ChargeState, FeeStaticView};
use crate::Epoch;

verus! {

/// The tier charged to users below the energy threshold.
pub const STANDARD_SUBSCRIPTION_INDEX: usize = 0;

/// The tier charged to users at or above the energy threshold.
pub const PREMIUM_SUBSCRIPTION_INDEX: usize = 1;

/// One user's pooled contribution to a buy-and-lock round.
#[derive(Clone, Copy, PartialEq, Eq, Structural, Debug)]
pub struct MexOperationItem {
    pub user_address: u64,
    pub amount: u64,
}

impl MexOperationItem {
    pub fn new(user_address: u64, amount: u64) -> (r: Self)
        ensures
            r == (MexOperationItem { user_address, amount }),
    {
        MexOperationItem { user_address, amount }
    }
}

/// The whole persisted state of the buy-and-lock deployment.
pub struct FarmSubscriber {
    pub own_address: u64,
    pub fees_contract_address: u64,
    pub energy_threshold: u64,
    pub mex_token_id: u64,
    pub wegld_token_id: u64,
    pub normal_user_percentage: MexActionsPercentages,
    pub premium_user_percentage: MexActionsPercentages,
    pub simple_lock_address: u64,
    pub mex_pair: u64,
    pub lock_period: Epoch,
    pub fees_claim_address: u64,
    /// user id -> tier and epoch of the last charge attempt
    pub user_last_payment: Store<UserLastPayment>,
    pub farm_id: IdRegistry,
    /// (tier index, user id) -> unconsumed debited charge
    pub user_fees: Store2<UserFees>,
    /// operator fees pooled so far, in the reference token
    pub total_fees: u64,
    pub max_fee_withdraw_per_week: u64,
    pub last_fee_withdraw_epoch: Epoch,
    pub admins: OrderedSet,
}

/// The batch-relevant state the tiered charge pass threads through its
/// users, together with the processed-id lists the pass reports.
pub struct FarmChargeOutcome {
    pub user_last_payment: Map<u64, UserLastPayment>,
    pub user_fees: Map<(u64, u64), UserFees>,
    pub charge: ChargeState,
    pub premium: Seq<u64>,
    pub standard: Seq<u64>,
}

/// One user of the tiered charge pass: an unresolvable id, a still-running
/// weekly recurrence, or a still-unconsumed earlier charge all skip the
/// user; otherwise the user's energy picks the tier, the charge record is
/// stamped whatever the fee contract decides, and the user is reported
/// under its tier.
pub open spec fn farm_charge_user_spec(
    cfg: FeeStaticView,
    pairs: Map<u64, PairState>,
    energy: Map<u64, u64>,
    energy_threshold: u64,
    own_address: u64,
    current_epoch: Epoch,
    user_id: u64,
    st: FarmChargeOutcome,
) -> FarmChargeOutcome {
    if !cfg.user_addresses.contains_key(user_id) {
        st
    } else {
        let address = cfg.user_addresses[user_id];
        let ulp = if st.user_last_payment.contains_key(user_id) {
            st.user_last_payment[user_id]
        } else {
            UserLastPayment { service_index: 0, epoch: 0 }
        };
        if current_epoch < ulp.epoch + EPOCHS_IN_WEEK && ulp.epoch > 0 {
            st
        } else {
            let user_energy = if energy.contains_key(address) {
                energy[address]
            } else {
                0
            };
            let index = if user_energy >= energy_threshold {
                PREMIUM_SUBSCRIPTION_INDEX
            } else {
                STANDARD_SUBSCRIPTION_INDEX
            };
            if st.user_fees.contains_key((index as u64, user_id)) {
                st
            } else {
                let (charge2, r) = subtract_payment_spec(
                    cfg, pairs, st.charge, own_address, index, user_id, current_epoch);
                FarmChargeOutcome {
                    user_last_payment: st.user_last_payment.insert(
                        user_id,
                        UserLastPayment { service_index: index, epoch: current_epoch },
                    ),
                    user_fees: (match r {
                        ScResult::Success(p) => st.user_fees.insert(
                            (index as u64, user_id),
                            UserFees { fees: p, epoch: current_epoch },
                        ),
                        ScResult::Failure(_) => st.user_fees,
                    }),
                    charge: charge2,
                    premium: if index == PREMIUM_SUBSCRIPTION_INDEX {
                        st.premium.push(user_id)
                    } else {
                        st.premium
                    },
                    standard: if index == STANDARD_SUBSCRIPTION_INDEX {
                        st.standard.push(user_id)
                    } else {
                        st.standard
                    },
                }
            }
        }
    }
}

/// The tiered charge pass over a caller-supplied id list, left to right.
pub open spec fn farm_subtract_spec(
    cfg: FeeStaticView,
    pairs: Map<u64, PairState>,
    energy: Map<u64, u64>,
    energy_threshold: u64,
    own_address: u64,
    current_epoch: Epoch,
    user_ids: Seq<u64>,
    st: FarmChargeOutcome,
) -> FarmChargeOutcome
    decreases user_ids.len(),
{
    if user_ids.len() == 0 {
        st
    } else {
        farm_charge_user_spec(
            cfg, pairs, energy, energy_threshold, own_address, current_epoch,
            user_ids.last(),
            farm_subtract_spec(
                cfg, pairs, energy, energy_threshold, own_address, current_epoch,
                user_ids.drop_last(), st),
        )
    }
}

impl FarmSubscriber {
    pub open spec fn wf(self) -> bool {
        &&& self.user_last_payment.wf()
        &&& self.farm_id.wf()
        &&& self.user_fees.wf()
        &&& self.admins.wf()
        &&& self.normal_user_percentage.lock + self.normal_user_percentage.fees
            + self.normal_user_percentage.burn == TOTAL_PERCENTAGE
        &&& self.premium_user_percentage.lock + self.premium_user_percentage.fees
            + self.premium_user_percentage.burn == TOTAL_PERCENTAGE
    }

    /// The batch-relevant view of this contract paired with the fee
    /// contract, before any users are reported.
    pub open spec fn farm_charge_outcome(self, fee: SubscriptionFee) -> FarmChargeOutcome {
        FarmChargeOutcome {
            user_last_payment: self.user_last_payment.as_map(),
            user_fees: self.user_fees.as_map(),
            charge: fee.charge_state(),
            premium: Seq::empty(),
            standard: Seq::empty(),
        }
    }

    /// Deploy the buy-and-lock contract. Both percentage splits must sum to
    /// the whole, and the configured exchange pair must trade exactly the
    /// reference token against the token to lock. The deployer becomes the
    /// first admin.
    pub fn new(
        deployer: u64,
        own_address: u64,
        fees_contract_address: u64,
        energy_threshold: u64,
        mex_token_id: u64,
        wegld_token_id: u64,
        normal_user_percentages: MexActionsPercentages,
        premium_user_percentages: MexActionsPercentages,
        simple_lock_address: u64,
        mex_pair_address: u64,
        lock_period: Epoch,
        fees_claim_address: u64,
        pairs: &PairDirectory,
    ) -> (r: Result<FarmSubscriber, FeeError>)
        requires
            pairs.wf(),
        ensures
            match r {
                Ok(c) => {
                    &&& c.wf()
                    &&& c.own_address == own_address
                    &&& c.fees_contract_address == fees_contract_address
                    &&& c.energy_threshold == energy_threshold
                    &&& c.mex_token_id == mex_token_id
                    &&& c.wegld_token_id == wegld_token_id
                    &&& c.normal_user_percentage == normal_user_percentages
                    &&& c.premium_user_percentage == premium_user_percentages
                    &&& c.simple_lock_address == simple_lock_address
                    &&& c.mex_pair == mex_pair_address
                    &&& c.lock_period == lock_period
                    &&& c.fees_claim_address == fees_claim_address
                    &&& c.admins@ =~= seq![deployer]
                    &&& c.user_last_payment.as_map() == Map::<u64, UserLastPayment>::empty()
                    &&& c.user_fees.as_map() == Map::<(u64, u64), UserFees>::empty()
                    &&& c.farm_id.ids() == Map::<u64, u64>::empty()
                    &&& c.total_fees == 0
                    &&& c.max_fee_withdraw_per_week == 0
                    &&& c.last_fee_withdraw_epoch == 0
                    &&& pairs.as_map().contains_key(mex_pair_address)
                    &&& {
                        let pair = pairs.as_map()[mex_pair_address];
                        (pair.first_token == wegld_token_id || pair.first_token == mex_token_id)
                            && (pair.second_token == wegld_token_id
                                || pair.second_token == mex_token_id)
                    }
                },
                Err(e) => ({
                    ||| e == FeeError::InvalidPercentages
                        && !(normal_user_percentages.lock + normal_user_percentages.fees
                                + normal_user_percentages.burn == TOTAL_PERCENTAGE
                            && premium_user_percentages.lock + premium_user_percentages.fees
                                + premium_user_percentages.burn == TOTAL_PERCENTAGE)
                    ||| e == FeeError::WrongPairTokens
                        && (!pairs.as_map().contains_key(mex_pair_address)
                            || !{
                                let pair = pairs.as_map()[mex_pair_address];
                                (pair.first_token == wegld_token_id
                                    || pair.first_token == mex_token_id)
                                    && (pair.second_token == wegld_token_id
                                        || pair.second_token == mex_token_id)
                            })
                }),
            },
    {
        if !(normal_user_percentages.is_valid() && premium_user_percentages.is_valid()) {
            return Err(FeeError::InvalidPercentages);
        }
        let pair = match pairs_get(pairs, mex_pair_address) {
            Some(p) => p,
            None => {
                return Err(FeeError::WrongPairTokens);
            }
        };
        if !((pair.first_token == wegld_token_id || pair.first_token == mex_token_id)
            && (pair.second_token == wegld_token_id || pair.second_token == mex_token_id)) {
            return Err(FeeError::WrongPairTokens);
        }
        let mut admins = OrderedSet::new();
        admins.insert(deployer);
        Ok(FarmSubscriber {
            own_address,
            fees_contract_address,
            energy_threshold,
            mex_token_id,
            wegld_token_id,
            normal_user_percentage: normal_user_percentages,
            premium_user_percentage: premium_user_percentages,
            simple_lock_address,
            mex_pair: mex_pair_address,
            lock_period,
            fees_claim_address,
            user_last_payment: Store::new(),
            farm_id: IdRegistry::new(),
            user_fees: Store2::new(),
            total_fees: 0,
            max_fee_withdraw_per_week: 0,
            last_fee_withdraw_epoch: 0,
            admins,
        })
    }

    pub fn set_lock_period(&mut self, lock_period: Epoch)
        requires
            old(self).wf(),
        ensures
            final(self).wf(),
            *final(self) == (FarmSubscriber { lock_period, ..*old(self) }),
    {
        self.lock_period = lock_period;
    }

    pub fn set_energy_threshold(&mut self, energy_threshold: u64)
        requires
            old(self).wf(),
        ensures
            final(self).wf(),
            *final(self) == (FarmSubscriber { energy_threshold, ..*old(self) }),
    {
        self.energy_threshold = energy_threshold;
    }

    pub fn set_fees_claim_address(&mut self, fees_claim_address: u64)
        requires
            old(self).wf(),
        ensures
            final(self).wf(),
            *final(self) == (FarmSubscriber { fees_claim_address, ..*old(self) }),
    {
        self.fees_claim_address = fees_claim_address;
    }

    pub fn add_max_fee_withdraw_per_week(&mut self, max_amount: u64)
        requires
            old(self).wf(),
        ensures
            final(self).wf(),
            *final(self) == (FarmSubscriber {
                max_fee_withdraw_per_week: max_amount,
                ..*old(self)
            }),
    {
        self.max_fee_withdraw_per_week = max_amount;
    }

    pub fn is_admin(&self, caller: u64) -> (r: bool)
        ensures
            r == self.admins@.contains(caller),
    {
        self.admins.contains(caller)
    }

    /// Charge every listed user under its energy tier, exactly as
    /// `farm_subtract_spec` says, and report which users were processed
    /// under each tier.
    pub fn subtract_payment_endpoint(
        &mut self,
        fee: &mut SubscriptionFee,
        pairs: &PairDirectory,
        energy: &Store<u64>,
        caller: u64,
        current_epoch: Epoch,
        user_ids: &Vec<u64>,
    ) -> (r: ScResult<(Vec<u64>, Vec<u64>), FeeError>)
        requires
            old(self).wf(),
            old(fee).wf(),
            pairs.wf(),
            energy.wf(),
        ensures
            final(self).wf(),
            final(fee).wf(),
            match r {
                ScResult::Failure(e) => {
                    &&& *final(self) == *old(self)
                    &&& *final(fee) == *old(fee)
                    &&& e == FeeError::CallerNotAdmin
                    &&& !old(self).admins@.contains(caller)
                },
                ScResult::Success((premium_ids, standard_ids)) => {
                    &&& old(self).admins@.contains(caller)
                    &&& ({
                        let out = farm_subtract_spec(
                            old(fee).static_view(),
                            pairs.as_map(),
                            energy.as_map(),
                            old(self).energy_threshold,
                            old(self).own_address,
                            current_epoch,
                            user_ids@,
                            old(self).farm_charge_outcome(*old(fee)),
                        );
                        &&& final(self).user_last_payment.as_map() == out.user_last_payment
                        &&& final(self).user_fees.as_map() == out.user_fees
                        &&& final(fee).charge_state() == out.charge
                        &&& final(fee).static_view() == old(fee).static_view()
                        &&& premium_ids@ == out.premium
                        &&& standard_ids@ == out.standard
                        &&& *final(self) == (FarmSubscriber {
                            user_last_payment: final(self).user_last_payment,
                            user_fees: final(self).user_fees,
                            ..*old(self)
                        })
                        &&& *final(fee) == (SubscriptionFee {
                            user_deposited_fees: final(fee).user_deposited_fees,
                            user_last_action_epoch: final(fee).user_last_action_epoch,
                            ..*old(fee)
                        })
                    })
                },
            },
    {
        if !self.admins.contains(caller) {
            return ScResult::Failure(FeeError::CallerNotAdmin);
        }
        let ghost cfg = fee.static_view();
        let own_address = self.own_address;
        let energy_threshold = self.energy_threshold;
        let ghost st0 = self.farm_charge_outcome(*fee);
        let mut premium_ids: Vec<u64> = Vec::new();
        let mut standard_ids: Vec<u64> = Vec::new();
        let mut i: usize = 0;
        while i < user_ids.len()
            invariant
                self.wf(),
                fee.wf(),
                pairs.wf(),
                energy.wf(),
                i <= user_ids@.len(),
                own_address == old(self).own_address,
                energy_threshold == old(self).energy_threshold,
                cfg == old(fee).static_view(),
                fee.static_view() == cfg,
                st0 == old(self).farm_charge_outcome(*old(fee)),
                ({
                    let out = farm_subtract_spec(
                        cfg, pairs.as_map(), energy.as_map(), energy_threshold,
                        own_address, current_epoch, user_ids@.subrange(0, i as int), st0);
                    &&& self.user_last_payment.as_map() == out.user_last_payment
                    &&& self.user_fees.as_map() == out.user_fees
                    &&& fee.charge_state() == out.charge
                    &&& premium_ids@ == out.premium
                    &&& standard_ids@ == out.standard
                }),
                *self == (FarmSubscriber {
                    user_last_payment: self.user_last_payment,
                    user_fees: self.user_fees,
                    ..*old(self)
                }),
                *fee == (SubscriptionFee {
                    user_deposited_fees: fee.user_deposited_fees,
                    user_last_action_epoch: fee.user_last_action_epoch,
                    ..*old(fee)
                }),
            decreases user_ids@.len() - i,
        {
            let user_id = user_ids[i];
            proof {
                assert(user_ids@.subrange(0, (i + 1) as int).drop_last()
                    =~= user_ids@.subrange(0, i as int));
                assert(user_ids@.subrange(0, (i + 1) as int).last() == user_ids@[i as int]);
            }
            match fee.user_id.get_address(user_id) {
                Some(address) => {
                    let ulp = match self.user_last_payment.get(user_id) {
                        Some(p) => *p,
                        None => UserLastPayment { service_index: 0, epoch: 0 },
                    };
                    let recurrence_blocked = ulp.epoch > 0
                        && (ulp.epoch > u64::MAX - EPOCHS_IN_WEEK
                            || current_epoch < ulp.epoch + EPOCHS_IN_WEEK);
                    if !recurrence_blocked {
                        let user_energy = match energy.get(address) {
                            Some(e) => *e,
                            None => 0,
                        };
                        let index = if user_energy >= energy_threshold {
                            PREMIUM_SUBSCRIPTION_INDEX
                        } else {
                            STANDARD_SUBSCRIPTION_INDEX
                        };
                        if !self.user_fees.contains_key(index as u64, user_id) {
                            match fee.subtract_payment(
                                pairs, own_address, index, user_id, current_epoch) {
                                ScResult::Success(p) => {
                                    self.user_fees.set(
                                        index as u64,
                                        user_id,
                                        UserFees { fees: p, epoch: current_epoch },
                                    );
                                }
                                ScResult::Failure(_) => {}
                            }
                            self.user_last_payment.set(
                                user_id,
                                UserLastPayment { service_index: index, epoch: current_epoch },
                            );
                            if index == PREMIUM_SUBSCRIPTION_INDEX {
                                premium_ids.push(user_id);
                            } else {
                                standard_ids.push(user_id);
                            }
                        }
                    }
                }
                None => {}
            }
            i += 1;
        }
        proof {
            assert(user_ids@.subrange(0, user_ids@.len() as int) =~= user_ids@);
        }
        ScResult::Success((premium_ids, standard_ids))
    }

    /// Pay out pooled operator fees to the configured claim address, capped
    /// by the weekly allowance and at most once a week. Returns the payment
    /// owed to the claim address.
    pub fn claim_fees(&mut self, caller: u64, current_epoch: Epoch)
        -> (r: ScResult<Payment, FeeError>)
        requires
            old(self).wf(),
        ensures
            final(self).wf(),
            match r {
                ScResult::Failure(e) => *final(self) == *old(self) && ({
                    ||| e == FeeError::CallerNotAdmin && !old(self).admins@.contains(caller)
                    ||| e == FeeError::NoFeeWithdrawLimit
                        && old(self).max_fee_withdraw_per_week == 0
                    ||| e == FeeError::CannotClaimYet
                        && old(self).last_fee_withdraw_epoch + EPOCHS_IN_WEEK > current_epoch
                    ||| e == FeeError::NoFeesClaimAddress && old(self).fees_claim_address == 0
                }),
                ScResult::Success(payment) => {
                    &&& old(self).admins@.contains(caller)
                    &&& old(self).max_fee_withdraw_per_week > 0
                    &&& old(self).last_fee_withdraw_epoch + EPOCHS_IN_WEEK <= current_epoch
                    &&& old(self).fees_claim_address != 0
                    &&& payment.token_identifier == old(self).wegld_token_id
                    &&& payment.token_nonce == 0
                    &&& payment.amount == (
                        if old(self).total_fees <= old(self).max_fee_withdraw_per_week {
                            old(self).total_fees
                        } else {
                            old(self).max_fee_withdraw_per_week
                        })
                    &&& final(self).total_fees == old(self).total_fees - payment.amount
                    &&& final(self).last_fee_withdraw_epoch == current_epoch
                    &&& *final(self) == (FarmSubscriber {
                        total_fees: final(self).total_fees,
                        last_fee_withdraw_epoch: current_epoch,
                        ..*old(self)
                    })
                },
            },
    {
        if !self.admins.contains(caller) {
            return ScResult::Failure(FeeError::CallerNotAdmin);
        }
        if self.max_fee_withdraw_per_week == 0 {
            return ScResult::Failure(FeeError::NoFeeWithdrawLimit);
        }
        if self.last_fee_withdraw_epoch > current_epoch
            || current_epoch - self.last_fee_withdraw_epoch < EPOCHS_IN_WEEK {
            return ScResult::Failure(FeeError::CannotClaimYet);
        }
        if self.fees_claim_address == 0 {
            return ScResult::Failure(FeeError::NoFeesClaimAddress);
        }
        let computed_fees = if self.total_fees <= self.max_fee_withdraw_per_week {
            let all = self.total_fees;
            self.total_fees = 0;
            all
        } else {
            self.total_fees = self.total_fees - self.max_fee_withdraw_per_week;
            self.max_fee_withdraw_per_week
        };
        self.last_fee_withdraw_epoch = current_epoch;
        ScResult::Success(Payment {
            token_identifier: self.wegld_token_id,
            token_nonce: 0,
            amount: computed_fees,
        })
    }
}

/// A swap the caller must perform on the outside exchange: sell `input` on
/// the pair for at least `min_amount_out` of `output_token`.
#[derive(Clone, Copy, PartialEq, Eq, Structural, Debug)]
pub struct SwapRequest {
    pub pair_address: u64,
    pub input: Payment,
    pub output_token: u64,
    pub min_amount_out: u64,
}

/// A lock the caller must perform at the locking contract on a user's
/// behalf.
#[derive(Clone, Copy, PartialEq, Eq, Structural, Debug)]
pub struct LockInstruction {
    pub lock_address: u64,
    pub destination: u64,
    pub payment: Payment,
    pub lock_epochs: Epoch,
}

/// What a buy-and-lock round decided before the swap: the users whose
/// pooled fees take part, the swap to perform, and the pool total.
pub struct MexOperationsPlan {
    pub swap: SwapRequest,
    pub items: Vec<MexOperationItem>,
    pub processed_user_ids: Vec<u64>,
    pub total_fees_collected: u64,
}

/// The running state of the fee-collection pass: the pending-fees records
/// not yet consumed, the items and ids collected, the pool total, and
/// whether every collected fee was denominated in the reference token.
pub struct MexCollection {
    pub user_fees: Map<(u64, u64), UserFees>,
    pub items: Seq<MexOperationItem>,
    pub processed: Seq<u64>,
    pub total: int,
    pub all_reference: bool,
}

/// One user of the fee-collection pass: skipped when its id resolves to no
/// address, no pending fees of this tier await it, or its last charge was
/// under a different tier; otherwise its pending fees are consumed into the
/// pool.
pub open spec fn mex_collect_user_spec(
    addresses: Map<u64, u64>,
    user_last_payment: Map<u64, UserLastPayment>,
    reference_token: u64,
    service_index: usize,
    user_id: u64,
    st: MexCollection,
) -> MexCollection {
    if !addresses.contains_key(user_id) {
        st
    } else if !st.user_fees.contains_key((service_index as u64, user_id)) {
        st
    } else if !user_last_payment.contains_key(user_id) {
        st
    } else if user_last_payment[user_id].service_index != service_index {
        st
    } else {
        let fee = st.user_fees[(service_index as u64, user_id)];
        MexCollection {
            user_fees: st.user_fees.remove((service_index as u64, user_id)),
            items: st.items.push(MexOperationItem {
                user_address: addresses[user_id],
                amount: fee.fees.amount,
            }),
            processed: st.processed.push(user_id),
            total: st.total + fee.fees.amount,
            all_reference: st.all_reference && fee.fees.token_identifier == reference_token,
        }
    }
}

/// The fee-collection pass over a caller-supplied id list, left to right.
pub open spec fn mex_collect_spec(
    addresses: Map<u64, u64>,
    user_last_payment: Map<u64, UserLastPayment>,
    reference_token: u64,
    service_index: usize,
    user_ids: Seq<u64>,
    st: MexCollection,
) -> MexCollection
    decreases user_ids.len(),
{
    if user_ids.len() == 0 {
        st
    } else {
        mex_collect_user_spec(
            addresses, user_last_payment, reference_token, service_index, user_ids.last(),
            mex_collect_spec(
                addresses, user_last_payment, reference_token, service_index,
                user_ids.drop_last(), st),
        )
    }
}

/// Collecting more users never shrinks the pool and never restores a
/// reference-token-only pool that an off-token fee already broke.
pub proof fn lemma_mex_collect_monotone(
    addresses: Map<u64, u64>,
    user_last_payment: Map<u64, UserLastPayment>,
    reference_token: u64,
    service_index: usize,
    user_ids: Seq<u64>,
    st: MexCollection,
    i: int,
)
    requires
        0 <= i <= user_ids.len(),
    ensures
        ({
            let part = mex_collect_spec(
                addresses, user_last_payment, reference_token, service_index,
                user_ids.subrange(0, i), st);
            let whole = mex_collect_spec(
                addresses, user_last_payment, reference_token, service_index, user_ids, st);
            &&& whole.total >= part.total
            &&& !part.all_reference ==> !whole.all_reference
        }),
    decreases user_ids.len() - i,
{
    if i == user_ids.len() {
        assert(user_ids.subrange(0, i) =~= user_ids);
    } else {
        assert(user_ids.subrange(0, i + 1).drop_last() =~= user_ids.subrange(0, i));
        assert(user_ids.subrange(0, user_ids.len() as int) =~= user_ids);
        lemma_mex_collect_monotone(
            addresses, user_last_payment, reference_token, service_index, user_ids, st, i + 1);
    }
}

impl FarmSubscriber {
    /// The tier's percentage split; `None` for an unknown tier.
    pub open spec fn percentages_of(self, service_index: usize) -> Option<MexActionsPercentages> {
        if service_index == STANDARD_SUBSCRIPTION_INDEX {
            Some(self.normal_user_percentage)
        } else if service_index == PREMIUM_SUBSCRIPTION_INDEX {
            Some(self.premium_user_percentage)
        } else {
            None
        }
    }

    /// Decide a buy-and-lock round for one tier: consume the listed users'
    /// pending fees into a pool, split the pool by the tier's percentages —
    /// keeping the fee portion with the operator — and hand back the swap
    /// of the remainder together with each user's contribution, for
    /// `finish_mex_operations` to settle once the swap's outcome is known.
    /// Fails, changing nothing, on a non-admin caller, an unknown tier, a
    /// missing exchange pair, a collected fee outside the reference token,
    /// or a pool or fee accumulator overflow.
    pub fn perform_mex_operations_endpoint(
        &mut self,
        fee: &SubscriptionFee,
        caller: u64,
        service_index: usize,
        total_min_amount_out: u64,
        user_ids: &Vec<u64>,
    ) -> (r: ScResult<MexOperationsPlan, FeeError>)
        requires
            old(self).wf(),
            fee.wf(),
        ensures
            final(self).wf(),
            ({
                let st0 = MexCollection {
                    user_fees: old(self).user_fees.as_map(),
                    items: Seq::empty(),
                    processed: Seq::empty(),
                    total: 0,
                    all_reference: true,
                };
                let out = mex_collect_spec(
                    fee.static_view().user_addresses,
                    old(self).user_last_payment.as_map(),
                    old(self).wegld_token_id,
                    service_index,
                    user_ids@,
                    st0,
                );
                match r {
                    ScResult::Failure(e) => *final(self) == *old(self) && ({
                        ||| e == FeeError::CallerNotAdmin && !old(self).admins@.contains(caller)
                        ||| e == FeeError::InvalidServiceIndex
                            && old(self).percentages_of(service_index) is None
                        ||| e == FeeError::NoMexPair && old(self).mex_pair == 0
                        ||| e == FeeError::InvalidFeeToken && !out.all_reference
                        ||| e == FeeError::AmountOverflow
                            && (out.total > u64::MAX
                                || (out.all_reference
                                    && old(self).total_fees + out.total
                                        * old(self).percentages_of(service_index).unwrap().fees
                                        / (TOTAL_PERCENTAGE as int) > u64::MAX))
                    }),
                    ScResult::Success(plan) => {
                        let pct = old(self).percentages_of(service_index).unwrap();
                        let lock_amount = out.total * pct.lock / (TOTAL_PERCENTAGE as int);
                        let fees_amount = out.total * pct.fees / (TOTAL_PERCENTAGE as int);
                        &&& old(self).admins@.contains(caller)
                        &&& old(self).percentages_of(service_index) is Some
                        &&& old(self).mex_pair != 0
                        &&& out.all_reference
                        &&& out.total <= u64::MAX
                        &&& final(self).user_fees.as_map() == out.user_fees
                        &&& plan.items@ == out.items
                        &&& plan.processed_user_ids@ == out.processed
                        &&& plan.total_fees_collected == out.total
                        &&& final(self).total_fees == old(self).total_fees + fees_amount
                        &&& plan.swap == (SwapRequest {
                            pair_address: old(self).mex_pair,
                            input: Payment {
                                token_identifier: old(self).wegld_token_id,
                                token_nonce: 0,
                                amount: (out.total - fees_amount) as u64,
                            },
                            output_token: old(self).mex_token_id,
                            min_amount_out: total_min_amount_out,
                        })
                        &&& lock_amount + (out.total - lock_amount - fees_amount)
                            == out.total - fees_amount
                        &&& *final(self) == (FarmSubscriber {
                            user_fees: final(self).user_fees,
                            total_fees: final(self).total_fees,
                            ..*old(self)
                        })
                    },
                }
            }),
    {
        if !self.admins.contains(caller) {
            return ScResult::Failure(FeeError::CallerNotAdmin);
        }
        let actions_percentage = if service_index == STANDARD_SUBSCRIPTION_INDEX {
            self.normal_user_percentage
        } else if service_index == PREMIUM_SUBSCRIPTION_INDEX {
            self.premium_user_percentage
        } else {
            return ScResult::Failure(FeeError::InvalidServiceIndex);
        };
        if self.mex_pair == 0 {
            return ScResult::Failure(FeeError::NoMexPair);
        }
        let ghost addresses = fee.static_view().user_addresses;
        let ghost ulp_map = self.user_last_payment.as_map();
        let reference_token = self.wegld_token_id;
        let ghost st0 = MexCollection {
            user_fees: self.user_fees.as_map(),
            items: Seq::empty(),
            processed: Seq::empty(),
            total: 0,
            all_reference: true,
        };
        let mut working = self.user_fees.clone_store();
        let mut items: Vec<MexOperationItem> = Vec::new();
        let mut processed: Vec<u64> = Vec::new();
        let mut total: u64 = 0;
        let mut i: usize = 0;
        while i < user_ids.len()
            invariant
                self.wf(),
                fee.wf(),
                working.wf(),
                i <= user_ids@.len(),
                reference_token == self.wegld_token_id,
                addresses == fee.static_view().user_addresses,
                ulp_map == self.user_last_payment.as_map(),
                st0 == (MexCollection {
                    user_fees: self.user_fees.as_map(),
                    items: Seq::<MexOperationItem>::empty(),
                    processed: Seq::<u64>::empty(),
                    total: 0int,
                    all_reference: true,
                }),
                ({
                    let out = mex_collect_spec(
                        addresses, ulp_map, reference_token, service_index,
                        user_ids@.subrange(0, i as int), st0);
                    &&& working.as_map() == out.user_fees
                    &&& items@ == out.items
                    &&& processed@ == out.processed
                    &&& out.all_reference ==> total == out.total
                    &&& out.all_reference
                }),
            decreases user_ids@.len() - i,
        {
            let user_id = user_ids[i];
            proof {
                assert(user_ids@.subrange(0, (i + 1) as int).drop_last()
                    =~= user_ids@.subrange(0, i as int));
                assert(user_ids@.subrange(0, (i + 1) as int).last() == user_ids@[i as int]);
            }
            match fee.user_id.get_address(user_id) {
                Some(address) => {
                    let pending = match working.get(service_index as u64, user_id) {
                        Some(f) => Some(*f),
                        None => None,
                    };
                    match pending {
                        Some(user_fee) => {
                            let ulp = match self.user_last_payment.get(user_id) {
                                Some(p) => Some(*p),
                                None => None,
                            };
                            match ulp {
                                Some(last_payment) => {
                                    if last_payment.service_index == service_index {
                                        if user_fee.fees.token_identifier != reference_token {
                                            proof {
                                                assert(!mex_collect_spec(
                                                    addresses, ulp_map, reference_token,
                                                    service_index,
                                                    user_ids@.subrange(0, (i + 1) as int),
                                                    st0).all_reference);
                                                lemma_mex_collect_monotone(
                                                    addresses, ulp_map, reference_token,
                                                    service_index, user_ids@, st0, i + 1);
                                            }
                                            return ScResult::Failure(FeeError::InvalidFeeToken);
                                        }
                                        if user_fee.fees.amount > u64::MAX - total {
                                            proof {
                                                assert(mex_collect_spec(
                                                    addresses, ulp_map, reference_token,
                                                    service_index,
                                                    user_ids@.subrange(0, (i + 1) as int),
                                                    st0).total > u64::MAX);
                                                lemma_mex_collect_monotone(
                                                    addresses, ulp_map, reference_token,
                                                    service_index, user_ids@, st0, i + 1);
                                            }
                                            return ScResult::Failure(FeeError::AmountOverflow);
                                        }
                                        working.remove(service_index as u64, user_id);
                                        items.push(MexOperationItem {
                                            user_address: address,
                                            amount: user_fee.fees.amount,
                                        });
                                        processed.push(user_id);
                                        total = total + user_fee.fees.amount;
                                    }
                                }
                                None => {}
                            }
                        }
                        None => {}
                    }
                }
                None => {}
            }
            i += 1;
        }
        proof {
            assert(user_ids@.subrange(0, user_ids@.len() as int) =~= user_ids@);
        }
        let actions_value = actions_percentage.get_amounts_per_category(total);
        if actions_value.fees > u64::MAX - self.total_fees {
            return ScResult::Failure(FeeError::AmountOverflow);
        }
        self.total_fees = self.total_fees + actions_value.fees;
        self.user_fees = working;
        let sell_amount = actions_value.get_sell_amount();
        ScResult::Success(MexOperationsPlan {
            swap: SwapRequest {
                pair_address: self.mex_pair,
                input: Payment {
                    token_identifier: reference_token,
                    token_nonce: 0,
                    amount: sell_amount,
                },
                output_token: self.mex_token_id,
                min_amount_out: total_min_amount_out,
            },
            items,
            processed_user_ids: processed,
            total_fees_collected: total,
        })
    }

    /// Settle a buy-and-lock round once the swap's outcome is known: of the
    /// bought tokens, the locked portion is distributed remainder-exactly
    /// across the round's users by their pooled contributions — the shares
    /// sum to exactly the locked portion — and the rest is to be burned.
    /// Returns the lock instructions and the amount to burn.
    pub fn finish_mex_operations(
        &self,
        bought: Payment,
        items: &Vec<MexOperationItem>,
        total_fees_collected: u64,
        service_index: usize,
    ) -> (r: (Vec<LockInstruction>, u64))
        requires
            self.wf(),
            self.percentages_of(service_index) is Some,
            self.percentages_of(service_index).unwrap().lock
                + self.percentages_of(service_index).unwrap().burn > 0,
            items@.len() > 0 ==> total_fees_collected > 0,
            total_fees_collected == crate::distribution::seq_sum(
                items@.map_values(|it: MexOperationItem| it.amount)),
        ensures
            ({
                let pct = self.percentages_of(service_index).unwrap();
                let to_lock = bought.amount * pct.lock / (pct.lock + pct.burn) as int;
                let (locks, burn) = r;
                &&& burn == bought.amount - to_lock
                &&& locks@.len() == items@.len()
                &&& items@.len() > 0 ==> crate::distribution::seq_sum(
                    locks@.map_values(|l: LockInstruction| l.payment.amount)) == to_lock
                &&& forall|j: int| 0 <= j < locks@.len()
                    ==> (#[trigger] locks@[j]).destination == items@[j].user_address
                        && locks@[j].lock_address == self.simple_lock_address
                        && locks@[j].lock_epochs == self.lock_period
                        && locks@[j].payment.token_identifier == bought.token_identifier
                        && locks@[j].payment.token_nonce == 0
                &&& forall|j: int| 0 <= j < locks@.len() - 1
                    ==> (#[trigger] locks@[j]).payment.amount
                        == to_lock * items@[j].amount / (total_fees_collected as int)
            }),
    {
        let pct = if service_index == STANDARD_SUBSCRIPTION_INDEX {
            self.normal_user_percentage
        } else {
            self.premium_user_percentage
        };
        let denominator: u64 = pct.lock as u64 + pct.burn as u64;
        proof {
            crate::pair_actions::lemma_scaled_portion_bound(
                bought.amount, pct.lock as u64, denominator);
        }
        let to_lock = match crate::pair_actions::mul_div(bought.amount, pct.lock as u64, denominator) {
            Some(v) => v,
            None => {
                proof {
                    assert(false);
                }
                0
            }
        };
        let burn = bought.amount - to_lock;
        let mut weights: Vec<u64> = Vec::new();
        let mut j: usize = 0;
        while j < items.len()
            invariant
                j <= items@.len(),
                weights@ == items@.subrange(0, j as int).map_values(
                    |it: MexOperationItem| it.amount),
            decreases items@.len() - j,
        {
            weights.push(items[j].amount);
            proof {
                assert(items@.subrange(0, (j + 1) as int).map_values(
                    |it: MexOperationItem| it.amount)
                    =~= items@.subrange(0, j as int).map_values(
                        |it: MexOperationItem| it.amount).push(items@[j as int].amount));
            }
            j += 1;
        }
        proof {
            assert(items@.subrange(0, items@.len() as int) =~= items@);
        }
        let mut locks: Vec<LockInstruction> = Vec::new();
        if items.len() == 0 {
            return (locks, burn);
        }
        let shares = crate::distribution::distribute_proportional(
            to_lock, &weights, total_fees_collected);
        let mut j: usize = 0;
        while j < items.len()
            invariant
                j <= items@.len(),
                shares@.len() == items@.len(),
                locks@.map_values(|l: LockInstruction| l.payment.amount)
                    == shares@.subrange(0, j as int),
                locks@.len() == j,
                forall|k: int| 0 <= k < j
                    ==> (#[trigger] locks@[k]).destination == items@[k].user_address
                        && locks@[k].lock_address == self.simple_lock_address
                        && locks@[k].lock_epochs == self.lock_period
                        && locks@[k].payment.token_identifier == bought.token_identifier
                        && locks@[k].payment.token_nonce == 0
                        && locks@[k].payment.amount == shares@[k],
            decreases items@.len() - j,
        {
            locks.push(LockInstruction {
                lock_address: self.simple_lock_address,
                destination: items[j].user_address,
                payment: Payment {
                    token_identifier: bought.token_identifier,
                    token_nonce: 0,
                    amount: shares[j],
                },
                lock_epochs: self.lock_period,
            });
            proof {
                assert(locks@.map_values(|l: LockInstruction| l.payment.amount)
                    =~= shares@.subrange(0, (j + 1) as int));
            }
            j += 1;
        }
        proof {
            assert(shares@.subrange(0, shares@.len() as int) =~= shares@);
            assert(locks@.map_values(|l: LockInstruction| l.payment.amount) =~= shares@);
        }
        (locks, burn)
    }
}

/// Fetch one pair's state from the directory.
fn pairs_get(pairs: &PairDirectory, address: u64) -> (r: Option<PairState>)
    requires
        pairs.wf(),
    ensures
        match r {
            Some(p) => pairs.as_map().contains_key(address) && p == pairs.as_map()[address],
            None => !pairs.as_map().contains_key(address),
        },
{
    match pairs.get_pair(address) {
        Some(p) => Some(*p),
        None => None,
    }
}

} // verus!
