//! The resumable buy-and-lock batch: a budget-bounded walk over a tier's
//! subscriber set that consumes each user's pending debited charge and
//! pools its fee portion, handing back one swap-and-lock work item per
//! user. The swaps, burns and locks happen outside; `mex_amounts_from_bought`
//! settles each user's split once a swap's outcome is known. A user whose
//! id no longer resolves, who has no pending charge, whose fee token has no
//! configured pair, or whose fee portion would overflow the pool is
//! skipped, and the cursor advances regardless.
use vstd::prelude::*;

use crate::fee_contract::SubscriptionFee;
use crate::payments::{add_payment_spec, Payment, UniquePayments};
use crate::results::{FeeError, OperationCompletionStatus, ScResult};
use crate::store::Store;
use crate::subscriber::{
    MexOperationsProgress, OngoingOperation, SubscriberContractMain, UserFees,
};
use crate::subscriber_config::{MexActionsPercentages, TOTAL_PERCENTAGE};
use crate::subtract_payments::{subscribers_in, FeeStaticView};
use crate::Epoch;

verus! {

/// One user's buy-and-lock work item: swap the sellable part of
/// `fee_payment` on `pair_address` and lock the user's share of the
/// outcome.
#[derive(Clone, Copy, PartialEq, Eq, Structural, Debug)]
pub struct MexOperationRequest {
    pub user_address: u64,
    pub pair_address: u64,
    pub fee_payment: Payment,
}

/// The buy-and-lock deployment built on the generic subscriber machinery.
pub struct BuyMexModule {
    pub base: SubscriberContractMain,
    pub mex_token_id: u64,
    /// input token -> exchange pair that sells it for the token to lock
    pub mex_pairs: Store<u64>,
    pub simple_lock_address: u64,
    pub lock_period: Epoch,
    pub normal_user_percentage: MexActionsPercentages,
    pub premium_user_percentage: MexActionsPercentages,
    /// operator fee portions pooled so far, one entry per token
    pub total_fees: UniquePayments,
}

/// The batch-relevant state of the buy-and-lock walk.
pub struct MexBatchState {
    pub user_fees: Map<(u64, u64), UserFees>,
    pub total_fees: Seq<Payment>,
    pub ongoing: OngoingOperation,
    pub outputs: Seq<MexOperationRequest>,
}

/// The cursor of an in-flight buy-and-lock batch.
pub open spec fn mex_cursor_of(st: MexBatchState) -> usize {
    match st.ongoing {
        OngoingOperation::MexOperations(p) => p.user_index,
        _ => 0,
    }
}

/// One engine step at a cursor within range: the subscriber at the cursor
/// is skipped unless its id resolves, a pending charge of this tier awaits
/// it, its fee token has a configured pair, and the fee portion fits the
/// pool; otherwise the charge is consumed, a positive fee portion is
/// pooled, and a work item is emitted. The cursor advances either way.
pub open spec fn mex_batch_step(
    cfg: FeeStaticView,
    mex_pairs: Map<u64, u64>,
    pct: MexActionsPercentages,
    own_address: u64,
    service_index: usize,
    st: MexBatchState,
) -> MexBatchState {
    let sid = cfg.service_ids[own_address];
    let cursor = mex_cursor_of(st);
    let user_id = subscribers_in(cfg, sid, service_index as u64)[cursor - 1];
    let advanced = OngoingOperation::MexOperations(MexOperationsProgress {
        service_index,
        user_index: (cursor + 1) as usize,
    });
    let skipped = MexBatchState { ongoing: advanced, ..st };
    if !cfg.user_addresses.contains_key(user_id) {
        skipped
    } else if !st.user_fees.contains_key((service_index as u64, user_id)) {
        skipped
    } else {
        let fee = st.user_fees[(service_index as u64, user_id)];
        let token = fee.fees.token_identifier;
        if !mex_pairs.contains_key(token) {
            skipped
        } else {
            let fees_part = fee.fees.amount * pct.fees / (TOTAL_PERCENTAGE as int);
            let pooling = if fees_part == 0 {
                Some(st.total_fees)
            } else {
                add_payment_spec(st.total_fees, Payment {
                    token_identifier: token,
                    token_nonce: 0,
                    amount: fees_part as u64,
                })
            };
            match pooling {
                Some(pooled) => MexBatchState {
                    user_fees: st.user_fees.remove((service_index as u64, user_id)),
                    total_fees: pooled,
                    ongoing: advanced,
                    outputs: st.outputs.push(MexOperationRequest {
                        user_address: cfg.user_addresses[user_id],
                        pair_address: mex_pairs[token],
                        fee_payment: fee.fees,
                    }),
                },
                None => skipped,
            }
        }
    }
}

/// Run the buy-and-lock batch for up to `fuel` steps.
pub open spec fn mex_batch_run(
    cfg: FeeStaticView,
    mex_pairs: Map<u64, u64>,
    pct: MexActionsPercentages,
    own_address: u64,
    service_index: usize,
    st: MexBatchState,
    fuel: nat,
) -> (MexBatchState, bool)
    decreases fuel,
{
    let sid = cfg.service_ids[own_address];
    let total = subscribers_in(cfg, sid, service_index as u64).len();
    if mex_cursor_of(st) > total {
        (MexBatchState { ongoing: OngoingOperation::Idle, ..st }, true)
    } else if fuel == 0 {
        (st, false)
    } else {
        mex_batch_run(
            cfg, mex_pairs, pct, own_address, service_index,
            mex_batch_step(cfg, mex_pairs, pct, own_address, service_index, st),
            (fuel - 1) as nat,
        )
    }
}

/// Checkpoint resumption equivalence for the buy-and-lock batch:
/// interrupting after `a` steps and resuming with `b` more reaches exactly
/// the state — work items included — of one uninterrupted run with budget
/// `a + b`; once complete, further budget changes nothing.
pub proof fn lemma_mex_batch_resumption(
    cfg: FeeStaticView,
    mex_pairs: Map<u64, u64>,
    pct: MexActionsPercentages,
    own_address: u64,
    service_index: usize,
    st: MexBatchState,
    a: nat,
    b: nat,
)
    ensures
        ({
            let (st1, done1) = mex_batch_run(
                cfg, mex_pairs, pct, own_address, service_index, st, a);
            if done1 {
                mex_batch_run(cfg, mex_pairs, pct, own_address, service_index, st, a + b)
                    == (st1, true)
            } else {
                mex_batch_run(cfg, mex_pairs, pct, own_address, service_index, st1, b)
                    == mex_batch_run(
                        cfg, mex_pairs, pct, own_address, service_index, st, a + b)
            }
        }),
    decreases a,
{
    let sid = cfg.service_ids[own_address];
    let total = subscribers_in(cfg, sid, service_index as u64).len();
    if mex_cursor_of(st) > total {
    } else if a == 0 {
    } else {
        let stepped = mex_batch_step(cfg, mex_pairs, pct, own_address, service_index, st);
        lemma_mex_batch_resumption(
            cfg, mex_pairs, pct, own_address, service_index, stepped, (a - 1) as nat, b);
    }
}

/// How a bought amount splits at settlement: the configured locked portion
/// by floor division, the rest burned.
pub fn mex_amounts_from_bought(bought_amount: u64, pct: &MexActionsPercentages)
    -> (r: (u64, u64))
    requires
        pct.lock + pct.fees + pct.burn == TOTAL_PERCENTAGE,
    ensures
        r.0 == bought_amount * pct.lock / (TOTAL_PERCENTAGE as int),
        r.1 == bought_amount - r.0,
        r.0 + r.1 == bought_amount,
{
    let to_lock = crate::subscriber_config::portion_of(bought_amount, pct.lock);
    (to_lock, bought_amount - to_lock)
}

impl BuyMexModule {
    pub open spec fn wf(self) -> bool {
        &&& self.base.wf()
        &&& self.mex_pairs.wf()
        &&& self.total_fees.wf()
        &&& self.normal_user_percentage.lock + self.normal_user_percentage.fees
            + self.normal_user_percentage.burn == TOTAL_PERCENTAGE
        &&& self.premium_user_percentage.lock + self.premium_user_percentage.fees
            + self.premium_user_percentage.burn == TOTAL_PERCENTAGE
    }

    /// The tier's percentage split; `None` for an unknown tier.
    pub open spec fn percentages_of(self, service_index: usize) -> Option<MexActionsPercentages> {
        if service_index == 0 {
            Some(self.normal_user_percentage)
        } else if service_index == 1 {
            Some(self.premium_user_percentage)
        } else {
            None
        }
    }

    /// Register the exchange pair that sells a fee token.
    pub fn add_mex_pair(&mut self, token_id: u64, pair_address: u64)
        requires
            old(self).wf(),
        ensures
            final(self).wf(),
            final(self).mex_pairs.as_map()
                == old(self).mex_pairs.as_map().insert(token_id, pair_address),
            *final(self) == (BuyMexModule { mex_pairs: final(self).mex_pairs, ..*old(self) }),
    {
        self.mex_pairs.set(token_id, pair_address);
    }

    /// Run the buy-and-lock batch for one tier under a compute budget of
    /// `max_operations` engine steps, exactly as `mex_batch_run` says:
    /// resume from the checkpoint when one is in flight, consume pending
    /// charges into work items, and either complete — clearing the
    /// checkpoint — or keep it for a later call. A call naming a different
    /// target than the in-flight checkpoint fails with
    /// `ConflictingOperation` and changes nothing.
    pub fn perform_mex_operations_endpoint(
        &mut self,
        fee: &SubscriptionFee,
        service_index: usize,
        max_operations: u64,
    ) -> (r: ScResult<(OperationCompletionStatus, Vec<MexOperationRequest>), FeeError>)
        requires
            old(self).wf(),
            fee.wf(),
            fee.service_id.ids().contains_key(old(self).base.own_address)
                ==> fee.subscribers_of(
                    fee.service_id.ids()[old(self).base.own_address],
                    service_index as u64,
                ).len() < usize::MAX,
        ensures
            final(self).wf(),
            match r {
                ScResult::Failure(e) => {
                    &&& *final(self) == *old(self)
                    &&& ({
                        ||| e == FeeError::InvalidServiceIndex
                            && old(self).percentages_of(service_index) is None
                        ||| e == FeeError::CallerNotRegisteredService
                            && !fee.service_id.ids().contains_key(old(self).base.own_address)
                        ||| e == FeeError::ConflictingOperation
                            && (match old(self).base.ongoing {
                                OngoingOperation::Idle => false,
                                OngoingOperation::MexOperations(p) =>
                                    p.service_index != service_index,
                                _ => true,
                            })
                    })
                },
                ScResult::Success((status, requests)) => {
                    &&& old(self).percentages_of(service_index) is Some
                    &&& fee.service_id.ids().contains_key(old(self).base.own_address)
                    &&& (match old(self).base.ongoing {
                        OngoingOperation::Idle => true,
                        OngoingOperation::MexOperations(p) => p.service_index == service_index,
                        _ => false,
                    })
                    &&& ({
                        let cfg = fee.static_view();
                        let sid = cfg.service_ids[old(self).base.own_address];
                        let total = subscribers_in(cfg, sid, service_index as u64).len();
                        let start_cursor = (match old(self).base.ongoing {
                            OngoingOperation::MexOperations(p) => p.user_index,
                            _ => 1,
                        });
                        let st0 = MexBatchState {
                            user_fees: old(self).base.user_fees.as_map(),
                            total_fees: old(self).total_fees@,
                            ongoing: OngoingOperation::MexOperations(MexOperationsProgress {
                                service_index,
                                user_index: start_cursor,
                            }),
                            outputs: Seq::empty(),
                        };
                        let (st1, done) = mex_batch_run(
                            cfg, old(self).mex_pairs.as_map(),
                            old(self).percentages_of(service_index).unwrap(),
                            old(self).base.own_address, service_index, st0,
                            max_operations as nat);
                        &&& status == (if done {
                            OperationCompletionStatus::Completed
                        } else {
                            OperationCompletionStatus::InterruptedBeforeOutOfGas
                        })
                        &&& final(self).base.user_fees.as_map() == st1.user_fees
                        &&& final(self).total_fees@ == st1.total_fees
                        &&& final(self).base.ongoing == st1.ongoing
                        &&& requests@ == st1.outputs
                        &&& final(self).base == (SubscriberContractMain {
                            user_fees: final(self).base.user_fees,
                            ongoing: final(self).base.ongoing,
                            ..old(self).base
                        })
                        &&& *final(self) == (BuyMexModule {
                            base: final(self).base,
                            total_fees: final(self).total_fees,
                            ..*old(self)
                        })
                    })
                },
            },
    {
        let actions_percentage = if service_index == 0 {
            self.normal_user_percentage
        } else if service_index == 1 {
            self.premium_user_percentage
        } else {
            return ScResult::Failure(FeeError::InvalidServiceIndex);
        };
        let sid = match fee.service_id.get_id_non_zero(self.base.own_address) {
            Some(id) => id,
            None => {
                return ScResult::Failure(FeeError::CallerNotRegisteredService);
            }
        };
        let start_cursor: usize = match self.base.ongoing {
            OngoingOperation::Idle => 1,
            OngoingOperation::MexOperations(p) => {
                if p.service_index == service_index {
                    p.user_index
                } else {
                    return ScResult::Failure(FeeError::ConflictingOperation);
                }
            }
            _ => {
                return ScResult::Failure(FeeError::ConflictingOperation);
            }
        };
        let ghost cfg = fee.static_view();
        let ghost st0 = MexBatchState {
            user_fees: self.base.user_fees.as_map(),
            total_fees: self.total_fees@,
            ongoing: OngoingOperation::MexOperations(MexOperationsProgress {
                service_index,
                user_index: start_cursor,
            }),
            outputs: Seq::empty(),
        };
        let ghost total_spec = subscribers_in(cfg, sid, service_index as u64).len();
        let own_address = self.base.own_address;
        let mut cursor: usize = start_cursor;
        let mut requests: Vec<MexOperationRequest> = Vec::new();
        let mut ops: u64 = 0;
        loop
            invariant
                self.wf(),
                fee.wf(),
                ops <= max_operations,
                cursor >= 1,
                total_spec < usize::MAX,
                total_spec == subscribers_in(cfg, sid, service_index as u64).len(),
                cfg.service_ids.contains_key(own_address),
                sid == cfg.service_ids[own_address],
                own_address == old(self).base.own_address,
                cfg == fee.static_view(),
                actions_percentage == old(self).percentages_of(service_index).unwrap(),
                old(self).percentages_of(service_index) is Some,
                (match old(self).base.ongoing {
                    OngoingOperation::Idle => start_cursor == 1,
                    OngoingOperation::MexOperations(p) =>
                        p.service_index == service_index && start_cursor == p.user_index,
                    _ => false,
                }),
                st0 == (MexBatchState {
                    user_fees: old(self).base.user_fees.as_map(),
                    total_fees: old(self).total_fees@,
                    ongoing: OngoingOperation::MexOperations(MexOperationsProgress {
                        service_index,
                        user_index: start_cursor,
                    }),
                    outputs: Seq::<MexOperationRequest>::empty(),
                }),
                mex_batch_run(
                    cfg, old(self).mex_pairs.as_map(), actions_percentage, own_address,
                    service_index, st0, max_operations as nat)
                    == mex_batch_run(
                        cfg, old(self).mex_pairs.as_map(), actions_percentage, own_address,
                        service_index,
                        MexBatchState {
                            user_fees: self.base.user_fees.as_map(),
                            total_fees: self.total_fees@,
                            ongoing: OngoingOperation::MexOperations(MexOperationsProgress {
                                service_index,
                                user_index: cursor,
                            }),
                            outputs: requests@,
                        },
                        (max_operations - ops) as nat),
                self.base == (SubscriberContractMain {
                    user_fees: self.base.user_fees,
                    ..old(self).base
                }),
                *self == (BuyMexModule {
                    base: self.base,
                    total_fees: self.total_fees,
                    ..*old(self)
                }),
            decreases max_operations - ops,
        {
            let ghost cur = MexBatchState {
                user_fees: self.base.user_fees.as_map(),
                total_fees: self.total_fees@,
                ongoing: OngoingOperation::MexOperations(MexOperationsProgress {
                    service_index,
                    user_index: cursor,
                }),
                outputs: requests@,
            };
            let total_users = match fee.subscribed_users.get(sid, service_index as u64) {
                Some(subs) => subs.len(),
                None => 0,
            };
            proof {
                assert(total_users == total_spec);
            }
            if cursor > total_users {
                self.base.ongoing = OngoingOperation::Idle;
                return ScResult::Success((OperationCompletionStatus::Completed, requests));
            }
            if ops >= max_operations {
                self.base.ongoing = OngoingOperation::MexOperations(MexOperationsProgress {
                    service_index,
                    user_index: cursor,
                });
                proof {
                    assert((max_operations - ops) as nat == 0);
                }
                return ScResult::Success(
                    (OperationCompletionStatus::InterruptedBeforeOutOfGas, requests));
            }
            let user_id = match fee.subscribed_users.get(sid, service_index as u64) {
                Some(subs) => subs.get_one_based(cursor),
                None => {
                    proof {
                        assert(false);
                    }
                    0
                }
            };
            proof {
                assert(user_id == subscribers_in(cfg, sid, service_index as u64)[cursor - 1]);
            }
            match fee.user_id.get_address(user_id) {
                Some(address) => {
                    let pending = match self.base.user_fees.get(service_index as u64, user_id) {
                        Some(f) => Some(*f),
                        None => None,
                    };
                    match pending {
                        Some(user_fee) => {
                            let token = user_fee.fees.token_identifier;
                            match self.mex_pairs.get(token) {
                                Some(pair_address) => {
                                    let pair_address = *pair_address;
                                    let fees_part = crate::subscriber_config::portion_of(
                                        user_fee.fees.amount, actions_percentage.fees);
                                    let mut taken = true;
                                    if fees_part > 0 {
                                        let mut pooled = self.total_fees.clone_payments();
                                        if pooled.add_payment(Payment {
                                            token_identifier: token,
                                            token_nonce: 0,
                                            amount: fees_part,
                                        }) {
                                            self.total_fees = pooled;
                                        } else {
                                            taken = false;
                                        }
                                    }
                                    if taken {
                                        self.base.user_fees.remove(
                                            service_index as u64, user_id);
                                        requests.push(MexOperationRequest {
                                            user_address: address,
                                            pair_address,
                                            fee_payment: user_fee.fees,
                                        });
                                    }
                                }
                                None => {}
                            }
                        }
                        None => {}
                    }
                }
                None => {}
            }
            proof {
                let stepped = mex_batch_step(
                    cfg, old(self).mex_pairs.as_map(), actions_percentage, own_address,
                    service_index, cur);
                assert(stepped == MexBatchState {
                    user_fees: self.base.user_fees.as_map(),
                    total_fees: self.total_fees@,
                    ongoing: OngoingOperation::MexOperations(MexOperationsProgress {
                        service_index,
                        user_index: (cursor + 1) as usize,
                    }),
                    outputs: requests@,
                });
            }
            cursor += 1;
            ops += 1;
        }
    }
}

} // verus!
