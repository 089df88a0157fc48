//! The metabonding deployment of the action engine: each subscriber's
//! signed claim payload is forwarded to the metabonding contract — outside
//! this library — once the strategy's eligibility decision clears. The
//! premium tier additionally requires the user's energy to reach the
//! deployment's threshold.
use vstd::prelude::*;

use crate::base_functions::{ActionContext, InterpretedResult, SubscriberContract};
use crate::daily_operations::{action_run, action_stop_cursor, ActionBatchState};
use crate::fee_contract::SubscriptionFee;
use crate::payments::Payment;
use crate::results::{FeeError, OperationCompletionStatus, ScResult};
use crate::service::ServiceInfo;
use crate::store::Store;
use crate::subscriber::{ClaimRewardsOperationProgress, OngoingOperation, SubscriberContractMain};
use crate::Epoch;

verus! {

/// One user's signed claim payload: week index, staked amounts and the
/// signature bytes, forwarded verbatim to the metabonding contract.
#[derive(Clone, Debug)]
pub struct AdditionalMetabodingData {
    pub week: u64,
    pub user_delegation_amount: u64,
    pub user_lkmex_staked_amount: u64,
    pub signature: Vec<u8>,
}

/// The metabonding strategy: the standard tier is always eligible, the
/// premium tier only when the user's energy reaches the threshold. The
/// strategy itself moves no tokens — the rewards arrive from the claim the
/// caller performs outside — so an eligible user yields an empty reward
/// list, and the engine's processed-user report is the claim worklist.
pub struct MetabondingWrapper {}

impl SubscriberContract for MetabondingWrapper {
    type AdditionalDataType = AdditionalMetabodingData;

    open spec fn action_spec(
        ctx: ActionContext,
        user_address: u64,
        service_index: usize,
        service_info: ServiceInfo,
        additional_data: AdditionalMetabodingData,
    ) -> Result<Seq<Payment>, ()> {
        if service_index == 1 && ctx.user_energy < ctx.energy_threshold {
            Err(())
        } else {
            Ok(Seq::empty())
        }
    }

    fn perform_action(
        ctx: &ActionContext,
        user_address: u64,
        service_index: usize,
        service_info: &ServiceInfo,
        additional_data: &AdditionalMetabodingData,
    ) -> (r: Result<InterpretedResult, ()>) {
        if service_index == 1 && ctx.user_energy < ctx.energy_threshold {
            Err(())
        } else {
            let result = InterpretedResult { user_rewards: Vec::new() };
            proof {
                assert(result.user_rewards@ =~= Seq::<Payment>::empty());
            }
            Ok(result)
        }
    }
}

/// The whole persisted state of the metabonding deployment: the generic
/// subscriber machinery plus the premium-tier energy threshold.
pub struct MetabondingSubscriber {
    pub base: SubscriberContractMain,
    pub energy_threshold: u64,
}

/// The strategy inputs built from one raw claim-argument tuple.
pub open spec fn metabonding_args_view(
    raw: Seq<(u64, u64, u64, Vec<u8>)>,
) -> Seq<AdditionalMetabodingData> {
    raw.map_values(|t: (u64, u64, u64, Vec<u8>)| AdditionalMetabodingData {
        week: t.0,
        user_delegation_amount: t.1,
        user_lkmex_staked_amount: t.2,
        signature: t.3,
    })
}

impl MetabondingSubscriber {
    pub open spec fn wf(self) -> bool {
        self.base.wf()
    }

    /// Deploy a metabonding subscriber bound to a fee contract.
    pub fn new(own_address: u64, fees_contract_address: u64, energy_threshold: u64) -> (r: Self)
        ensures
            r.wf(),
            r.energy_threshold == energy_threshold,
            r.base.own_address == own_address,
            r.base.fees_contract_address == fees_contract_address,
            r.base.ongoing == OngoingOperation::Idle,
            r.base.user_index == 0,
            r.base.last_global_action_epoch.as_map() == Map::<u64, u64>::empty(),
    {
        MetabondingSubscriber {
            base: SubscriberContractMain::new(own_address, fees_contract_address),
            energy_threshold,
        }
    }

    /// Run one budget-bounded pass of the metabonding claim batch: convert
    /// the raw claim arguments, resume from this epoch's checkpoint when
    /// one exists, and behave exactly as the action engine with the
    /// metabonding strategy; afterwards the batch-start epoch is recorded.
    /// Returns the completion status, the rewards accumulated for the batch
    /// caller, and the addresses of the users whose claim went out. Only
    /// tier indexes up to one exist.
    pub fn perform_action_endpoint(
        &mut self,
        fee: &SubscriptionFee,
        energy: &Store<u64>,
        service_index: usize,
        raw_claim_args: Vec<(u64, u64, u64, Vec<u8>)>,
        current_epoch: Epoch,
        max_operations: u64,
    ) -> (r: ScResult<(OperationCompletionStatus, Vec<Payment>, Vec<u64>), FeeError>)
        requires
            old(self).wf(),
            fee.wf(),
            energy.wf(),
            fee.service_id.ids().contains_key(old(self).base.own_address)
                ==> fee.subscribers_of(
                    fee.service_id.ids()[old(self).base.own_address],
                    service_index as u64,
                ).len() < usize::MAX,
            raw_claim_args@.len() < usize::MAX,
        ensures
            final(self).wf(),
            final(self).energy_threshold == old(self).energy_threshold,
            match r {
                ScResult::Failure(e) => {
                    &&& *final(self) == *old(self)
                    &&& ({
                        ||| e == FeeError::InvalidIndex && service_index > 1
                        ||| e == FeeError::CallerNotRegisteredService
                            && !fee.service_id.ids().contains_key(old(self).base.own_address)
                        ||| e == FeeError::InvalidServiceIndex
                            && service_index >= fee.descriptors_of(
                                fee.service_id.ids()[old(self).base.own_address]).len()
                        ||| e == FeeError::ConflictingOperation
                            && (match old(self).base.ongoing {
                                OngoingOperation::Idle => false,
                                OngoingOperation::ClaimRewards(p) =>
                                    p.service_index != service_index,
                                _ => true,
                            })
                    })
                },
                ScResult::Success((status, caller_rewards, processed_users)) => {
                    &&& service_index <= 1
                    &&& fee.service_id.ids().contains_key(old(self).base.own_address)
                    &&& (match old(self).base.ongoing {
                        OngoingOperation::Idle => true,
                        OngoingOperation::ClaimRewards(p) => p.service_index == service_index,
                        _ => false,
                    })
                    &&& ({
                        let cfg = fee.static_view();
                        let sid = cfg.service_ids[old(self).base.own_address];
                        let info = fee.descriptors_of(sid)[service_index as int];
                        let start_user_index = (
                            if old(self).base.last_global_action_epoch_of(service_index as u64)
                                == current_epoch && old(self).base.user_index >= 1 {
                                old(self).base.user_index
                            } else {
                                1
                            });
                        let start = (match old(self).base.ongoing {
                            OngoingOperation::ClaimRewards(p) => p,
                            _ => ClaimRewardsOperationProgress {
                                service_index,
                                user_index: start_user_index,
                                additional_data_index: 0,
                            },
                        });
                        let st0 = ActionBatchState {
                            ongoing: OngoingOperation::ClaimRewards(start),
                            rewards: Seq::empty(),
                            processed: Seq::empty(),
                        };
                        let data = metabonding_args_view(raw_claim_args@);
                        let (st1, done) = action_run::<MetabondingWrapper>(
                            cfg, energy.as_map(), old(self).energy_threshold,
                            old(self).base.own_address, service_index, info, data, st0,
                            max_operations as nat);
                        &&& status == (if done {
                            OperationCompletionStatus::Completed
                        } else {
                            OperationCompletionStatus::InterruptedBeforeOutOfGas
                        })
                        &&& caller_rewards@ == st1.rewards
                        &&& processed_users@ == st1.processed
                        &&& final(self).base.ongoing == st1.ongoing
                        &&& final(self).base.user_index
                            == action_stop_cursor::<MetabondingWrapper>(
                                cfg, energy.as_map(), old(self).energy_threshold,
                                old(self).base.own_address, service_index, info, data, st0,
                                max_operations as nat)
                        &&& final(self).base.last_global_action_epoch.as_map()
                            == old(self).base.last_global_action_epoch.as_map().insert(
                                service_index as u64, current_epoch)
                        &&& final(self).base == (SubscriberContractMain {
                            user_index: final(self).base.user_index,
                            ongoing: final(self).base.ongoing,
                            last_global_action_epoch: final(self).base.last_global_action_epoch,
                            ..old(self).base
                        })
                    })
                },
            },
    {
        if service_index > 1 {
            return ScResult::Failure(FeeError::InvalidIndex);
        }
        let ghost raw0 = raw_claim_args@;
        let mut raw = raw_claim_args;
        let mut args_vec: Vec<AdditionalMetabodingData> = Vec::new();
        while raw.len() > 0
            invariant
                args_vec@.len() + raw@.len() == raw0.len(),
                args_vec@ == metabonding_args_view(raw0.subrange(0, args_vec@.len() as int)),
                raw@ == raw0.subrange(args_vec@.len() as int, raw0.len() as int),
            decreases raw@.len(),
        {
            let ghost k = args_vec@.len() as int;
            let entry = raw.remove(0);
            proof {
                assert(entry == raw0[k]);
            }
            args_vec.push(AdditionalMetabodingData {
                week: entry.0,
                user_delegation_amount: entry.1,
                user_lkmex_staked_amount: entry.2,
                signature: entry.3,
            });
            proof {
                assert(raw0.subrange(0, k + 1).drop_last() =~= raw0.subrange(0, k));
                assert(args_vec@.drop_last()
                    == metabonding_args_view(raw0.subrange(0, k + 1)).drop_last());
                assert(args_vec@.last()
                    == metabonding_args_view(raw0.subrange(0, k + 1)).last());
                assert(args_vec@ =~= metabonding_args_view(raw0.subrange(0, k + 1)));
                assert(raw@ =~= raw0.subrange(k + 1, raw0.len() as int));
            }
        }
        proof {
            assert(raw0.subrange(0, raw0.len() as int) =~= raw0);
            assert(args_vec@ == metabonding_args_view(raw0));
        }
        let start_user_index = self.base.get_user_index(service_index, current_epoch);
        let threshold = self.energy_threshold;
        match self.base.perform_service::<MetabondingWrapper>(
            fee, energy, threshold, service_index, start_user_index, &args_vec, max_operations,
        ) {
            ScResult::Success((status, caller_rewards, processed_users)) => {
                self.base.last_global_action_epoch.set(service_index as u64, current_epoch);
                ScResult::Success((status, caller_rewards, processed_users))
            }
            ScResult::Failure(e) => ScResult::Failure(e),
        }
    }
}

} // verus!
