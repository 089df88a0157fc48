//! The resumable per-user action engine: it walks a service's subscriber
//! set under a compute budget, pairs each subscriber with one entry of a
//! caller-supplied auxiliary argument list, invokes the deployment's action
//! strategy for each user whose id still resolves, and accumulates every
//! reward the strategies return into one list owed to the batch caller, to
//! leave in a single batched transfer after the run. Where the budget runs
//! out, a checkpoint — primary cursor, pinned service index and secondary
//! cursor into the argument list — is kept, and a later call resumes
//! exactly where this one stopped.
use vstd::prelude::*;

use crate::base_functions::{ActionContext, DummyData, DummyWrapper, SubscriberContract};
use crate::fee_contract::SubscriptionFee;
use crate::payments::Payment;
use crate::results::{FeeError, OperationCompletionStatus, ScResult};
use crate::service::ServiceInfo;
use crate::store::Store;
use crate::subscriber::{
    ClaimRewardsOperationProgress, OngoingOperation, SubscriberContractMain,
};
use crate::subtract_payments::{subscribers_in, FeeStaticView};
use crate::Epoch;

verus! {

/// The engine's running state: the checkpoint, the rewards accumulated so
/// far for the batch caller, and the addresses of the users whose action
/// succeeded, in visiting order.
pub struct ActionBatchState {
    pub ongoing: OngoingOperation,
    pub rewards: Seq<Payment>,
    pub processed: Seq<u64>,
}

/// The primary cursor of an in-flight action batch.
pub open spec fn action_cursor_of(st: ActionBatchState) -> usize {
    match st.ongoing {
        OngoingOperation::ClaimRewards(p) => p.user_index,
        _ => 0,
    }
}

/// The secondary cursor of an in-flight action batch.
pub open spec fn action_data_index_of(st: ActionBatchState) -> usize {
    match st.ongoing {
        OngoingOperation::ClaimRewards(p) => p.additional_data_index,
        _ => 0,
    }
}

/// One engine step at a cursor within range: consume one auxiliary
/// argument, resolve the subscriber at the cursor — skipping it when its id
/// resolves to no address — and otherwise let the strategy decide,
/// accumulating its rewards for the batch caller and recording the user as
/// processed on success; the cursors advance either way.
pub open spec fn action_step<SC: SubscriberContract>(
    cfg: FeeStaticView,
    energy: Map<u64, u64>,
    energy_threshold: u64,
    own_address: u64,
    service_index: usize,
    service_info: ServiceInfo,
    additional_data: Seq<SC::AdditionalDataType>,
    st: ActionBatchState,
) -> ActionBatchState {
    let sid = cfg.service_ids[own_address];
    let cursor = action_cursor_of(st);
    let adi = action_data_index_of(st);
    let user_id = subscribers_in(cfg, sid, service_index as u64)[cursor - 1];
    let item = additional_data[adi as int];
    let advanced = OngoingOperation::ClaimRewards(ClaimRewardsOperationProgress {
        service_index,
        user_index: (cursor + 1) as usize,
        additional_data_index: (adi + 1) as usize,
    });
    if !cfg.user_addresses.contains_key(user_id) {
        ActionBatchState { ongoing: advanced, ..st }
    } else {
        let address = cfg.user_addresses[user_id];
        let ctx = ActionContext {
            user_energy: if energy.contains_key(address) {
                energy[address]
            } else {
                0
            },
            energy_threshold,
        };
        match SC::action_spec(ctx, address, service_index, service_info, item) {
            Ok(rewards) => ActionBatchState {
                ongoing: advanced,
                rewards: st.rewards + rewards,
                processed: st.processed.push(address),
            },
            Err(()) => ActionBatchState { ongoing: advanced, ..st },
        }
    }
}

/// Run the action batch for up to `fuel` steps: the batch completes when
/// either the subscriber set or the auxiliary argument list is exhausted,
/// clearing the checkpoint; when the fuel runs out first, the state so far
/// is the checkpoint.
pub open spec fn action_run<SC: SubscriberContract>(
    cfg: FeeStaticView,
    energy: Map<u64, u64>,
    energy_threshold: u64,
    own_address: u64,
    service_index: usize,
    service_info: ServiceInfo,
    additional_data: Seq<SC::AdditionalDataType>,
    st: ActionBatchState,
    fuel: nat,
) -> (ActionBatchState, bool)
    decreases fuel,
{
    let sid = cfg.service_ids[own_address];
    let total = subscribers_in(cfg, sid, service_index as u64).len();
    if action_data_index_of(st) >= additional_data.len() || action_cursor_of(st) > total {
        (ActionBatchState { ongoing: OngoingOperation::Idle, ..st }, true)
    } else if fuel == 0 {
        (st, false)
    } else {
        action_run::<SC>(
            cfg, energy, energy_threshold, own_address, service_index, service_info,
            additional_data,
            action_step::<SC>(
                cfg, energy, energy_threshold, own_address, service_index, service_info,
                additional_data, st),
            (fuel - 1) as nat,
        )
    }
}

/// The primary cursor at the moment the run stops, whether it completed or
/// ran out of fuel; it is where a later batch in the same epoch starts.
pub open spec fn action_stop_cursor<SC: SubscriberContract>(
    cfg: FeeStaticView,
    energy: Map<u64, u64>,
    energy_threshold: u64,
    own_address: u64,
    service_index: usize,
    service_info: ServiceInfo,
    additional_data: Seq<SC::AdditionalDataType>,
    st: ActionBatchState,
    fuel: nat,
) -> usize
    decreases fuel,
{
    let sid = cfg.service_ids[own_address];
    let total = subscribers_in(cfg, sid, service_index as u64).len();
    if action_data_index_of(st) >= additional_data.len() || action_cursor_of(st) > total {
        action_cursor_of(st)
    } else if fuel == 0 {
        action_cursor_of(st)
    } else {
        action_stop_cursor::<SC>(
            cfg, energy, energy_threshold, own_address, service_index, service_info,
            additional_data,
            action_step::<SC>(
                cfg, energy, energy_threshold, own_address, service_index, service_info,
                additional_data, st),
            (fuel - 1) as nat,
        )
    }
}

/// Checkpoint resumption equivalence for the action engine: interrupting
/// after `a` steps and resuming with `b` more reaches exactly the state —
/// accumulated rewards and processed users included — of one uninterrupted
/// run with budget `a + b`; once complete, further budget changes nothing.
pub proof fn lemma_action_batch_resumption<SC: SubscriberContract>(
    cfg: FeeStaticView,
    energy: Map<u64, u64>,
    energy_threshold: u64,
    own_address: u64,
    service_index: usize,
    service_info: ServiceInfo,
    additional_data: Seq<SC::AdditionalDataType>,
    st: ActionBatchState,
    a: nat,
    b: nat,
)
    ensures
        ({
            let (st1, done1) = action_run::<SC>(
                cfg, energy, energy_threshold, own_address, service_index, service_info,
                additional_data, st, a);
            if done1 {
                action_run::<SC>(
                    cfg, energy, energy_threshold, own_address, service_index, service_info,
                    additional_data, st, a + b) == (st1, true)
            } else {
                action_run::<SC>(
                    cfg, energy, energy_threshold, own_address, service_index, service_info,
                    additional_data, st1, b)
                    == action_run::<SC>(
                        cfg, energy, energy_threshold, own_address, service_index,
                        service_info, additional_data, st, a + b)
            }
        }),
    decreases a,
{
    let sid = cfg.service_ids[own_address];
    let total = subscribers_in(cfg, sid, service_index as u64).len();
    if action_data_index_of(st) >= additional_data.len() || action_cursor_of(st) > total {
    } else if a == 0 {
    } else {
        let stepped = action_step::<SC>(
            cfg, energy, energy_threshold, own_address, service_index, service_info,
            additional_data, st);
        lemma_action_batch_resumption::<SC>(
            cfg, energy, energy_threshold, own_address, service_index, service_info,
            additional_data, stepped, (a - 1) as nat, b);
    }
}

/// The auxiliary argument list the do-nothing batch runs with.
pub open spec fn dummy_args_spec() -> Seq<DummyData> {
    Seq::new(10, |i: int| DummyData { dummy_data: 0 })
}

impl SubscriberContractMain {
    /// Run the do-nothing strategy over this service's subscribers: it
    /// exercises the engine — checkpoint, resumption and conflict handling —
    /// with ten placeholder arguments and no external signals, exactly as
    /// `action_run` with the do-nothing strategy says.
    pub fn dummy_perform_action(
        &mut self,
        fee: &SubscriptionFee,
        service_index: usize,
        current_epoch: Epoch,
        max_operations: u64,
    ) -> (r: ScResult<OperationCompletionStatus, FeeError>)
        requires
            old(self).wf(),
            fee.wf(),
            fee.service_id.ids().contains_key(old(self).own_address)
                ==> fee.subscribers_of(
                    fee.service_id.ids()[old(self).own_address],
                    service_index as u64,
                ).len() < usize::MAX,
        ensures
            final(self).wf(),
            match r {
                ScResult::Failure(e) => {
                    &&& *final(self) == *old(self)
                    &&& ({
                        ||| e == FeeError::CallerNotRegisteredService
                            && !fee.service_id.ids().contains_key(old(self).own_address)
                        ||| e == FeeError::InvalidServiceIndex
                            && service_index >= fee.descriptors_of(
                                fee.service_id.ids()[old(self).own_address]).len()
                        ||| e == FeeError::ConflictingOperation
                            && (match old(self).ongoing {
                                OngoingOperation::Idle => false,
                                OngoingOperation::ClaimRewards(p) =>
                                    p.service_index != service_index,
                                _ => true,
                            })
                    })
                },
                ScResult::Success(status) => {
                    &&& fee.service_id.ids().contains_key(old(self).own_address)
                    &&& (match old(self).ongoing {
                        OngoingOperation::Idle => true,
                        OngoingOperation::ClaimRewards(p) => p.service_index == service_index,
                        _ => false,
                    })
                    &&& ({
                    let cfg = fee.static_view();
                    let sid = cfg.service_ids[old(self).own_address];
                    let info = fee.descriptors_of(sid)[service_index as int];
                    let start_user_index = (
                        if old(self).last_global_action_epoch_of(service_index as u64)
                            == current_epoch && old(self).user_index >= 1 {
                            old(self).user_index
                        } else {
                            1
                        });
                    let start = (match old(self).ongoing {
                        OngoingOperation::ClaimRewards(p) => p,
                        _ => ClaimRewardsOperationProgress {
                            service_index,
                            user_index: start_user_index,
                            additional_data_index: 0,
                        },
                    });
                    let st0 = ActionBatchState {
                        ongoing: OngoingOperation::ClaimRewards(start),
                        rewards: Seq::empty(),
                        processed: Seq::empty(),
                    };
                    let (st1, done) = action_run::<DummyWrapper>(
                        cfg, Map::empty(), 0, old(self).own_address, service_index, info,
                        dummy_args_spec(), st0, max_operations as nat);
                    &&& fee.service_id.ids().contains_key(old(self).own_address)
                    &&& status == (if done {
                        OperationCompletionStatus::Completed
                    } else {
                        OperationCompletionStatus::InterruptedBeforeOutOfGas
                    })
                    &&& final(self).ongoing == st1.ongoing
                    &&& final(self).user_index == action_stop_cursor::<DummyWrapper>(
                        cfg, Map::empty(), 0, old(self).own_address, service_index, info,
                        dummy_args_spec(), st0, max_operations as nat)
                    &&& *final(self) == (SubscriberContractMain {
                        user_index: final(self).user_index,
                        ongoing: final(self).ongoing,
                        ..*old(self)
                    })
                    })
                },
            },
    {
        let start_user_index = self.get_user_index(service_index, current_epoch);
        let mut dummy_args: Vec<DummyData> = Vec::new();
        let mut i: usize = 0;
        while i < 10
            invariant
                i <= 10,
                dummy_args@ =~= dummy_args_spec().subrange(0, i as int),
            decreases 10 - i,
        {
            dummy_args.push(DummyData { dummy_data: 0 });
            proof {
                assert(dummy_args@ =~= dummy_args_spec().subrange(0, (i + 1) as int));
            }
            i += 1;
        }
        proof {
            assert(dummy_args@ =~= dummy_args_spec());
        }
        let energy: Store<u64> = Store::new();
        match self.perform_service::<DummyWrapper>(
            fee, &energy, 0, service_index, start_user_index, &dummy_args, max_operations,
        ) {
            ScResult::Success((status, _rewards, _processed)) => ScResult::Success(status),
            ScResult::Failure(e) => ScResult::Failure(e),
        }
    }

    /// Where a fresh action batch starts: at the stored cursor when a batch
    /// already ran in this epoch, else at the beginning.
    pub fn get_user_index(&self, service_index: usize, current_epoch: Epoch) -> (r: usize)
        requires
            self.wf(),
        ensures
            r == (if self.last_global_action_epoch_of(service_index as u64) == current_epoch
                && self.user_index >= 1 {
                self.user_index
            } else {
                1
            }),
            r >= 1,
    {
        let last_action_epoch = match self.last_global_action_epoch.get(service_index as u64) {
            Some(e) => *e,
            None => 0,
        };
        if last_action_epoch == current_epoch && self.user_index >= 1 {
            self.user_index
        } else {
            1
        }
    }

    /// The epoch the last action batch for `service_index` started in; zero
    /// when none ever did.
    pub open spec fn last_global_action_epoch_of(self, service_index: u64) -> u64 {
        if self.last_global_action_epoch.as_map().contains_key(service_index) {
            self.last_global_action_epoch.as_map()[service_index]
        } else {
            0
        }
    }

    /// Run the action batch for `service_index` with strategy `SC` under a
    /// compute budget of `max_operations` engine steps, exactly as
    /// `action_run` says, starting from `start_user_index` when idle or
    /// from the checkpoint when resuming. Returns the completion status,
    /// the rewards accumulated for the batch caller — to leave in one
    /// batched transfer after the call — and the addresses of the users
    /// whose action succeeded. A call naming a different target than the
    /// in-flight checkpoint fails with `ConflictingOperation` and changes
    /// nothing.
    pub fn perform_service<SC: SubscriberContract>(
        &mut self,
        fee: &SubscriptionFee,
        energy: &Store<u64>,
        energy_threshold: u64,
        service_index: usize,
        start_user_index: usize,
        additional_data: &Vec<SC::AdditionalDataType>,
        max_operations: u64,
    ) -> (r: ScResult<(OperationCompletionStatus, Vec<Payment>, Vec<u64>), FeeError>)
        requires
            old(self).wf(),
            fee.wf(),
            energy.wf(),
            start_user_index >= 1,
            fee.service_id.ids().contains_key(old(self).own_address)
                ==> fee.subscribers_of(
                    fee.service_id.ids()[old(self).own_address],
                    service_index as u64,
                ).len() < usize::MAX,
            additional_data@.len() < usize::MAX,
        ensures
            final(self).wf(),
            match r {
                ScResult::Failure(e) => {
                    &&& *final(self) == *old(self)
                    &&& ({
                        ||| e == FeeError::CallerNotRegisteredService
                            && !fee.service_id.ids().contains_key(old(self).own_address)
                        ||| e == FeeError::InvalidServiceIndex
                            && service_index >= fee.descriptors_of(
                                fee.service_id.ids()[old(self).own_address]).len()
                        ||| e == FeeError::ConflictingOperation
                            && (match old(self).ongoing {
                                OngoingOperation::Idle => false,
                                OngoingOperation::ClaimRewards(p) =>
                                    p.service_index != service_index,
                                _ => true,
                            })
                    })
                },
                ScResult::Success((status, caller_rewards, processed_users)) => {
                    &&& fee.service_id.ids().contains_key(old(self).own_address)
                    &&& (match old(self).ongoing {
                        OngoingOperation::Idle => true,
                        OngoingOperation::ClaimRewards(p) => p.service_index == service_index,
                        _ => false,
                    })
                    &&& ({
                        let cfg = fee.static_view();
                        let sid = cfg.service_ids[old(self).own_address];
                        let info = fee.descriptors_of(sid)[service_index as int];
                        let start = (match old(self).ongoing {
                            OngoingOperation::ClaimRewards(p) => p,
                            _ => ClaimRewardsOperationProgress {
                                service_index,
                                user_index: start_user_index,
                                additional_data_index: 0,
                            },
                        });
                        let st0 = ActionBatchState {
                            ongoing: OngoingOperation::ClaimRewards(start),
                            rewards: Seq::empty(),
                            processed: Seq::empty(),
                        };
                        let (st1, done) = action_run::<SC>(
                            cfg, energy.as_map(), energy_threshold, old(self).own_address,
                            service_index, info, additional_data@, st0,
                            max_operations as nat);
                        &&& service_index < fee.descriptors_of(sid).len()
                        &&& status == (if done {
                            OperationCompletionStatus::Completed
                        } else {
                            OperationCompletionStatus::InterruptedBeforeOutOfGas
                        })
                        &&& caller_rewards@ == st1.rewards
                        &&& processed_users@ == st1.processed
                        &&& final(self).ongoing == st1.ongoing
                        &&& final(self).user_index == action_stop_cursor::<SC>(
                            cfg, energy.as_map(), energy_threshold, old(self).own_address,
                            service_index, info, additional_data@, st0,
                            max_operations as nat)
                        &&& *final(self) == (SubscriberContractMain {
                            user_index: final(self).user_index,
                            ongoing: final(self).ongoing,
                            ..*old(self)
                        })
                    })
                },
            },
    {
        let sid = match fee.service_id.get_id_non_zero(self.own_address) {
            Some(id) => id,
            None => {
                return ScResult::Failure(FeeError::CallerNotRegisteredService);
            }
        };
        let descriptors_len = match fee.service_info.get(sid) {
            Some(infos) => infos.len(),
            None => 0,
        };
        if service_index >= descriptors_len {
            return ScResult::Failure(FeeError::InvalidServiceIndex);
        }
        let service_info = *match fee.service_info.get(sid) {
            Some(infos) => &infos[service_index],
            None => {
                proof {
                    assert(false);
                }
                return ScResult::Failure(FeeError::InvalidServiceIndex);
            }
        };
        let start = match self.ongoing {
            OngoingOperation::Idle => ClaimRewardsOperationProgress {
                service_index,
                user_index: start_user_index,
                additional_data_index: 0,
            },
            OngoingOperation::ClaimRewards(p) => {
                if p.service_index == service_index {
                    p
                } else {
                    return ScResult::Failure(FeeError::ConflictingOperation);
                }
            }
            _ => {
                return ScResult::Failure(FeeError::ConflictingOperation);
            }
        };
        let ghost cfg = fee.static_view();
        let ghost st0 = ActionBatchState {
            ongoing: OngoingOperation::ClaimRewards(start),
            rewards: Seq::empty(),
            processed: Seq::empty(),
        };
        let ghost total_spec = subscribers_in(cfg, sid, service_index as u64).len();
        let own_address = self.own_address;
        let mut cursor: usize = start.user_index;
        let mut adi: usize = start.additional_data_index;
        let mut caller_rewards: Vec<Payment> = Vec::new();
        let mut processed_users: Vec<u64> = Vec::new();
        let mut ops: u64 = 0;
        proof {
            assert(caller_rewards@ =~= Seq::<Payment>::empty());
            assert(processed_users@ =~= Seq::<u64>::empty());
        }
        loop
            invariant
                self.wf(),
                fee.wf(),
                energy.wf(),
                ops <= max_operations,
                cursor >= 1,
                total_spec < usize::MAX,
                additional_data@.len() < usize::MAX,
                total_spec == subscribers_in(cfg, sid, service_index as u64).len(),
                cfg.service_ids.contains_key(own_address),
                sid == cfg.service_ids[own_address],
                own_address == old(self).own_address,
                cfg == fee.static_view(),
                service_info == fee.descriptors_of(sid)[service_index as int],
                service_index < fee.descriptors_of(sid).len(),
                start == (match old(self).ongoing {
                    OngoingOperation::ClaimRewards(p) => p,
                    _ => ClaimRewardsOperationProgress {
                        service_index,
                        user_index: start_user_index,
                        additional_data_index: 0,
                    },
                }),
                (match old(self).ongoing {
                    OngoingOperation::Idle => true,
                    OngoingOperation::ClaimRewards(p) => p.service_index == service_index,
                    _ => false,
                }),
                st0 == (ActionBatchState {
                    ongoing: OngoingOperation::ClaimRewards(start),
                    rewards: Seq::<Payment>::empty(),
                    processed: Seq::<u64>::empty(),
                }),
                start.user_index > total_spec || adi > additional_data@.len()
                    ==> cursor == start.user_index,
                start.user_index <= total_spec ==> cursor <= total_spec + 1,
                action_run::<SC>(
                    cfg, energy.as_map(), energy_threshold, own_address, service_index,
                    service_info, additional_data@, st0, max_operations as nat)
                    == action_run::<SC>(
                        cfg, energy.as_map(), energy_threshold, own_address, service_index,
                        service_info, additional_data@,
                        ActionBatchState {
                            ongoing: OngoingOperation::ClaimRewards(
                                ClaimRewardsOperationProgress {
                                    service_index,
                                    user_index: cursor,
                                    additional_data_index: adi,
                                }),
                            rewards: caller_rewards@,
                            processed: processed_users@,
                        },
                        (max_operations - ops) as nat),
                action_stop_cursor::<SC>(
                    cfg, energy.as_map(), energy_threshold, own_address, service_index,
                    service_info, additional_data@, st0, max_operations as nat)
                    == action_stop_cursor::<SC>(
                        cfg, energy.as_map(), energy_threshold, own_address, service_index,
                        service_info, additional_data@,
                        ActionBatchState {
                            ongoing: OngoingOperation::ClaimRewards(
                                ClaimRewardsOperationProgress {
                                    service_index,
                                    user_index: cursor,
                                    additional_data_index: adi,
                                }),
                            rewards: caller_rewards@,
                            processed: processed_users@,
                        },
                        (max_operations - ops) as nat),
                *self == *old(self),
            decreases max_operations - ops,
        {
            let ghost cur = ActionBatchState {
                ongoing: OngoingOperation::ClaimRewards(ClaimRewardsOperationProgress {
                    service_index,
                    user_index: cursor,
                    additional_data_index: adi,
                }),
                rewards: caller_rewards@,
                processed: processed_users@,
            };
            let total_users = match fee.subscribed_users.get(sid, service_index as u64) {
                Some(subs) => subs.len(),
                None => 0,
            };
            proof {
                assert(total_users == total_spec);
            }
            if adi >= additional_data.len() || cursor > total_users {
                self.ongoing = OngoingOperation::Idle;
                self.user_index = cursor;
                return ScResult::Success(
                    (OperationCompletionStatus::Completed, caller_rewards, processed_users));
            }
            if ops >= max_operations {
                self.ongoing = OngoingOperation::ClaimRewards(ClaimRewardsOperationProgress {
                    service_index,
                    user_index: cursor,
                    additional_data_index: adi,
                });
                self.user_index = cursor;
                proof {
                    assert((max_operations - ops) as nat == 0);
                }
                return ScResult::Success((
                    OperationCompletionStatus::InterruptedBeforeOutOfGas,
                    caller_rewards,
                    processed_users,
                ));
            }
            let item = &additional_data[adi];
            let user_id = match fee.subscribed_users.get(sid, service_index as u64) {
                Some(subs) => subs.get_one_based(cursor),
                None => {
                    proof {
                        assert(false);
                    }
                    0
                }
            };
            proof {
                assert(user_id == subscribers_in(cfg, sid, service_index as u64)[cursor - 1]);
            }
            match fee.user_id.get_address(user_id) {
                Some(address) => {
                    let user_energy = match energy.get(address) {
                        Some(e) => *e,
                        None => 0,
                    };
                    let ctx = ActionContext { user_energy, energy_threshold };
                    match SC::perform_action(&ctx, address, service_index, &service_info, item) {
                        Ok(res) => {
                            let ghost incoming_rewards = res.user_rewards@;
                            let mut incoming = res.user_rewards;
                            caller_rewards.append(&mut incoming);
                            processed_users.push(address);
                            proof {
                                assert(caller_rewards@ == cur.rewards + incoming_rewards);
                            }
                        }
                        Err(()) => {}
                    }
                }
                None => {}
            }
            proof {
                let stepped = action_step::<SC>(
                    cfg, energy.as_map(), energy_threshold, own_address, service_index,
                    service_info, additional_data@, cur);
                assert(stepped == ActionBatchState {
                    ongoing: OngoingOperation::ClaimRewards(ClaimRewardsOperationProgress {
                        service_index,
                        user_index: (cursor + 1) as usize,
                        additional_data_index: (adi + 1) as usize,
                    }),
                    rewards: caller_rewards@,
                    processed: processed_users@,
                });
            }
            cursor += 1;
            adi += 1;
            ops += 1;
        }
    }
}

} // verus!
