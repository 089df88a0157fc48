//! The generic subscriber-side service contract: it charges its subscribers
//! through the fee contract in a resumable, budget-bounded batch, keeping a
//! checkpoint of where it stopped and an at-most-one-outstanding-charge
//! record per (service index, user).
//!
//! Stale subscriber entries whose id no longer resolves to an address are
//! skipped with the cursor advanced, so a batch always makes progress; a
//! user whose previous charge is still unconsumed is skipped as well rather
//! than aborting the batch.
use vstd::prelude::*;

use crate::fee_contract::SubscriptionFee;
use crate::pair_actions::{PairDirectory, PairState};
use crate::payments::Payment;
use crate::results::{FeeError, MyVeryOwnScResult, OperationCompletionStatus, ScResult};
use crate::store::{Store, Store2};
use crate::subtract_payments::{
    subscribers_in, subtract_payment_spec, ChargeState, FeeStaticView, MONTHLY_EPOCHS,
};
use crate::Epoch;

verus! {

/// A debited payment awaiting its per-user action, with the epoch it was
/// taken at. While one exists for a (service index, user) pair, no further
/// charge of that pair is allowed.
#[derive(Clone, Copy, PartialEq, Eq, Structural, Debug)]
pub struct UserFees {
    pub fees: Payment,
    pub epoch: Epoch,
}

/// Checkpoint of the charge batch.
#[derive(Clone, Copy, PartialEq, Eq, Structural, Debug)]
pub struct SubtractPaymentOperation {
    pub service_index: usize,
    pub user_index: usize,
}

/// Checkpoint of the per-user action batch, with a secondary cursor into
/// the caller-supplied auxiliary argument list.
#[derive(Clone, Copy, PartialEq, Eq, Structural, Debug)]
pub struct ClaimRewardsOperationProgress {
    pub service_index: usize,
    pub user_index: usize,
    pub additional_data_index: usize,
}

/// Checkpoint of the buy-and-lock batch.
#[derive(Clone, Copy, PartialEq, Eq, Structural, Debug)]
pub struct MexOperationsProgress {
    pub service_index: usize,
    pub user_index: usize,
}

/// The single checkpoint slot: a tagged union, so two checkpoint shapes can
/// never be mistaken for one another on load, and at most one resumable
/// operation is in flight per contract.
#[derive(Clone, Copy, PartialEq, Eq, Structural, Debug)]
pub enum OngoingOperation {
    Idle,
    SubtractPayment(SubtractPaymentOperation),
    ClaimRewards(ClaimRewardsOperationProgress),
    MexOperations(MexOperationsProgress),
}

/// The whole persisted state of the generic subscriber contract.
pub struct SubscriberContractMain {
    /// The address this contract is registered under at the fee contract.
    pub own_address: u64,
    pub fees_contract_address: u64,
    /// (service index, user id) -> unconsumed debited charge
    pub user_fees: Store2<UserFees>,
    /// service index -> epoch before which no new charge pass may start
    pub next_subtract_epoch: Store<u64>,
    /// where the last charge batch stopped
    pub subtract_user_index: usize,
    /// where the last action batch stopped
    pub user_index: usize,
    /// service index -> epoch of the last action batch start
    pub last_global_action_epoch: Store<u64>,
    pub ongoing: OngoingOperation,
}

/// The batch-relevant state of subscriber and fee contract together, which
/// the resumption proofs thread through the engine one step at a time.
pub struct SubBatchState {
    pub user_fees: Map<(u64, u64), UserFees>,
    pub next_subtract_epoch: Map<u64, u64>,
    pub ongoing: OngoingOperation,
    pub charge: ChargeState,
}

/// The epoch at which the next whole charge pass becomes allowed.
pub open spec fn next_pass_epoch(current_epoch: Epoch) -> Epoch {
    if current_epoch + MONTHLY_EPOCHS > u64::MAX {
        u64::MAX
    } else {
        (current_epoch + MONTHLY_EPOCHS) as u64
    }
}

/// One charge of one user, guarded by the at-most-one-outstanding-charge
/// record: while an unconsumed charge exists for (service index, user), the
/// attempt fails and changes nothing; otherwise the fee contract's
/// authorization machine decides, and a successful debit is recorded.
pub open spec fn charge_user_spec(
    cfg: FeeStaticView,
    pairs: Map<u64, PairState>,
    own_address: u64,
    service_index: usize,
    user_id: u64,
    current_epoch: Epoch,
    user_fees: Map<(u64, u64), UserFees>,
    charge: ChargeState,
) -> (Map<(u64, u64), UserFees>, ChargeState, MyVeryOwnScResult<(), FeeError>) {
    if user_fees.contains_key((service_index as u64, user_id)) {
        (user_fees, charge, MyVeryOwnScResult::Failure(FeeError::LastFeesNotProcessed))
    } else {
        let (charge2, r) = subtract_payment_spec(
            cfg, pairs, charge, own_address, service_index, user_id, current_epoch);
        match r {
            ScResult::Success(p) => (
                user_fees.insert(
                    (service_index as u64, user_id),
                    UserFees { fees: p, epoch: current_epoch },
                ),
                charge2,
                MyVeryOwnScResult::Success(()),
            ),
            ScResult::Failure(e) => (user_fees, charge2, MyVeryOwnScResult::Failure(e)),
        }
    }
}

/// At most one outstanding charge: once a charge of (service index, user)
/// has succeeded, every further charge attempt of the same triple — at any
/// epoch — fails with a non-fatal error and leaves both the pending-fees
/// record and the fee contract's ledger exactly as the one successful debit
/// left them, until that debit is consumed.
pub proof fn lemma_at_most_one_outstanding_charge(
    cfg: FeeStaticView,
    pairs: Map<u64, PairState>,
    own_address: u64,
    service_index: usize,
    user_id: u64,
    first_epoch: Epoch,
    second_epoch: Epoch,
    user_fees: Map<(u64, u64), UserFees>,
    charge: ChargeState,
)
    requires
        charge_user_spec(
            cfg, pairs, own_address, service_index, user_id, first_epoch, user_fees, charge,
        ).2 is Success,
    ensures
        ({
            let (fees1, charge1, _) = charge_user_spec(
                cfg, pairs, own_address, service_index, user_id, first_epoch,
                user_fees, charge);
            let (fees2, charge2, r2) = charge_user_spec(
                cfg, pairs, own_address, service_index, user_id, second_epoch,
                fees1, charge1);
            &&& r2 == MyVeryOwnScResult::<(), FeeError>::Failure(FeeError::LastFeesNotProcessed)
            &&& fees2 == fees1
            &&& charge2 == charge1
        }),
{
}

/// The batch cursor held in the checkpoint; meaningful only while a charge
/// batch is in flight.
pub open spec fn sub_cursor_of(st: SubBatchState) -> usize {
    match st.ongoing {
        OngoingOperation::SubtractPayment(p) => p.user_index,
        _ => 0,
    }
}

/// One engine step of the charge batch at a cursor within range: resolve
/// the subscriber at the cursor, skip it if its id resolves to no address,
/// otherwise attempt the guarded charge, and advance the cursor either way.
pub open spec fn sub_batch_step(
    cfg: FeeStaticView,
    pairs: Map<u64, PairState>,
    own_address: u64,
    service_index: usize,
    current_epoch: Epoch,
    st: SubBatchState,
) -> SubBatchState {
    let sid = cfg.service_ids[own_address];
    let cursor = sub_cursor_of(st);
    let user_id = subscribers_in(cfg, sid, service_index as u64)[cursor - 1];
    let advanced = OngoingOperation::SubtractPayment(SubtractPaymentOperation {
        service_index,
        user_index: (cursor + 1) as usize,
    });
    if !cfg.user_addresses.contains_key(user_id) {
        SubBatchState { ongoing: advanced, ..st }
    } else {
        let (fees2, charge2, _) = charge_user_spec(
            cfg, pairs, own_address, service_index, user_id, current_epoch,
            st.user_fees, st.charge);
        SubBatchState { user_fees: fees2, charge: charge2, ongoing: advanced, ..st }
    }
}

/// Run the charge batch for up to `fuel` steps: when the cursor has passed
/// the subscriber set, the batch completes, scheduling the next pass and
/// clearing the checkpoint; when the fuel runs out first, the state so far
/// is kept as the checkpoint.
pub open spec fn sub_batch_run(
    cfg: FeeStaticView,
    pairs: Map<u64, PairState>,
    own_address: u64,
    service_index: usize,
    current_epoch: Epoch,
    st: SubBatchState,
    fuel: nat,
) -> (SubBatchState, bool)
    decreases fuel,
{
    let sid = cfg.service_ids[own_address];
    let total = subscribers_in(cfg, sid, service_index as u64).len();
    if sub_cursor_of(st) > total {
        (
            SubBatchState {
                ongoing: OngoingOperation::Idle,
                next_subtract_epoch: st.next_subtract_epoch.insert(
                    service_index as u64, next_pass_epoch(current_epoch)),
                ..st
            },
            true,
        )
    } else if fuel == 0 {
        (st, false)
    } else {
        sub_batch_run(
            cfg, pairs, own_address, service_index, current_epoch,
            sub_batch_step(cfg, pairs, own_address, service_index, current_epoch, st),
            (fuel - 1) as nat,
        )
    }
}

/// Checkpoint resumption equivalence: interrupting the charge batch after
/// `a` steps and resuming with `b` more reaches exactly the state of one
/// uninterrupted run with budget `a + b`, whatever the partition; and once
/// the batch has completed, spending more budget changes nothing.
pub proof fn lemma_sub_batch_resumption(
    cfg: FeeStaticView,
    pairs: Map<u64, PairState>,
    own_address: u64,
    service_index: usize,
    current_epoch: Epoch,
    st: SubBatchState,
    a: nat,
    b: nat,
)
    ensures
        ({
            let (st1, done1) = sub_batch_run(
                cfg, pairs, own_address, service_index, current_epoch, st, a);
            if done1 {
                sub_batch_run(cfg, pairs, own_address, service_index, current_epoch, st, a + b)
                    == (st1, true)
            } else {
                sub_batch_run(cfg, pairs, own_address, service_index, current_epoch, st1, b)
                    == sub_batch_run(
                        cfg, pairs, own_address, service_index, current_epoch, st, a + b)
            }
        }),
    decreases a,
{
    let sid = cfg.service_ids[own_address];
    let total = subscribers_in(cfg, sid, service_index as u64).len();
    if sub_cursor_of(st) > total {
    } else if a == 0 {
    } else {
        let stepped = sub_batch_step(
            cfg, pairs, own_address, service_index, current_epoch, st);
        lemma_sub_batch_resumption(
            cfg, pairs, own_address, service_index, current_epoch, stepped,
            (a - 1) as nat, b);
    }
}

impl SubscriberContractMain {
    pub open spec fn wf(self) -> bool {
        &&& self.user_fees.wf()
        &&& self.next_subtract_epoch.wf()
        &&& self.last_global_action_epoch.wf()
        &&& match self.ongoing {
            OngoingOperation::Idle => true,
            OngoingOperation::SubtractPayment(p) => p.user_index >= 1,
            OngoingOperation::ClaimRewards(c) => c.user_index >= 1,
            OngoingOperation::MexOperations(m) => m.user_index >= 1,
        }
    }

    /// The batch-relevant view of this contract paired with the fee
    /// contract it charges through.
    pub open spec fn batch_state(self, fee: SubscriptionFee) -> SubBatchState {
        SubBatchState {
            user_fees: self.user_fees.as_map(),
            next_subtract_epoch: self.next_subtract_epoch.as_map(),
            ongoing: self.ongoing,
            charge: fee.charge_state(),
        }
    }

    /// The epoch before which no new charge pass for `service_index` may
    /// start; zero when none was ever scheduled.
    pub open spec fn next_subtract_epoch_of(self, service_index: u64) -> u64 {
        if self.next_subtract_epoch.as_map().contains_key(service_index) {
            self.next_subtract_epoch.as_map()[service_index]
        } else {
            0
        }
    }

    /// Deploy a subscriber contract bound to a fee contract.
    pub fn new(own_address: u64, fees_contract_address: u64) -> (r: Self)
        ensures
            r.wf(),
            r.own_address == own_address,
            r.fees_contract_address == fees_contract_address,
            r.user_fees.as_map() == Map::<(u64, u64), UserFees>::empty(),
            r.next_subtract_epoch.as_map() == Map::<u64, u64>::empty(),
            r.subtract_user_index == 0,
            r.user_index == 0,
            r.last_global_action_epoch.as_map() == Map::<u64, u64>::empty(),
            r.ongoing == OngoingOperation::Idle,
    {
        SubscriberContractMain {
            own_address,
            fees_contract_address,
            user_fees: Store2::new(),
            next_subtract_epoch: Store::new(),
            subtract_user_index: 0,
            user_index: 0,
            last_global_action_epoch: Store::new(),
            ongoing: OngoingOperation::Idle,
        }
    }

    /// Attempt the guarded charge of one user, exactly as
    /// `charge_user_spec` says: a still-unconsumed earlier charge makes the
    /// attempt fail with nothing changed; otherwise the fee contract
    /// decides, and a successful debit is recorded as pending fees.
    pub fn subtract_user_payment(
        &mut self,
        fee: &mut SubscriptionFee,
        pairs: &PairDirectory,
        service_index: usize,
        user_id: u64,
        current_epoch: Epoch,
    ) -> (r: MyVeryOwnScResult<(), FeeError>)
        requires
            old(self).wf(),
            old(fee).wf(),
            pairs.wf(),
        ensures
            final(self).wf(),
            final(fee).wf(),
            final(fee).static_view() == old(fee).static_view(),
            ({
                let (fees2, charge2, res) = charge_user_spec(
                    old(fee).static_view(),
                    pairs.as_map(),
                    old(self).own_address,
                    service_index,
                    user_id,
                    current_epoch,
                    old(self).user_fees.as_map(),
                    old(fee).charge_state(),
                );
                &&& final(self).user_fees.as_map() == fees2
                &&& final(fee).charge_state() == charge2
                &&& r == res
            }),
            *final(self) == (SubscriberContractMain {
                user_fees: final(self).user_fees,
                ..*old(self)
            }),
            *final(fee) == (SubscriptionFee {
                user_deposited_fees: final(fee).user_deposited_fees,
                user_last_action_epoch: final(fee).user_last_action_epoch,
                ..*old(fee)
            }),
    {
        if self.user_fees.contains_key(service_index as u64, user_id) {
            return MyVeryOwnScResult::Failure(FeeError::LastFeesNotProcessed);
        }
        let caller = self.own_address;
        match fee.subtract_payment(pairs, caller, service_index, user_id, current_epoch) {
            ScResult::Success(p) => {
                self.user_fees.set(
                    service_index as u64,
                    user_id,
                    UserFees { fees: p, epoch: current_epoch },
                );
                MyVeryOwnScResult::Success(())
            }
            ScResult::Failure(e) => MyVeryOwnScResult::Failure(e),
        }
    }

    /// Run the charge batch for `service_index` under a compute budget of
    /// `max_operations` engine steps, exactly as `sub_batch_run` says: the
    /// batch walks the subscriber set from its checkpoint, charges each
    /// resolvable user through `charge_user_spec`, and either completes —
    /// scheduling the next pass and clearing the checkpoint — or runs out
    /// of budget and keeps the checkpoint for a later call to resume. A
    /// call naming a different target than the in-flight checkpoint fails
    /// with `ConflictingOperation` and changes nothing. Resumption is
    /// guarded by the pinned service index alone: any caller may resume an
    /// in-flight batch, and none may start a different one.
    pub fn subtract_payment_endpoint(
        &mut self,
        fee: &mut SubscriptionFee,
        pairs: &PairDirectory,
        service_index: usize,
        current_epoch: Epoch,
        max_operations: u64,
    ) -> (r: ScResult<OperationCompletionStatus, FeeError>)
        requires
            old(self).wf(),
            old(fee).wf(),
            pairs.wf(),
            old(fee).service_id.ids().contains_key(old(self).own_address)
                ==> old(fee).subscribers_of(
                    old(fee).service_id.ids()[old(self).own_address],
                    service_index as u64,
                ).len() < usize::MAX,
        ensures
            final(self).wf(),
            final(fee).wf(),
            match r {
                ScResult::Failure(e) => {
                    &&& *final(self) == *old(self)
                    &&& *final(fee) == *old(fee)
                    &&& ({
                        ||| e == FeeError::CallerNotRegisteredService
                            && !old(fee).service_id.ids().contains_key(old(self).own_address)
                        ||| e == FeeError::CannotSubtractYet
                            && current_epoch < old(self).next_subtract_epoch_of(
                                service_index as u64)
                        ||| e == FeeError::ConflictingOperation
                            && (match old(self).ongoing {
                                OngoingOperation::Idle => false,
                                OngoingOperation::SubtractPayment(p) =>
                                    p.service_index != service_index,
                                _ => true,
                            })
                    })
                },
                ScResult::Success(status) => {
                    &&& old(fee).service_id.ids().contains_key(old(self).own_address)
                    &&& current_epoch >= old(self).next_subtract_epoch_of(service_index as u64)
                    &&& (match old(self).ongoing {
                        OngoingOperation::Idle => true,
                        OngoingOperation::SubtractPayment(p) =>
                            p.service_index == service_index,
                        _ => false,
                    })
                    &&& ({
                        let cfg = old(fee).static_view();
                        let sid = cfg.service_ids[old(self).own_address];
                        let total = subscribers_in(cfg, sid, service_index as u64).len();
                        let start_cursor = (match old(self).ongoing {
                            OngoingOperation::SubtractPayment(p) => p.user_index,
                            _ => if old(self).subtract_user_index != 0
                                && old(self).subtract_user_index < total {
                                old(self).subtract_user_index
                            } else {
                                1
                            },
                        });
                        let st0 = SubBatchState {
                            user_fees: old(self).user_fees.as_map(),
                            next_subtract_epoch: old(self).next_subtract_epoch.as_map(),
                            ongoing: OngoingOperation::SubtractPayment(SubtractPaymentOperation {
                                service_index,
                                user_index: start_cursor,
                            }),
                            charge: old(fee).charge_state(),
                        };
                        let (st1, done) = sub_batch_run(
                            cfg, pairs.as_map(), old(self).own_address, service_index,
                            current_epoch, st0, max_operations as nat);
                        &&& status == (if done {
                            OperationCompletionStatus::Completed
                        } else {
                            OperationCompletionStatus::InterruptedBeforeOutOfGas
                        })
                        &&& final(self).user_fees.as_map() == st1.user_fees
                        &&& final(self).next_subtract_epoch.as_map() == st1.next_subtract_epoch
                        &&& final(self).ongoing == st1.ongoing
                        &&& final(fee).charge_state() == st1.charge
                        &&& final(fee).static_view() == cfg
                        &&& final(self).subtract_user_index == (if done {
                            if start_cursor > total { start_cursor } else { (total + 1) as usize }
                        } else {
                            sub_cursor_of(st1)
                        })
                        &&& *final(self) == (SubscriberContractMain {
                            user_fees: final(self).user_fees,
                            next_subtract_epoch: final(self).next_subtract_epoch,
                            subtract_user_index: final(self).subtract_user_index,
                            ongoing: final(self).ongoing,
                            ..*old(self)
                        })
                        &&& *final(fee) == (SubscriptionFee {
                            user_deposited_fees: final(fee).user_deposited_fees,
                            user_last_action_epoch: final(fee).user_last_action_epoch,
                            ..*old(fee)
                        })
                    })
                },
            },
    {
        let sid = match fee.service_id.get_id_non_zero(self.own_address) {
            Some(id) => id,
            None => {
                return ScResult::Failure(FeeError::CallerNotRegisteredService);
            }
        };
        let next_sub_epoch = match self.next_subtract_epoch.get(service_index as u64) {
            Some(e) => *e,
            None => 0,
        };
        if current_epoch < next_sub_epoch {
            return ScResult::Failure(FeeError::CannotSubtractYet);
        }
        let computed_start = self.get_subtract_user_index(fee, sid, service_index);
        let start_cursor = match self.ongoing {
            OngoingOperation::Idle => computed_start,
            OngoingOperation::SubtractPayment(p) => {
                if p.service_index == service_index {
                    p.user_index
                } else {
                    return ScResult::Failure(FeeError::ConflictingOperation);
                }
            }
            _ => {
                return ScResult::Failure(FeeError::ConflictingOperation);
            }
        };
        let ghost cfg = fee.static_view();
        let ghost st0 = SubBatchState {
            user_fees: self.user_fees.as_map(),
            next_subtract_epoch: self.next_subtract_epoch.as_map(),
            ongoing: OngoingOperation::SubtractPayment(SubtractPaymentOperation {
                service_index,
                user_index: start_cursor,
            }),
            charge: fee.charge_state(),
        };
        let ghost total_spec = subscribers_in(cfg, sid, service_index as u64).len();
        let own_address = self.own_address;
        let mut cursor: usize = start_cursor;
        let mut ops: u64 = 0;
        loop
            invariant
                self.wf(),
                fee.wf(),
                pairs.wf(),
                ops <= max_operations,
                cursor >= 1,
                current_epoch >= old(self).next_subtract_epoch_of(service_index as u64),
                (match old(self).ongoing {
                    OngoingOperation::Idle => start_cursor == (
                        if old(self).subtract_user_index != 0
                            && old(self).subtract_user_index < total_spec {
                            old(self).subtract_user_index
                        } else {
                            1
                        }),
                    OngoingOperation::SubtractPayment(p) =>
                        p.service_index == service_index && start_cursor == p.user_index,
                    _ => false,
                }),
                st0 == (SubBatchState {
                    user_fees: old(self).user_fees.as_map(),
                    next_subtract_epoch: old(self).next_subtract_epoch.as_map(),
                    ongoing: OngoingOperation::SubtractPayment(SubtractPaymentOperation {
                        service_index,
                        user_index: start_cursor,
                    }),
                    charge: old(fee).charge_state(),
                }),
                total_spec < usize::MAX,
                total_spec == subscribers_in(cfg, sid, service_index as u64).len(),
                cfg.service_ids.contains_key(own_address),
                sid == cfg.service_ids[own_address],
                own_address == old(self).own_address,
                fee.static_view() == cfg,
                cfg == old(fee).static_view(),
                start_cursor > total_spec ==> cursor == start_cursor,
                start_cursor <= total_spec ==> cursor <= total_spec + 1,
                sub_batch_run(
                    cfg, pairs.as_map(), own_address, service_index, current_epoch,
                    st0, max_operations as nat)
                    == sub_batch_run(
                        cfg, pairs.as_map(), own_address, service_index, current_epoch,
                        SubBatchState {
                            user_fees: self.user_fees.as_map(),
                            next_subtract_epoch: self.next_subtract_epoch.as_map(),
                            ongoing: OngoingOperation::SubtractPayment(
                                SubtractPaymentOperation { service_index, user_index: cursor }),
                            charge: fee.charge_state(),
                        },
                        (max_operations - ops) as nat),
                *self == (SubscriberContractMain {
                    user_fees: self.user_fees,
                    ..*old(self)
                }),
                *fee == (SubscriptionFee {
                    user_deposited_fees: fee.user_deposited_fees,
                    user_last_action_epoch: fee.user_last_action_epoch,
                    ..*old(fee)
                }),
            decreases max_operations - ops,
        {
            let ghost cur = SubBatchState {
                user_fees: self.user_fees.as_map(),
                next_subtract_epoch: self.next_subtract_epoch.as_map(),
                ongoing: OngoingOperation::SubtractPayment(
                    SubtractPaymentOperation { service_index, user_index: cursor }),
                charge: fee.charge_state(),
            };
            let total_users = match fee.subscribed_users.get(sid, service_index as u64) {
                Some(subs) => subs.len(),
                None => 0,
            };
            proof {
                assert(total_users == total_spec);
            }
            if cursor > total_users {
                let next_pass = if current_epoch > u64::MAX - MONTHLY_EPOCHS {
                    u64::MAX
                } else {
                    current_epoch + MONTHLY_EPOCHS
                };
                self.next_subtract_epoch.set(service_index as u64, next_pass);
                self.ongoing = OngoingOperation::Idle;
                self.subtract_user_index = cursor;
                proof {
                    assert(next_pass == next_pass_epoch(current_epoch));
                    assert(sub_batch_run(
                        cfg, pairs.as_map(), own_address, service_index, current_epoch,
                        cur, (max_operations - ops) as nat)
                        == (SubBatchState {
                            ongoing: OngoingOperation::Idle,
                            next_subtract_epoch: cur.next_subtract_epoch.insert(
                                service_index as u64, next_pass_epoch(current_epoch)),
                            ..cur
                        }, true));
                }
                return ScResult::Success(OperationCompletionStatus::Completed);
            }
            if ops >= max_operations {
                self.ongoing = OngoingOperation::SubtractPayment(
                    SubtractPaymentOperation { service_index, user_index: cursor });
                self.subtract_user_index = cursor;
                proof {
                    assert((max_operations - ops) as nat == 0);
                    assert(sub_batch_run(
                        cfg, pairs.as_map(), own_address, service_index, current_epoch,
                        cur, 0) == (cur, false));
                }
                return ScResult::Success(
                    OperationCompletionStatus::InterruptedBeforeOutOfGas);
            }
            let user_id = match fee.subscribed_users.get(sid, service_index as u64) {
                Some(subs) => subs.get_one_based(cursor),
                None => {
                    proof {
                        assert(false);
                    }
                    0
                }
            };
            proof {
                assert(user_id == subscribers_in(cfg, sid, service_index as u64)[cursor - 1]);
            }
            let resolvable = fee.user_id.get_address(user_id).is_some();
            if resolvable {
                let _ = self.subtract_user_payment(
                    fee, pairs, service_index, user_id, current_epoch);
            }
            proof {
                let stepped = sub_batch_step(
                    cfg, pairs.as_map(), own_address, service_index, current_epoch, cur);
                assert(stepped == SubBatchState {
                    user_fees: self.user_fees.as_map(),
                    next_subtract_epoch: self.next_subtract_epoch.as_map(),
                    ongoing: OngoingOperation::SubtractPayment(
                        SubtractPaymentOperation {
                            service_index,
                            user_index: (cursor + 1) as usize,
                        }),
                    charge: fee.charge_state(),
                });
                assert(sub_batch_run(
                    cfg, pairs.as_map(), own_address, service_index, current_epoch,
                    cur, (max_operations - ops) as nat)
                    == sub_batch_run(
                        cfg, pairs.as_map(), own_address, service_index, current_epoch,
                        stepped, (max_operations - ops - 1) as nat));
            }
            cursor += 1;
            ops += 1;
        }
    }

    /// Where a fresh charge batch starts: at the checkpointed position when
    /// one is stored and still within the subscriber set, else at the
    /// beginning.
    pub fn get_subtract_user_index(&self, fee: &SubscriptionFee, service_id: u64, service_index: usize)
        -> (r: usize)
        requires
            fee.wf(),
        ensures
            r == (if self.subtract_user_index != 0
                && self.subtract_user_index
                    < fee.subscribers_of(service_id, service_index as u64).len() {
                self.subtract_user_index
            } else {
                1
            }),
            r >= 1,
    {
        let last_user_index = match fee.subscribed_users.get(service_id, service_index as u64) {
            Some(subs) => subs.len(),
            None => 0,
        };
        if self.subtract_user_index != 0 && self.subtract_user_index < last_user_index {
            self.subtract_user_index
        } else {
            1
        }
    }
}

} // verus!
