//! The strategy boundary of the action engine: one pluggable per-user
//! action, chosen per deployment, invoked once per authorized subscriber.
//! A strategy is a decision from plain inputs to either the rewards owed to
//! the user or a per-user failure the engine skips over.
use vstd::prelude::*;

use crate::payments::Payment;
use crate::service::ServiceInfo;

verus! {

/// What a strategy may consult about the user it acts for: the user's
/// externally-queried energy amount, against the deployment's threshold.
#[derive(Clone, Copy, PartialEq, Eq, Structural, Debug)]
pub struct ActionContext {
    pub user_energy: u64,
    pub energy_threshold: u64,
}

/// What one per-user action produced: the reward payments it yielded,
/// which the engine accumulates for the batch caller.
#[derive(Clone, Debug)]
pub struct InterpretedResult {
    pub user_rewards: Vec<Payment>,
}

/// A per-deployment action strategy. `action_spec` is the strategy's whole
/// decision; `perform_action` computes it. The engine treats a failure as
/// "skip this user, keep the batch going".
pub trait SubscriberContract {
    type AdditionalDataType;

    /// The strategy's decision on one user.
    spec fn action_spec(
        ctx: ActionContext,
        user_address: u64,
        service_index: usize,
        service_info: ServiceInfo,
        additional_data: Self::AdditionalDataType,
    ) -> Result<Seq<Payment>, ()>;

    /// Perform the strategy's action for one user.
    fn perform_action(
        ctx: &ActionContext,
        user_address: u64,
        service_index: usize,
        service_info: &ServiceInfo,
        additional_data: &Self::AdditionalDataType,
    ) -> (r: Result<InterpretedResult, ()>)
        ensures
            match r {
                Ok(res) => Self::action_spec(
                    *ctx, user_address, service_index, *service_info, *additional_data)
                    == Ok::<Seq<Payment>, ()>(res.user_rewards@),
                Err(()) => Self::action_spec(
                    *ctx, user_address, service_index, *service_info, *additional_data)
                    == Err::<Seq<Payment>, ()>(()),
            },
    ;
}

/// Per-user data for the do-nothing strategy.
#[derive(Clone, Copy, PartialEq, Eq, Structural, Debug)]
pub struct DummyData {
    pub dummy_data: u8,
}

/// A strategy that succeeds for every user and rewards nothing; it
/// exercises the engine alone.
pub struct DummyWrapper {}

impl SubscriberContract for DummyWrapper {
    type AdditionalDataType = DummyData;

    open spec fn action_spec(
        ctx: ActionContext,
        user_address: u64,
        service_index: usize,
        service_info: ServiceInfo,
        additional_data: DummyData,
    ) -> Result<Seq<Payment>, ()> {
        Ok(Seq::empty())
    }

    fn perform_action(
        ctx: &ActionContext,
        user_address: u64,
        service_index: usize,
        service_info: &ServiceInfo,
        additional_data: &DummyData,
    ) -> (r: Result<InterpretedResult, ()>) {
        let result = InterpretedResult { user_rewards: Vec::new() };
        proof {
            assert(result.user_rewards@ =~= Seq::<Payment>::empty());
        }
        Ok(result)
    }
}

} // verus!
