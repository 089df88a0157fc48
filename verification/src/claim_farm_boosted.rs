//! Claiming boosted farm rewards on subscribers' behalf: for each requested
//! (user, farms) pair, the farms the user has allowed external claims on
//! are claimed — the claim call itself happens outside — and the processed
//! (user, farms) operations are reported, which is also the event payload.
use vstd::prelude::*;

use crate::fee_contract::SubscriptionFee;
use crate::farm_subscriber::{
    FarmSubscriber, PREMIUM_SUBSCRIPTION_INDEX, STANDARD_SUBSCRIPTION_INDEX,
};
use crate::registry::NULL_ID;
use crate::results::{FeeError, ScResult};
use crate::store::Store2;

verus! {

/// One reported claim: a user address and the farms claimed for it.
#[derive(Clone, PartialEq, Eq, Debug)]
pub struct ClaimRewardsOperation {
    user: u64,
    farm_ids: Vec<u64>,
}

impl ClaimRewardsOperation {
    pub closed spec fn user_spec(self) -> u64 {
        self.user
    }

    pub closed spec fn farm_ids_spec(self) -> Seq<u64> {
        self.farm_ids@
    }

    pub fn new(user: u64, farm_ids: Vec<u64>) -> (r: Self)
        ensures
            r.user_spec() == user,
            r.farm_ids_spec() == farm_ids@,
    {
        ClaimRewardsOperation { user, farm_ids }
    }

    pub fn user(&self) -> (r: u64)
        ensures
            r == self.user_spec(),
    {
        self.user
    }

    pub fn farm_ids(&self) -> (r: &Vec<u64>)
        ensures
            r@ == self.farm_ids_spec(),
    {
        &self.farm_ids
    }
}

/// Whether a farm allows this contract to claim for the user.
pub open spec fn allows_claim(allow: Map<(u64, u64), bool>, farm_address: u64, user_address: u64) -> bool {
    allow.contains_key((farm_address, user_address)) && allow[(farm_address, user_address)]
}

/// Which of the requested farms get claimed for a user: those whose id
/// resolves to a farm address that allows the external claim, in request
/// order.
pub open spec fn processed_farms_spec(
    farm_addresses: Map<u64, u64>,
    allow: Map<(u64, u64), bool>,
    user_address: u64,
    farm_ids: Seq<u64>,
) -> Seq<u64>
    decreases farm_ids.len(),
{
    if farm_ids.len() == 0 {
        Seq::empty()
    } else {
        let prefix = processed_farms_spec(
            farm_addresses, allow, user_address, farm_ids.drop_last());
        let f = farm_ids.last();
        if farm_addresses.contains_key(f)
            && allows_claim(allow, farm_addresses[f], user_address) {
            prefix.push(f)
        } else {
            prefix
        }
    }
}

/// The reported operations for a request list: one entry per requested user
/// whose id resolves and for whom at least one farm was claimed.
pub open spec fn claim_operations_spec(
    user_addresses: Map<u64, u64>,
    farm_addresses: Map<u64, u64>,
    allow: Map<(u64, u64), bool>,
    requests: Seq<(u64, Seq<u64>)>,
) -> Seq<(u64, Seq<u64>)>
    decreases requests.len(),
{
    if requests.len() == 0 {
        Seq::empty()
    } else {
        let prefix = claim_operations_spec(
            user_addresses, farm_addresses, allow, requests.drop_last());
        let (user_id, farm_ids) = requests.last();
        if user_addresses.contains_key(user_id) {
            let farms = processed_farms_spec(
                farm_addresses, allow, user_addresses[user_id], farm_ids);
            if farms.len() > 0 {
                prefix.push((user_addresses[user_id], farms))
            } else {
                prefix
            }
        } else {
            prefix
        }
    }
}

/// The mathematical view of a reported operation list.
pub open spec fn operations_view(ops: Seq<ClaimRewardsOperation>) -> Seq<(u64, Seq<u64>)> {
    ops.map_values(|op: ClaimRewardsOperation| (op.user_spec(), op.farm_ids_spec()))
}

/// The mathematical view of a request list.
pub open spec fn requests_view(reqs: Seq<(u64, Vec<u64>)>) -> Seq<(u64, Seq<u64>)> {
    reqs.map_values(|rq: (u64, Vec<u64>)| (rq.0, rq.1@))
}

impl FarmSubscriber {
    /// Register a farm this contract may claim from, issuing it a compact id.
    pub fn add_farm(&mut self, caller: u64, farm_address: u64) -> (r: ScResult<u64, FeeError>)
        requires
            old(self).wf(),
        ensures
            final(self).wf(),
            match r {
                ScResult::Success(id) => {
                    &&& old(self).admins@.contains(caller)
                    &&& !old(self).farm_id.ids().contains_key(farm_address)
                    &&& id != NULL_ID
                    &&& final(self).farm_id.ids()
                        == old(self).farm_id.ids().insert(farm_address, id)
                    &&& final(self).farm_id.addresses()
                        == old(self).farm_id.addresses().insert(id, farm_address)
                    &&& *final(self) == (FarmSubscriber {
                        farm_id: final(self).farm_id,
                        ..*old(self)
                    })
                },
                ScResult::Failure(e) => *final(self) == *old(self) && ({
                    ||| e == FeeError::CallerNotAdmin && !old(self).admins@.contains(caller)
                    ||| e == FeeError::AlreadyRegistered
                        && old(self).farm_id.ids().contains_key(farm_address)
                    ||| e == FeeError::IdSpaceExhausted
                        && old(self).farm_id.next_id_spec() == u64::MAX
                }),
            },
    {
        if !self.admins.contains(caller) {
            return ScResult::Failure(FeeError::CallerNotAdmin);
        }
        if self.farm_id.get_id(farm_address) != NULL_ID {
            return ScResult::Failure(FeeError::AlreadyRegistered);
        }
        match self.farm_id.insert_new(farm_address) {
            Some(id) => ScResult::Success(id),
            None => ScResult::Failure(FeeError::IdSpaceExhausted),
        }
    }

    /// Forget a farm; the freed id is never reissued.
    pub fn remove_farm(&mut self, caller: u64, farm_address: u64) -> (r: ScResult<u64, FeeError>)
        requires
            old(self).wf(),
        ensures
            final(self).wf(),
            match r {
                ScResult::Success(id) => {
                    &&& old(self).admins@.contains(caller)
                    &&& id == (if old(self).farm_id.ids().contains_key(farm_address) {
                        old(self).farm_id.ids()[farm_address]
                    } else {
                        NULL_ID
                    })
                    &&& final(self).farm_id.ids() == old(self).farm_id.ids().remove(farm_address)
                    &&& *final(self) == (FarmSubscriber {
                        farm_id: final(self).farm_id,
                        ..*old(self)
                    })
                },
                ScResult::Failure(e) => *final(self) == *old(self)
                    && e == FeeError::CallerNotAdmin && !old(self).admins@.contains(caller),
            },
    {
        if !self.admins.contains(caller) {
            return ScResult::Failure(FeeError::CallerNotAdmin);
        }
        ScResult::Success(self.farm_id.remove_by_address(farm_address))
    }

    /// Claim boosted rewards for each requested (user, farms) pair: a user
    /// whose id resolves gets a claim on every requested farm that exists
    /// and allows external claims; the reported operations double as the
    /// claim instructions and the emitted event payload. A user with no
    /// claimable farm is left out of the report.
    pub fn perform_claim_rewards_operations_endpoint(
        &self,
        fee: &SubscriptionFee,
        allow_external_claim: &Store2<bool>,
        service_index: usize,
        user_farms_pairs_to_claim: &Vec<(u64, Vec<u64>)>,
    ) -> (r: ScResult<Vec<ClaimRewardsOperation>, FeeError>)
        requires
            self.wf(),
            fee.wf(),
            allow_external_claim.wf(),
        ensures
            match r {
                ScResult::Failure(e) => e == FeeError::InvalidServiceIndex
                    && service_index != STANDARD_SUBSCRIPTION_INDEX
                    && service_index != PREMIUM_SUBSCRIPTION_INDEX,
                ScResult::Success(ops) => {
                    &&& (service_index == STANDARD_SUBSCRIPTION_INDEX
                        || service_index == PREMIUM_SUBSCRIPTION_INDEX)
                    &&& operations_view(ops@) == claim_operations_spec(
                        fee.static_view().user_addresses,
                        self.farm_id.addresses(),
                        allow_external_claim.as_map(),
                        requests_view(user_farms_pairs_to_claim@),
                    )
                },
            },
    {
        if service_index != STANDARD_SUBSCRIPTION_INDEX
            && service_index != PREMIUM_SUBSCRIPTION_INDEX {
            return ScResult::Failure(FeeError::InvalidServiceIndex);
        }
        let ghost addresses = fee.static_view().user_addresses;
        let ghost farm_addresses = self.farm_id.addresses();
        let ghost allow = allow_external_claim.as_map();
        let mut operations: Vec<ClaimRewardsOperation> = Vec::new();
        let mut i: usize = 0;
        while i < user_farms_pairs_to_claim.len()
            invariant
                self.wf(),
                fee.wf(),
                allow_external_claim.wf(),
                i <= user_farms_pairs_to_claim@.len(),
                addresses == fee.static_view().user_addresses,
                farm_addresses == self.farm_id.addresses(),
                allow == allow_external_claim.as_map(),
                operations_view(operations@) == claim_operations_spec(
                    addresses, farm_addresses, allow,
                    requests_view(user_farms_pairs_to_claim@.subrange(0, i as int))),
            decreases user_farms_pairs_to_claim@.len() - i,
        {
            proof {
                assert(requests_view(user_farms_pairs_to_claim@.subrange(0, (i + 1) as int))
                    .drop_last()
                    =~= requests_view(user_farms_pairs_to_claim@.subrange(0, i as int)));
                assert(requests_view(user_farms_pairs_to_claim@.subrange(0, (i + 1) as int))
                    .last()
                    == (user_farms_pairs_to_claim@[i as int].0,
                        user_farms_pairs_to_claim@[i as int].1@));
            }
            let (user_id, farm_ids) = &user_farms_pairs_to_claim[i];
            match fee.user_id.get_address(*user_id) {
                Some(user_address) => {
                    let mut processed_farms: Vec<u64> = Vec::new();
                    let mut j: usize = 0;
                    while j < farm_ids.len()
                        invariant
                            self.wf(),
                            allow_external_claim.wf(),
                            j <= farm_ids@.len(),
                            farm_addresses == self.farm_id.addresses(),
                            allow == allow_external_claim.as_map(),
                            processed_farms@ == processed_farms_spec(
                                farm_addresses, allow, user_address,
                                farm_ids@.subrange(0, j as int)),
                        decreases farm_ids@.len() - j,
                    {
                        proof {
                            assert(farm_ids@.subrange(0, (j + 1) as int).drop_last()
                                =~= farm_ids@.subrange(0, j as int));
                            assert(farm_ids@.subrange(0, (j + 1) as int).last()
                                == farm_ids@[j as int]);
                        }
                        let farm_id_value = farm_ids[j];
                        match self.farm_id.get_address(farm_id_value) {
                            Some(farm_address) => {
                                let allowed = match allow_external_claim.get(
                                    farm_address, user_address) {
                                    Some(b) => *b,
                                    None => false,
                                };
                                if allowed {
                                    processed_farms.push(farm_id_value);
                                }
                            }
                            None => {}
                        }
                        j += 1;
                    }
                    proof {
                        assert(farm_ids@.subrange(0, farm_ids@.len() as int) =~= farm_ids@);
                    }
                    if processed_farms.len() > 0 {
                        let ghost pre_ops = operations@;
                        operations.push(ClaimRewardsOperation::new(user_address, processed_farms));
                        proof {
                            assert(operations_view(operations@)
                                =~= operations_view(pre_ops).push(
                                    (user_address, operations@.last().farm_ids_spec())));
                        }
                    }
                }
                None => {}
            }
            i += 1;
        }
        proof {
            assert(user_farms_pairs_to_claim@.subrange(
                0, user_farms_pairs_to_claim@.len() as int) =~= user_farms_pairs_to_claim@);
        }
        ScResult::Success(operations)
    }
}

} // verus!
