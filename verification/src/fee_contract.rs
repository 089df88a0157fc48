//! The central subscription-fee contract: custodies user deposits, keeps the
//! service registry and subscription records, and authorizes periodic fee
//! withdrawals for registered services.
use vstd::prelude::*;

use crate::payments::UniquePayments;
use crate::registry::IdRegistry;
use crate::results::FeeError;
use crate::service::ServiceInfo;
use crate::store::{OrderedSet, Store, Store2, Store3};

verus! {

/// The whole persisted state of the fee contract.
pub struct SubscriptionFee {
    /// Token every "worth of stable" conversion is denominated in.
    pub stable_token_id: u64,
    /// Reference token the two-hop price route goes through.
    pub wegld_token_id: u64,
    /// A deposit's stable value must exceed this.
    pub min_user_deposit_value: u64,
    pub max_user_deposits: usize,
    pub max_pending_services: usize,
    pub max_service_info_no: usize,
    /// Tokens users may deposit as fees.
    pub accepted_fees_tokens: OrderedSet,
    /// Tokens users may deposit for service endpoints to spend.
    pub accepted_user_tokens: OrderedSet,
    pub user_id: IdRegistry,
    pub service_id: IdRegistry,
    /// user id -> deposited fee balances
    pub user_deposited_fees: Store<UniquePayments>,
    /// user id -> deposited action tokens
    pub user_deposited_tokens: Store<UniquePayments>,
    /// (user id, service id, service index) -> epoch of the last successful charge
    pub user_last_action_epoch: Store3<u64>,
    /// addresses awaiting approval
    pub pending_services: OrderedSet,
    /// service address -> descriptors queued for approval
    pub pending_service_info: Store<Vec<ServiceInfo>>,
    /// service id -> live descriptors
    pub service_info: Store<Vec<ServiceInfo>>,
    /// (service id, service index) -> subscribed user ids, in insertion order
    pub subscribed_users: Store2<OrderedSet>,
    /// payment token -> exchange pair address used to price it
    pub pair_address_for_token: Store<u64>,
}

impl SubscriptionFee {
    pub open spec fn wf(self) -> bool {
        &&& self.accepted_fees_tokens.wf()
        &&& self.accepted_user_tokens.wf()
        &&& self.user_id.wf()
        &&& self.service_id.wf()
        &&& self.user_deposited_fees.wf()
        &&& self.user_deposited_tokens.wf()
        &&& self.user_last_action_epoch.wf()
        &&& self.pending_services.wf()
        &&& self.pending_service_info.wf()
        &&& self.service_info.wf()
        &&& self.subscribed_users.wf()
        &&& self.pair_address_for_token.wf()
        &&& forall|u: u64|
            self.user_deposited_fees.as_map().contains_key(u)
                ==> (#[trigger] self.user_deposited_fees.as_map()[u]).wf()
        &&& forall|u: u64|
            self.user_deposited_tokens.as_map().contains_key(u)
                ==> (#[trigger] self.user_deposited_tokens.as_map()[u]).wf()
        &&& forall|k: (u64, u64)|
            self.subscribed_users.as_map().contains_key(k)
                ==> (#[trigger] self.subscribed_users.as_map()[k]).wf()
        &&& forall|u: u64|
            #[trigger] self.user_deposited_fees.as_map().contains_key(u)
                ==> self.user_id.addresses().contains_key(u)
        &&& forall|u: u64|
            #[trigger] self.user_deposited_tokens.as_map().contains_key(u)
                ==> self.user_id.addresses().contains_key(u)
    }

    /// The live descriptor list of a service id; empty when none is stored.
    pub open spec fn descriptors_of(self, service_id: u64) -> Seq<ServiceInfo> {
        if self.service_info.as_map().contains_key(service_id) {
            self.service_info.as_map()[service_id]@
        } else {
            Seq::empty()
        }
    }

    /// The subscriber list of (service id, index); empty when none is stored.
    pub open spec fn subscribers_of(self, service_id: u64, service_index: u64) -> Seq<u64> {
        if self.subscribed_users.as_map().contains_key((service_id, service_index)) {
            self.subscribed_users.as_map()[(service_id, service_index)]@
        } else {
            Seq::empty()
        }
    }

    /// A user's deposited fee balances; empty when none are stored.
    pub open spec fn deposits_of(self, user_id: u64) -> Seq<crate::payments::Payment> {
        if self.user_deposited_fees.as_map().contains_key(user_id) {
            self.user_deposited_fees.as_map()[user_id]@
        } else {
            Seq::empty()
        }
    }

    /// The epoch of the last successful charge for a (user, service, index)
    /// triple; zero when the triple was never charged.
    pub open spec fn last_action_epoch_of(self, user_id: u64, service_id: u64, service_index: u64) -> u64 {
        if self.user_last_action_epoch.as_map().contains_key((user_id, service_id, service_index)) {
            self.user_last_action_epoch.as_map()[(user_id, service_id, service_index)]
        } else {
            0
        }
    }

    /// Deploy the contract. Configuration limits must be positive and the
    /// stable and reference tokens distinct; every listed token is accepted
    /// for fee deposits.
    pub fn new(
        stable_token_id: u64,
        wegld_token_id: u64,
        min_user_deposit_value: u64,
        max_user_deposits: usize,
        max_pending_services: usize,
        max_service_info_no: usize,
        accepted_tokens: Vec<u64>,
    ) -> (r: Result<SubscriptionFee, FeeError>)
        ensures
            match r {
                Ok(c) => {
                    &&& c.wf()
                    &&& min_user_deposit_value > 0
                    &&& max_user_deposits > 0
                    &&& max_pending_services > 0
                    &&& max_service_info_no > 0
                    &&& stable_token_id != wegld_token_id
                    &&& c.stable_token_id == stable_token_id
                    &&& c.wegld_token_id == wegld_token_id
                    &&& c.min_user_deposit_value == min_user_deposit_value
                    &&& c.max_user_deposits == max_user_deposits
                    &&& c.max_pending_services == max_pending_services
                    &&& c.max_service_info_no == max_service_info_no
                    &&& forall|t: u64|
                        c.accepted_fees_tokens@.contains(t) == accepted_tokens@.contains(t)
                    &&& c.user_id.ids() == Map::<u64, u64>::empty()
                    &&& c.service_id.ids() == Map::<u64, u64>::empty()
                    &&& c.user_deposited_fees.as_map() == Map::<u64, UniquePayments>::empty()
                    &&& c.user_deposited_tokens.as_map() == Map::<u64, UniquePayments>::empty()
                    &&& c.user_last_action_epoch.as_map() == Map::<(u64, u64, u64), u64>::empty()
                    &&& c.pending_services@ == Seq::<u64>::empty()
                    &&& c.pending_service_info.as_map() == Map::<u64, Vec<ServiceInfo>>::empty()
                    &&& c.service_info.as_map() == Map::<u64, Vec<ServiceInfo>>::empty()
                    &&& c.subscribed_users.as_map() == Map::<(u64, u64), OrderedSet>::empty()
                    &&& c.pair_address_for_token.as_map() == Map::<u64, u64>::empty()
                    &&& c.accepted_user_tokens@ == Seq::<u64>::empty()
                },
                Err(e) => e == FeeError::InvalidConfigValue
                    && (min_user_deposit_value == 0 || max_user_deposits == 0
                        || max_pending_services == 0 || max_service_info_no == 0
                        || stable_token_id == wegld_token_id),
            },
    {
        if min_user_deposit_value == 0 || max_user_deposits == 0 || max_pending_services == 0
            || max_service_info_no == 0 || stable_token_id == wegld_token_id {
            return Err(FeeError::InvalidConfigValue);
        }
        let mut accepted_fees_tokens = OrderedSet::new();
        accepted_fees_tokens.insert_all(&accepted_tokens);
        Ok(SubscriptionFee {
            stable_token_id,
            wegld_token_id,
            min_user_deposit_value,
            max_user_deposits,
            max_pending_services,
            max_service_info_no,
            accepted_fees_tokens,
            accepted_user_tokens: OrderedSet::new(),
            user_id: IdRegistry::new(),
            service_id: IdRegistry::new(),
            user_deposited_fees: Store::new(),
            user_deposited_tokens: Store::new(),
            user_last_action_epoch: Store3::new(),
            pending_services: OrderedSet::new(),
            pending_service_info: Store::new(),
            service_info: Store::new(),
            subscribed_users: Store2::new(),
            pair_address_for_token: Store::new(),
        })
    }

    /// Raise or lower the cap on live descriptors per service.
    pub fn set_max_service_info_no(&mut self, max_service_info_no: usize) -> (r: Result<(), FeeError>)
        requires
            old(self).wf(),
        ensures
            final(self).wf(),
            match r {
                Ok(()) => max_service_info_no > 0
                    && *final(self) == (SubscriptionFee { max_service_info_no, ..*old(self) }),
                Err(e) => e == FeeError::InvalidConfigValue && max_service_info_no == 0
                    && *final(self) == *old(self),
            },
    {
        if max_service_info_no == 0 {
            return Err(FeeError::InvalidConfigValue);
        }
        self.max_service_info_no = max_service_info_no;
        Ok(())
    }

    /// Raise or lower the cap on services awaiting approval.
    pub fn set_max_pending_services(&mut self, max_pending_services: usize) -> (r: Result<(), FeeError>)
        requires
            old(self).wf(),
        ensures
            final(self).wf(),
            match r {
                Ok(()) => max_pending_services > 0
                    && *final(self) == (SubscriptionFee { max_pending_services, ..*old(self) }),
                Err(e) => e == FeeError::InvalidConfigValue && max_pending_services == 0
                    && *final(self) == *old(self),
            },
    {
        if max_pending_services == 0 {
            return Err(FeeError::InvalidConfigValue);
        }
        self.max_pending_services = max_pending_services;
        Ok(())
    }

    /// Raise or lower the cap on deposit entries per user.
    pub fn set_max_user_deposits(&mut self, max_user_deposits: usize) -> (r: Result<(), FeeError>)
        requires
            old(self).wf(),
        ensures
            final(self).wf(),
            match r {
                Ok(()) => max_user_deposits > 0
                    && *final(self) == (SubscriptionFee { max_user_deposits, ..*old(self) }),
                Err(e) => e == FeeError::InvalidConfigValue && max_user_deposits == 0
                    && *final(self) == *old(self),
            },
    {
        if max_user_deposits == 0 {
            return Err(FeeError::InvalidConfigValue);
        }
        self.max_user_deposits = max_user_deposits;
        Ok(())
    }

    /// Accept more fee-deposit tokens.
    pub fn add_accepted_fees_tokens(&mut self, tokens: &Vec<u64>)
        requires
            old(self).wf(),
        ensures
            final(self).wf(),
            forall|t: u64| final(self).accepted_fees_tokens@.contains(t)
                == (old(self).accepted_fees_tokens@.contains(t) || tokens@.contains(t)),
            *final(self) == (SubscriptionFee {
                accepted_fees_tokens: final(self).accepted_fees_tokens,
                ..*old(self)
            }),
    {
        self.accepted_fees_tokens.insert_all(tokens);
        proof {
            assert(forall|t: u64| self.accepted_fees_tokens@.contains(t)
                == (old(self).accepted_fees_tokens@.contains(t) || tokens@.contains(t)));
        }
    }

    /// Accept more action-token deposits.
    pub fn add_accepted_user_tokens(&mut self, tokens: &Vec<u64>)
        requires
            old(self).wf(),
        ensures
            final(self).wf(),
            forall|t: u64| final(self).accepted_user_tokens@.contains(t)
                == (old(self).accepted_user_tokens@.contains(t) || tokens@.contains(t)),
            *final(self) == (SubscriptionFee {
                accepted_user_tokens: final(self).accepted_user_tokens,
                ..*old(self)
            }),
    {
        self.accepted_user_tokens.insert_all(tokens);
        proof {
            assert(forall|t: u64| self.accepted_user_tokens@.contains(t)
                == (old(self).accepted_user_tokens@.contains(t) || tokens@.contains(t)));
        }
    }

    /// Register the exchange pair that prices a payment token.
    pub fn add_pair_address(&mut self, payment_token_id: u64, pair_address: u64)
        requires
            old(self).wf(),
        ensures
            final(self).wf(),
            final(self).pair_address_for_token.as_map()
                == old(self).pair_address_for_token.as_map().insert(payment_token_id, pair_address),
            *final(self) == (SubscriptionFee {
                pair_address_for_token: final(self).pair_address_for_token,
                ..*old(self)
            }),
    {
        self.pair_address_for_token.set(payment_token_id, pair_address);
    }

    /// Forget the exchange pair registered for a token.
    pub fn remove_pair_address(&mut self, token_id: u64)
        requires
            old(self).wf(),
        ensures
            final(self).wf(),
            final(self).pair_address_for_token.as_map()
                == old(self).pair_address_for_token.as_map().remove(token_id),
            *final(self) == (SubscriptionFee {
                pair_address_for_token: final(self).pair_address_for_token,
                ..*old(self)
            }),
    {
        self.pair_address_for_token.remove(token_id);
    }
}

} // verus!
