//! The service registry: descriptor lifecycle (pending, approved, removed)
//! and per-user subscription records.
use vstd::prelude::*;

use crate::fee_contract::SubscriptionFee;
use crate::registry::NULL_ID;
use crate::results::FeeError;
use crate::store::{seq_swap_remove, OrderedSet};

verus! {

/// One payable service offering: an optional required payment token (`None`
/// means any accepted token), the charge amount, whether that amount is
/// denominated in the stable token, and the charge interval in epochs.
#[derive(Clone, Copy, Debug)]
pub struct ServiceInfo {
    pub opt_payment_token: Option<u64>,
    pub amount: u64,
    pub payment_in_stable: bool,
    pub subscription_epochs: u64,
}

/// Whether the request list names the (service id, index) pair.
pub open spec fn pairs_contain(services: Seq<(u64, usize)>, s: u64, ix: u64) -> bool {
    exists|j: int|
        0 <= j < services.len() && (#[trigger] services[j]).0 == s && services[j].1 as u64 == ix
}

/// Whether every descriptor that names a specific payment token names an
/// accepted one.
pub open spec fn all_tokens_accepted(args: Seq<ServiceInfo>, accepted: Seq<u64>) -> bool {
    forall|i: int|
        0 <= i < args.len() ==> match (#[trigger] args[i]).opt_payment_token {
            Some(t) => accepted.contains(t),
            None => true,
        }
}

/// A fresh copy of a descriptor list.
fn copy_infos(infos: &Vec<ServiceInfo>) -> (r: Vec<ServiceInfo>)
    ensures
        r@ == infos@,
{
    let mut r: Vec<ServiceInfo> = Vec::new();
    let mut i: usize = 0;
    while i < infos.len()
        invariant
            i <= infos@.len(),
            r@ == infos@.subrange(0, i as int),
        decreases infos@.len() - i,
    {
        r.push(infos[i]);
        proof {
            assert(infos@.subrange(0, (i + 1) as int)
                =~= infos@.subrange(0, i as int).push(infos@[i as int]));
        }
        i += 1;
    }
    proof {
        assert(infos@.subrange(0, infos@.len() as int) =~= infos@);
    }
    r
}

impl SubscriptionFee {
    /// Validate a descriptor list against the accepted-token set; on failure
    /// the index of the first offending descriptor is reported.
    fn validate_descriptors(&self, args: &Vec<ServiceInfo>) -> (r: bool)
        requires
            self.wf(),
        ensures
            r == all_tokens_accepted(args@, self.accepted_fees_tokens@),
    {
        let mut i: usize = 0;
        while i < args.len()
            invariant
                self.wf(),
                i <= args@.len(),
                forall|j: int|
                    0 <= j < i ==> match (#[trigger] args@[j]).opt_payment_token {
                        Some(t) => self.accepted_fees_tokens@.contains(t),
                        None => true,
                    },
            decreases args@.len() - i,
        {
            match args[i].opt_payment_token {
                Some(t) => {
                    if !self.accepted_fees_tokens.contains(t) {
                        return false;
                    }
                }
                None => {}
            }
            i += 1;
        }
        true
    }

    /// Queue a service registration: the caller's descriptors join its
    /// pending list and the caller joins the pending set, bounded by the
    /// pending-services cap. Fails on an empty list, an existing
    /// registration, an unaccepted token, or a full queue.
    pub fn register_service(&mut self, caller: u64, args: Vec<ServiceInfo>) -> (r: Result<(), FeeError>)
        requires
            old(self).wf(),
        ensures
            final(self).wf(),
            match r {
                Ok(()) => {
                    &&& args@.len() > 0
                    &&& !old(self).service_id.ids().contains_key(caller)
                    &&& all_tokens_accepted(args@, old(self).accepted_fees_tokens@)
                    &&& final(self).pending_services@ == (
                        if old(self).pending_services@.contains(caller) {
                            old(self).pending_services@
                        } else {
                            old(self).pending_services@.push(caller)
                        })
                    &&& final(self).pending_services@.len() <= old(self).max_pending_services
                    &&& final(self).pending_service_info.as_map()
                        == old(self).pending_service_info.as_map().insert(
                            caller,
                            final(self).pending_service_info.as_map()[caller],
                        )
                    &&& final(self).pending_service_info.as_map()[caller]@
                        == old(self).pending_of(caller) + args@
                    &&& *final(self) == (SubscriptionFee {
                        pending_services: final(self).pending_services,
                        pending_service_info: final(self).pending_service_info,
                        ..*old(self)
                    })
                },
                Err(e) => *final(self) == *old(self) && ({
                    ||| e == FeeError::NoArguments && args@.len() == 0
                    ||| e == FeeError::AlreadyRegistered
                        && old(self).service_id.ids().contains_key(caller)
                    ||| e == FeeError::InvalidToken
                        && !all_tokens_accepted(args@, old(self).accepted_fees_tokens@)
                    ||| e == FeeError::MaxPendingServicesReached
                        && (if old(self).pending_services@.contains(caller) {
                                old(self).pending_services@.len()
                            } else {
                                old(self).pending_services@.len() + 1
                            }) > old(self).max_pending_services
                }),
            },
    {
        if args.len() == 0 {
            return Err(FeeError::NoArguments);
        }
        let existing_service_id = self.service_id.get_id(caller);
        if existing_service_id != NULL_ID {
            return Err(FeeError::AlreadyRegistered);
        }
        if !self.validate_descriptors(&args) {
            return Err(FeeError::InvalidToken);
        }
        let cur_pending = self.pending_services.len();
        let over_cap = if self.pending_services.contains(caller) {
            cur_pending > self.max_pending_services
        } else {
            cur_pending >= self.max_pending_services
        };
        if over_cap {
            return Err(FeeError::MaxPendingServicesReached);
        }
        let mut combined = match self.pending_service_info.get(caller) {
            Some(existing) => copy_infos(existing),
            None => Vec::new(),
        };
        let ghost existing_view = combined@;
        let mut i: usize = 0;
        while i < args.len()
            invariant
                i <= args@.len(),
                combined@ == existing_view + args@.subrange(0, i as int),
            decreases args@.len() - i,
        {
            combined.push(args[i]);
            proof {
                assert(existing_view + args@.subrange(0, (i + 1) as int)
                    =~= (existing_view + args@.subrange(0, i as int)).push(args@[i as int]));
            }
            i += 1;
        }
        proof {
            assert(args@.subrange(0, args@.len() as int) =~= args@);
        }
        self.pending_service_info.set(caller, combined);
        self.pending_services.insert(caller);
        Ok(())
    }

    /// The descriptors a service address has queued; empty when none.
    pub open spec fn pending_of(self, address: u64) -> Seq<ServiceInfo> {
        if self.pending_service_info.as_map().contains_key(address) {
            self.pending_service_info.as_map()[address]@
        } else {
            Seq::empty()
        }
    }

    /// Append descriptors to an already-registered service, bounded by the
    /// per-service descriptor cap.
    pub fn add_extra_services(&mut self, caller: u64, args: Vec<ServiceInfo>) -> (r: Result<(), FeeError>)
        requires
            old(self).wf(),
        ensures
            final(self).wf(),
            match r {
                Ok(()) => {
                    &&& args@.len() > 0
                    &&& old(self).service_id.ids().contains_key(caller)
                    &&& all_tokens_accepted(args@, old(self).accepted_fees_tokens@)
                    &&& {
                        let sid = old(self).service_id.ids()[caller];
                        &&& final(self).descriptors_of(sid) == old(self).descriptors_of(sid) + args@
                        &&& final(self).descriptors_of(sid).len() <= old(self).max_service_info_no
                        &&& final(self).service_info.as_map()
                            == old(self).service_info.as_map().insert(
                                sid,
                                final(self).service_info.as_map()[sid],
                            )
                        &&& *final(self) == (SubscriptionFee {
                            service_info: final(self).service_info,
                            ..*old(self)
                        })
                    }
                },
                Err(e) => *final(self) == *old(self) && ({
                    ||| e == FeeError::NoArguments && args@.len() == 0
                    ||| e == FeeError::NotRegistered
                        && !old(self).service_id.ids().contains_key(caller)
                    ||| e == FeeError::InvalidToken
                        && !all_tokens_accepted(args@, old(self).accepted_fees_tokens@)
                    ||| e == FeeError::MaxServiceInfoReached
                        && old(self).service_id.ids().contains_key(caller)
                        && old(self).descriptors_of(old(self).service_id.ids()[caller]).len()
                            + args@.len() > old(self).max_service_info_no
                }),
            },
    {
        if args.len() == 0 {
            return Err(FeeError::NoArguments);
        }
        let existing_service_id = match self.service_id.get_id_non_zero(caller) {
            Some(id) => id,
            None => {
                return Err(FeeError::NotRegistered);
            }
        };
        if !self.validate_descriptors(&args) {
            return Err(FeeError::InvalidToken);
        }
        let mut combined = match self.service_info.get(existing_service_id) {
            Some(existing) => copy_infos(existing),
            None => Vec::new(),
        };
        if args.len() > self.max_service_info_no
            || combined.len() > self.max_service_info_no - args.len() {
            return Err(FeeError::MaxServiceInfoReached);
        }
        let ghost existing_view = combined@;
        let mut i: usize = 0;
        while i < args.len()
            invariant
                i <= args@.len(),
                combined@ == existing_view + args@.subrange(0, i as int),
            decreases args@.len() - i,
        {
            combined.push(args[i]);
            proof {
                assert(existing_view + args@.subrange(0, (i + 1) as int)
                    =~= (existing_view + args@.subrange(0, i as int)).push(args@[i as int]));
            }
            i += 1;
        }
        proof {
            assert(args@.subrange(0, args@.len() as int) =~= args@);
        }
        self.service_info.set(existing_service_id, combined);
        Ok(())
    }

    /// Drop a service entirely: its id mapping, live descriptors, pending
    /// descriptors and pending-set membership. Callable whatever state the
    /// registration is in.
    pub fn unregister_service(&mut self, caller: u64)
        requires
            old(self).wf(),
        ensures
            final(self).wf(),
            final(self).service_id.ids() == old(self).service_id.ids().remove(caller),
            final(self).service_info.as_map() == (
                if old(self).service_id.ids().contains_key(caller) {
                    old(self).service_info.as_map().remove(old(self).service_id.ids()[caller])
                } else {
                    old(self).service_info.as_map()
                }),
            final(self).pending_services@ == (
                if old(self).pending_services@.contains(caller) {
                    seq_swap_remove(
                        old(self).pending_services@,
                        old(self).pending_services@.index_of(caller),
                    )
                } else {
                    old(self).pending_services@
                }),
            final(self).pending_service_info.as_map()
                == old(self).pending_service_info.as_map().remove(caller),
            *final(self) == (SubscriptionFee {
                service_id: final(self).service_id,
                service_info: final(self).service_info,
                pending_services: final(self).pending_services,
                pending_service_info: final(self).pending_service_info,
                ..*old(self)
            }),
    {
        let service_id = self.service_id.remove_by_address(caller);
        if service_id != NULL_ID {
            self.service_info.remove(service_id);
        }
        let _ = self.pending_services.swap_remove_item(caller);
        self.pending_service_info.remove(caller);
    }

    /// `unregister_service` performed by the owner on a service's behalf.
    pub fn unregister_service_by_owner(&mut self, service_address: u64)
        requires
            old(self).wf(),
        ensures
            final(self).wf(),
            final(self).service_id.ids() == old(self).service_id.ids().remove(service_address),
            final(self).service_info.as_map() == (
                if old(self).service_id.ids().contains_key(service_address) {
                    old(self).service_info.as_map().remove(
                        old(self).service_id.ids()[service_address])
                } else {
                    old(self).service_info.as_map()
                }),
            final(self).pending_services@ == (
                if old(self).pending_services@.contains(service_address) {
                    seq_swap_remove(
                        old(self).pending_services@,
                        old(self).pending_services@.index_of(service_address),
                    )
                } else {
                    old(self).pending_services@
                }),
            final(self).pending_service_info.as_map()
                == old(self).pending_service_info.as_map().remove(service_address),
            *final(self) == (SubscriptionFee {
                service_id: final(self).service_id,
                service_info: final(self).service_info,
                pending_services: final(self).pending_services,
                pending_service_info: final(self).pending_service_info,
                ..*old(self)
            }),
    {
        self.unregister_service(service_address);
    }

    /// Approve a pending service: issue it a compact id and move its queued
    /// descriptors into the live array, bounded by the descriptor cap.
    pub fn approve_service(&mut self, service_address: u64) -> (r: Result<u64, FeeError>)
        requires
            old(self).wf(),
        ensures
            final(self).wf(),
            match r {
                Ok(sid) => {
                    &&& old(self).pending_services@.contains(service_address)
                    &&& !old(self).service_id.ids().contains_key(service_address)
                    &&& sid != NULL_ID
                    &&& final(self).service_id.ids()
                        == old(self).service_id.ids().insert(service_address, sid)
                    &&& final(self).descriptors_of(sid) == old(self).pending_of(service_address)
                    &&& final(self).descriptors_of(sid).len() <= old(self).max_service_info_no
                    &&& final(self).service_info.as_map()
                        == old(self).service_info.as_map().insert(
                            sid, final(self).service_info.as_map()[sid])
                    &&& final(self).pending_service_info.as_map()
                        == old(self).pending_service_info.as_map().remove(service_address)
                    &&& final(self).pending_services@ == seq_swap_remove(
                        old(self).pending_services@,
                        old(self).pending_services@.index_of(service_address),
                    )
                    &&& *final(self) == (SubscriptionFee {
                        service_id: final(self).service_id,
                        service_info: final(self).service_info,
                        pending_services: final(self).pending_services,
                        pending_service_info: final(self).pending_service_info,
                        ..*old(self)
                    })
                },
                Err(e) => *final(self) == *old(self) && ({
                    ||| e == FeeError::UnknownService
                        && !old(self).pending_services@.contains(service_address)
                    ||| e == FeeError::AlreadyRegistered
                        && old(self).service_id.ids().contains_key(service_address)
                    ||| e == FeeError::IdSpaceExhausted
                        && old(self).service_id.next_id_spec() == u64::MAX
                    ||| e == FeeError::MaxServiceInfoReached
                        && old(self).pending_of(service_address).len()
                            > old(self).max_service_info_no
                }),
            },
    {
        if !self.pending_services.contains(service_address) {
            return Err(FeeError::UnknownService);
        }
        let pending_len = match self.pending_service_info.get(service_address) {
            Some(infos) => infos.len(),
            None => 0,
        };
        if pending_len > self.max_service_info_no {
            return Err(FeeError::MaxServiceInfoReached);
        }
        if self.service_id.get_id(service_address) != NULL_ID {
            return Err(FeeError::AlreadyRegistered);
        }
        let service_id = match self.service_id.insert_new(service_address) {
            Some(id) => id,
            None => {
                return Err(FeeError::IdSpaceExhausted);
            }
        };
        let infos = match self.pending_service_info.get(service_address) {
            Some(infos) => copy_infos(infos),
            None => Vec::new(),
        };
        self.service_info.set(service_id, infos);
        self.pending_service_info.remove(service_address);
        let _ = self.pending_services.swap_remove_item(service_address);
        Ok(service_id)
    }

    /// Record the caller's subscriptions to the given (service id, index)
    /// pairs, all or none: the caller must hold a compact id and every index
    /// must point at a live descriptor.
    pub fn subscribe(&mut self, caller: u64, services: Vec<(u64, usize)>) -> (r: Result<(), FeeError>)
        requires
            old(self).wf(),
        ensures
            final(self).wf(),
            match r {
                Ok(()) => {
                    &&& old(self).user_id.ids().contains_key(caller)
                    &&& forall|i: int| 0 <= i < services@.len()
                        ==> (#[trigger] services@[i]).1
                            < old(self).descriptors_of(services@[i].0).len()
                    &&& {
                        let uid = old(self).user_id.ids()[caller];
                        &&& forall|s: u64, ix: u64|
                            #[trigger] final(self).subscribers_of(s, ix) == (
                                if pairs_contain(services@, s, ix)
                                    && !old(self).subscribers_of(s, ix).contains(uid) {
                                    old(self).subscribers_of(s, ix).push(uid)
                                } else {
                                    old(self).subscribers_of(s, ix)
                                })
                        &&& *final(self) == (SubscriptionFee {
                            subscribed_users: final(self).subscribed_users,
                            ..*old(self)
                        })
                    }
                },
                Err(e) => *final(self) == *old(self) && ({
                    ||| e == FeeError::UnknownAddress
                        && !old(self).user_id.ids().contains_key(caller)
                    ||| e == FeeError::InvalidServiceIndex
                        && exists|i: int| 0 <= i < services@.len()
                            && (#[trigger] services@[i]).1
                                >= old(self).descriptors_of(services@[i].0).len()
                }),
            },
    {
        let caller_id = match self.user_id.get_id_non_zero(caller) {
            Some(id) => id,
            None => {
                return Err(FeeError::UnknownAddress);
            }
        };
        let mut i: usize = 0;
        while i < services.len()
            invariant
                self.wf(),
                *self == *old(self),
                i <= services@.len(),
                forall|j: int| 0 <= j < i
                    ==> (#[trigger] services@[j]).1 < self.descriptors_of(services@[j].0).len(),
            decreases services@.len() - i,
        {
            let (service_id, service_index) = services[i];
            let options_len = match self.service_info.get(service_id) {
                Some(infos) => infos.len(),
                None => 0,
            };
            if service_index >= options_len {
                return Err(FeeError::InvalidServiceIndex);
            }
            i += 1;
        }
        let ghost mid = *self;
        let mut i: usize = 0;
        while i < services.len()
            invariant
                self.wf(),
                i <= services@.len(),
                mid == *old(self),
                forall|s: u64, ix: u64|
                    #[trigger] self.subscribers_of(s, ix) == (
                        if pairs_contain(services@.subrange(0, i as int), s, ix)
                            && !mid.subscribers_of(s, ix).contains(caller_id) {
                            mid.subscribers_of(s, ix).push(caller_id)
                        } else {
                            mid.subscribers_of(s, ix)
                        }),
                *self == (SubscriptionFee { subscribed_users: self.subscribed_users, ..mid }),
            decreases services@.len() - i,
        {
            let (service_id, service_index) = services[i];
            let ghost cur = *self;
            let ghost key: (u64, u64) = (service_id, service_index as u64);
            let mut subs = match self.subscribed_users.get(service_id, service_index as u64) {
                Some(s) => s.clone_set(),
                None => OrderedSet::new(),
            };
            proof {
                assert(subs@ == cur.subscribers_of(key.0, key.1));
            }
            subs.insert(caller_id);
            self.subscribed_users.set(service_id, service_index as u64, subs);
            proof {
                assert forall|k: (u64, u64)| self.subscribed_users.as_map().contains_key(k)
                    implies (#[trigger] self.subscribed_users.as_map()[k]).wf() by {
                    if k != key {
                        assert(cur.subscribed_users.as_map().contains_key(k));
                        assert(cur.subscribed_users.as_map()[k].wf());
                    }
                }
                let subi = services@.subrange(0, i as int);
                let sub_next = services@.subrange(0, (i + 1) as int);
                assert(sub_next.drop_last() =~= subi);
                assert(sub_next[i as int] == services@[i as int]);
                assert(pairs_contain(sub_next, key.0, key.1));
                let midval = mid.subscribers_of(key.0, key.1);
                let cur_val = cur.subscribers_of(key.0, key.1);
                assert(self.subscribers_of(key.0, key.1) == subs@);
                if !midval.contains(caller_id) {
                    assert(midval.push(caller_id)[midval.len() as int] == caller_id);
                    assert(midval.push(caller_id).contains(caller_id));
                }
                assert forall|s2: u64, ix: u64|
                    #[trigger] self.subscribers_of(s2, ix) == (
                        if pairs_contain(sub_next, s2, ix)
                            && !mid.subscribers_of(s2, ix).contains(caller_id) {
                            mid.subscribers_of(s2, ix).push(caller_id)
                        } else {
                            mid.subscribers_of(s2, ix)
                        }) by {
                    if (s2, ix) == key {
                        assert(self.subscribers_of(s2, ix) == subs@);
                    } else {
                        assert(self.subscribers_of(s2, ix) == cur.subscribers_of(s2, ix));
                        assert(pairs_contain(sub_next, s2, ix) == pairs_contain(subi, s2, ix)) by {
                            if pairs_contain(subi, s2, ix) {
                                let w = choose|w: int| 0 <= w < subi.len()
                                    && (#[trigger] subi[w]).0 == s2 && subi[w].1 as u64 == ix;
                                assert(sub_next[w].0 == s2 && sub_next[w].1 as u64 == ix);
                            }
                            if pairs_contain(sub_next, s2, ix) {
                                let w = choose|w: int| 0 <= w < sub_next.len()
                                    && (#[trigger] sub_next[w]).0 == s2
                                    && sub_next[w].1 as u64 == ix;
                                if w == i {
                                    assert((s2, ix) == key);
                                } else {
                                    assert(subi[w].0 == s2 && subi[w].1 as u64 == ix);
                                }
                            }
                        }
                    }
                }
            }
            i += 1;
        }
        proof {
            assert(services@.subrange(0, services@.len() as int) =~= services@);
        }
        Ok(())
    }

    /// Remove the caller's subscriptions to the given pairs, all or none,
    /// clearing the cooldown markers alongside.
    pub fn unsubscribe(&mut self, caller: u64, services: Vec<(u64, usize)>) -> (r: Result<(), FeeError>)
        requires
            old(self).wf(),
        ensures
            final(self).wf(),
            match r {
                Ok(()) => {
                    &&& old(self).user_id.ids().contains_key(caller)
                    &&& forall|i: int| 0 <= i < services@.len()
                        ==> (#[trigger] services@[i]).1
                            < old(self).descriptors_of(services@[i].0).len()
                    &&& {
                        let uid = old(self).user_id.ids()[caller];
                        &&& forall|s: u64, ix: u64|
                            pairs_contain(services@, s, ix)
                                ==> !(#[trigger] final(self).subscribers_of(s, ix)).contains(uid)
                        &&& forall|s: u64, ix: u64, u: u64|
                            u != uid ==> (#[trigger] final(self).subscribers_of(s, ix).contains(u)
                                == old(self).subscribers_of(s, ix).contains(u))
                        &&& forall|s: u64, ix: u64|
                            !pairs_contain(services@, s, ix)
                                ==> #[trigger] final(self).subscribers_of(s, ix)
                                    == old(self).subscribers_of(s, ix)
                        &&& forall|s: u64, ix: u64|
                            pairs_contain(services@, s, ix)
                                ==> #[trigger] final(self).last_action_epoch_of(uid, s, ix) == 0
                        &&& *final(self) == (SubscriptionFee {
                            subscribed_users: final(self).subscribed_users,
                            user_last_action_epoch: final(self).user_last_action_epoch,
                            ..*old(self)
                        })
                    }
                },
                Err(e) => *final(self) == *old(self) && ({
                    ||| e == FeeError::UnknownAddress
                        && !old(self).user_id.ids().contains_key(caller)
                    ||| e == FeeError::InvalidServiceIndex
                        && exists|i: int| 0 <= i < services@.len()
                            && (#[trigger] services@[i]).1
                                >= old(self).descriptors_of(services@[i].0).len()
                }),
            },
    {
        let caller_id = match self.user_id.get_id_non_zero(caller) {
            Some(id) => id,
            None => {
                return Err(FeeError::UnknownAddress);
            }
        };
        let mut i: usize = 0;
        while i < services.len()
            invariant
                self.wf(),
                *self == *old(self),
                i <= services@.len(),
                forall|j: int| 0 <= j < i
                    ==> (#[trigger] services@[j]).1 < self.descriptors_of(services@[j].0).len(),
            decreases services@.len() - i,
        {
            let (service_id, service_index) = services[i];
            let options_len = match self.service_info.get(service_id) {
                Some(infos) => infos.len(),
                None => 0,
            };
            if service_index >= options_len {
                return Err(FeeError::InvalidServiceIndex);
            }
            i += 1;
        }
        let ghost mid = *self;
        let mut i: usize = 0;
        while i < services.len()
            invariant
                self.wf(),
                i <= services@.len(),
                mid == *old(self),
                forall|s: u64, ix: u64|
                    pairs_contain(services@.subrange(0, i as int), s, ix)
                        ==> !(#[trigger] self.subscribers_of(s, ix)).contains(caller_id),
                forall|s: u64, ix: u64, u: u64|
                    u != caller_id ==> (#[trigger] self.subscribers_of(s, ix).contains(u)
                        == mid.subscribers_of(s, ix).contains(u)),
                forall|s: u64, ix: u64|
                    !pairs_contain(services@.subrange(0, i as int), s, ix)
                        ==> #[trigger] self.subscribers_of(s, ix) == mid.subscribers_of(s, ix),
                forall|s: u64, ix: u64|
                    pairs_contain(services@.subrange(0, i as int), s, ix)
                        ==> #[trigger] self.last_action_epoch_of(caller_id, s, ix) == 0,
                forall|k: (u64, u64, u64)|
                    #[trigger] self.user_last_action_epoch.as_map().contains_key(k)
                        ==> mid.user_last_action_epoch.as_map().contains_key(k)
                            && mid.user_last_action_epoch.as_map()[k]
                                == self.user_last_action_epoch.as_map()[k],
                *self == (SubscriptionFee {
                    subscribed_users: self.subscribed_users,
                    user_last_action_epoch: self.user_last_action_epoch,
                    ..mid
                }),
            decreases services@.len() - i,
        {
            let (service_id, service_index) = services[i];
            let ghost cur = *self;
            let ghost key: (u64, u64) = (service_id, service_index as u64);
            let mut subs = match self.subscribed_users.get(service_id, service_index as u64) {
                Some(s) => s.clone_set(),
                None => OrderedSet::new(),
            };
            proof {
                assert(subs@ == cur.subscribers_of(key.0, key.1));
            }
            let _ = subs.swap_remove_item(caller_id);
            proof {
                assert(!subs@.contains(caller_id));
            }
            self.subscribed_users.set(service_id, service_index as u64, subs);
            self.user_last_action_epoch.remove(caller_id, service_id, service_index as u64);
            proof {
                assert forall|k: (u64, u64)| self.subscribed_users.as_map().contains_key(k)
                    implies (#[trigger] self.subscribed_users.as_map()[k]).wf() by {
                    if k != key {
                        assert(cur.subscribed_users.as_map().contains_key(k));
                        assert(cur.subscribed_users.as_map()[k].wf());
                    }
                }
                let subi = services@.subrange(0, i as int);
                let sub_next = services@.subrange(0, (i + 1) as int);
                assert(sub_next.drop_last() =~= subi);
                assert(sub_next[i as int] == services@[i as int]);
                assert(pairs_contain(sub_next, key.0, key.1));
                assert(self.subscribers_of(key.0, key.1) == subs@);
                assert(!self.user_last_action_epoch.as_map().contains_key(
                    (caller_id, key.0, key.1)));
                assert(self.last_action_epoch_of(caller_id, key.0, key.1) == 0);
                assert forall|s2: u64, ix: u64| (s2, ix) != key
                    implies #[trigger] self.subscribers_of(s2, ix)
                        == cur.subscribers_of(s2, ix) by {
                }
                assert forall|s2: u64, ix: u64|
                    !pairs_contain(sub_next, s2, ix)
                        implies #[trigger] self.subscribers_of(s2, ix)
                            == mid.subscribers_of(s2, ix) by {
                    assert(!pairs_contain(subi, s2, ix)) by {
                        if pairs_contain(subi, s2, ix) {
                            let w = choose|w: int| 0 <= w < subi.len()
                                && (#[trigger] subi[w]).0 == s2 && subi[w].1 as u64 == ix;
                            assert(sub_next[w].0 == s2 && sub_next[w].1 as u64 == ix);
                        }
                    }
                    assert((s2, ix) != key);
                }
                assert forall|s2: u64, ix: u64, u: u64|
                    u != caller_id implies (#[trigger] self.subscribers_of(s2, ix).contains(u)
                        == mid.subscribers_of(s2, ix).contains(u)) by {
                    if (s2, ix) == key {
                        assert(self.subscribers_of(s2, ix).contains(u)
                            == cur.subscribers_of(s2, ix).contains(u));
                    }
                }
                assert forall|s2: u64, ix: u64| pairs_contain(sub_next, s2, ix)
                    implies !(#[trigger] self.subscribers_of(s2, ix)).contains(caller_id) by {
                    let w = choose|w: int| 0 <= w < sub_next.len()
                        && (#[trigger] sub_next[w]).0 == s2 && sub_next[w].1 as u64 == ix;
                    if w < i {
                        assert(subi[w].0 == s2 && subi[w].1 as u64 == ix);
                        assert(pairs_contain(subi, s2, ix));
                        if (s2, ix) != key {
                            assert(self.subscribers_of(s2, ix) == cur.subscribers_of(s2, ix));
                        }
                    } else {
                        assert((s2, ix) == key);
                    }
                }
                assert forall|s2: u64, ix: u64| pairs_contain(sub_next, s2, ix)
                    implies #[trigger] self.last_action_epoch_of(caller_id, s2, ix) == 0 by {
                    let w = choose|w: int| 0 <= w < sub_next.len()
                        && (#[trigger] sub_next[w]).0 == s2 && sub_next[w].1 as u64 == ix;
                    if w < i {
                        assert(subi[w].0 == s2 && subi[w].1 as u64 == ix);
                        assert(pairs_contain(subi, s2, ix));
                        if (s2, ix) != key {
                            assert(cur.last_action_epoch_of(caller_id, s2, ix) == 0);
                            assert(self.last_action_epoch_of(caller_id, s2, ix)
                                == cur.last_action_epoch_of(caller_id, s2, ix));
                        }
                    } else {
                        assert((s2, ix) == key);
                    }
                }
            }
            i += 1;
        }
        proof {
            assert(services@.subrange(0, services@.len() as int) =~= services@);
        }
        Ok(())
    }
}

} // verus!
