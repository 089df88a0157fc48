//! A subscription-fee marketplace, modelled as verified state machines.
//!
//! A central fee contract custodies user deposits and authorizes periodic
//! fee withdrawals for registered services; service contracts drive
//! resumable, budget-bounded batch operations over their subscriber sets.
//! Everything the host platform provides (token transfers, cross-contract
//! calls, price queries) enters these functions as plain values and leaves
//! them as instruction values for the caller to carry out.
use vstd::prelude::*;

pub mod base_functions;
pub mod buy_mex;
pub mod claim_farm_boosted;
pub mod daily_operations;
pub mod distribution;
pub mod farm_subscriber;
pub mod fee_contract;
pub mod fees;
pub mod metabonding;
pub mod pair_actions;
pub mod payments;
pub mod registry;
pub mod results;
pub mod service;
pub mod store;
pub mod subscriber;
pub mod subscriber_config;
pub mod subtract_payments;
pub mod user_tokens;

verus! {

/// The platform's coarse time unit, used for subscription cadences and cooldowns.
pub type Epoch = u64;

} // verus!
