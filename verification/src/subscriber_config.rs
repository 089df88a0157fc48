//! Configuration of the buy-and-lock deployment: the percentage split of
//! collected fees into locked, fee and burned portions, and the per-user
//! payment recurrence record.
use vstd::prelude::*;

use crate::Epoch;

verus! {

pub type Percentage = u32;

/// The whole, in the percentage scale used throughout: 10,000 = 100%.
pub const TOTAL_PERCENTAGE: Percentage = 10_000;

/// Epochs between two charges of the same user by the weekly recurrence.
pub const EPOCHS_IN_WEEK: u64 = 7;

/// When and under which tier a user was last charged.
#[derive(Clone, Copy, PartialEq, Eq, Structural, Debug)]
pub struct UserLastPayment {
    pub service_index: usize,
    pub epoch: Epoch,
}

impl Default for UserLastPayment {
    fn default() -> (r: Self)
        ensures
            r.service_index == 0,
            r.epoch == 0,
    {
        UserLastPayment { service_index: 0, epoch: 0 }
    }
}

impl UserLastPayment {
    pub fn new(service_index: usize, epoch: Epoch) -> (r: Self)
        ensures
            r == (UserLastPayment { service_index, epoch }),
    {
        UserLastPayment { service_index, epoch }
    }
}

/// The two subscription tiers, selected by the user's energy amount.
#[derive(Clone, Copy, PartialEq, Eq, Structural, Debug)]
pub enum SubscriptionUserType {
    Normal,
    Premium,
}

/// How collected fees split: a portion locked for the user, a portion kept
/// as operator fees, and a portion burned. Valid only when the three sum to
/// exactly the whole.
#[derive(Clone, Copy, PartialEq, Eq, Structural, Debug)]
pub struct MexActionsPercentages {
    pub lock: Percentage,
    pub fees: Percentage,
    pub burn: Percentage,
}

/// A total split by `MexActionsPercentages::get_amounts_per_category`.
#[derive(Clone, Copy, PartialEq, Eq, Structural, Debug)]
pub struct MexActionsValue {
    pub lock: u64,
    pub fees: u64,
    pub burn: u64,
}

impl MexActionsPercentages {
    /// Whether the three portions sum to exactly the whole.
    pub fn is_valid(&self) -> (r: bool)
        ensures
            r == (self.lock + self.fees + self.burn == TOTAL_PERCENTAGE),
    {
        let lock_wide: u64 = self.lock as u64;
        let fees_wide: u64 = self.fees as u64;
        let burn_wide: u64 = self.burn as u64;
        lock_wide + fees_wide + burn_wide == TOTAL_PERCENTAGE as u64
    }

    /// Split a total by these percentages: the locked and fee portions by
    /// floor division, the burned portion as the exact remainder, so that
    /// the three amounts always sum to exactly the total.
    pub fn get_amounts_per_category(&self, total: u64) -> (r: MexActionsValue)
        requires
            self.lock + self.fees + self.burn == TOTAL_PERCENTAGE,
        ensures
            r.lock == total * self.lock / (TOTAL_PERCENTAGE as int),
            r.fees == total * self.fees / (TOTAL_PERCENTAGE as int),
            r.burn == total - r.lock - r.fees,
            r.lock + r.fees + r.burn == total,
            r.lock <= total,
            r.fees <= total,
    {
        proof {
            lemma_portion_bound(total, self.lock as u64, TOTAL_PERCENTAGE as u64);
            lemma_portion_bound(total, self.fees as u64, TOTAL_PERCENTAGE as u64);
            lemma_split_covers(total, self.lock as u64, self.fees as u64);
        }
        let lock_amount = portion_of(total, self.lock);
        let fees_amount = portion_of(total, self.fees);
        let burn_amount = total - lock_amount - fees_amount;
        MexActionsValue { lock: lock_amount, fees: fees_amount, burn: burn_amount }
    }
}

/// `total * percentage / TOTAL_PERCENTAGE`, exact.
pub fn portion_of(total: u64, percentage: Percentage) -> (r: u64)
    requires
        percentage <= TOTAL_PERCENTAGE,
    ensures
        r == total * percentage / (TOTAL_PERCENTAGE as int),
        r <= total,
{
    proof {
        lemma_portion_bound(total, percentage as u64, TOTAL_PERCENTAGE as u64);
    }
    let wide: u128 = (total as u128) * (percentage as u128) / (TOTAL_PERCENTAGE as u128);
    wide as u64
}

/// A portion at most the whole is at most the total.
proof fn lemma_portion_bound(total: u64, part: u64, whole: u64)
    requires
        0 < whole,
        part <= whole,
    ensures
        total * part / (whole as int) <= total,
        total * part <= total * whole,
{
    vstd::arithmetic::mul::lemma_mul_inequality(part as int, whole as int, total as int);
    vstd::arithmetic::div_mod::lemma_div_multiples_vanish(total as int, whole as int);
    vstd::arithmetic::div_mod::lemma_div_is_ordered(
        total * part, total * whole, whole as int);
}

/// Two floor-divided portions of percentages summing at most the whole
/// together cover at most the total.
proof fn lemma_split_covers(total: u64, p1: u64, p2: u64)
    requires
        p1 + p2 <= TOTAL_PERCENTAGE,
    ensures
        total * p1 / (TOTAL_PERCENTAGE as int) + total * p2 / (TOTAL_PERCENTAGE as int)
            <= total,
{
    let whole = TOTAL_PERCENTAGE as int;
    let a = total * p1;
    let b = total * p2;
    vstd::arithmetic::div_mod::lemma_fundamental_div_mod(a, whole);
    vstd::arithmetic::div_mod::lemma_fundamental_div_mod(b, whole);
    vstd::arithmetic::div_mod::lemma_mod_bound(a, whole);
    vstd::arithmetic::div_mod::lemma_mod_bound(b, whole);
    assert(total * p1 + total * p2 == total * (p1 + p2)) by (nonlinear_arith);
    lemma_portion_bound(total, (p1 + p2) as u64, TOTAL_PERCENTAGE as u64);
    vstd::arithmetic::div_mod::lemma_div_multiples_vanish(total as int, whole);
    assert((a / whole + b / whole) * whole <= a + b) by (nonlinear_arith)
        requires
            a >= 0,
            b >= 0,
            whole > 0,
            a % whole >= 0,
            b % whole >= 0,
            a == whole * (a / whole) + a % whole,
            b == whole * (b / whole) + b % whole,
    ;
    vstd::arithmetic::div_mod::lemma_div_is_ordered(
        (a / whole + b / whole) * whole, total * (p1 + p2), whole);
    vstd::arithmetic::div_mod::lemma_div_by_multiple(a / whole + b / whole, whole);
}

impl MexActionsValue {
    /// The amount to swap: everything not kept as operator fees.
    pub fn get_sell_amount(&self) -> (r: u64)
        requires
            self.lock + self.burn <= u64::MAX,
        ensures
            r == self.lock + self.burn,
    {
        self.lock + self.burn
    }

    /// The amount to swap: everything not kept as operator fees.
    pub fn get_total_mex(&self) -> (r: u64)
        requires
            self.lock + self.burn <= u64::MAX,
        ensures
            r == self.lock + self.burn,
    {
        self.lock + self.burn
    }
}

} // verus!
