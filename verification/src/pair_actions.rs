//! The price-oracle boundary: pair contracts quote one token in another at
//! the pair's current reserve ratio. The directory of pairs is the system's
//! as-of-current-block snapshot of the outside exchanges; execution is
//! single-threaded, so a quote never observes an intermediate state.
use vstd::prelude::*;

use crate::payments::Payment;
use crate::store::Store;

verus! {

/// One exchange pair's tokens and reserves, as read from the pair contract.
#[derive(Clone, Copy, PartialEq, Eq, Structural, Debug)]
pub struct PairState {
    pub first_token: u64,
    pub second_token: u64,
    pub first_reserve: u64,
    pub second_reserve: u64,
}

impl PairState {
    pub open spec fn wf(self) -> bool {
        self.first_reserve > 0 && self.second_reserve > 0 && self.first_token != self.second_token
    }
}

/// `a * b / d`, `None` when the quotient does not fit the amount type.
pub open spec fn mul_div_spec(a: u64, b: u64, d: u64) -> Option<u64>
    recommends
        d > 0,
{
    if a * b / (d as int) <= u64::MAX {
        Some((a * b / (d as int)) as u64)
    } else {
        None
    }
}

pub fn mul_div(a: u64, b: u64, d: u64) -> (r: Option<u64>)
    requires
        d > 0,
    ensures
        r == mul_div_spec(a, b, d),
{
    proof {
        assert((a as int) * (b as int) <= u128::MAX as int) by (nonlinear_arith)
            requires
                a <= u64::MAX,
                b <= u64::MAX,
        ;
    }
    let prod: u128 = (a as u128) * (b as u128);
    let q: u128 = prod / (d as u128);
    proof {
        assert(prod == a * b);
        assert(q == a * b / (d as int));
    }
    if q <= u64::MAX as u128 {
        Some(q as u64)
    } else {
        None
    }
}

/// A portion scaled by at most the whole never exceeds the total.
pub proof fn lemma_scaled_portion_bound(total: u64, part: u64, whole: u64)
    requires
        0 < whole,
        part <= whole,
    ensures
        total * part / (whole as int) <= total,
{
    vstd::arithmetic::mul::lemma_mul_inequality(part as int, whole as int, total as int);
    vstd::arithmetic::div_mod::lemma_div_multiples_vanish(total as int, whole as int);
    vstd::arithmetic::div_mod::lemma_div_is_ordered(
        total * part, total * whole, whole as int);
}

/// What a pair quotes for an input payment: the input amount scaled by the
/// reserve ratio, paid out in the pair's other token. `None` when the input
/// token is not one of the pair's two, or the output does not fit.
pub open spec fn safe_price_spec(pair: PairState, input: Payment) -> Option<Payment> {
    if input.token_identifier == pair.first_token {
        match mul_div_spec(input.amount, pair.second_reserve, pair.first_reserve) {
            Some(out) => Some(Payment {
                token_identifier: pair.second_token,
                token_nonce: 0,
                amount: out,
            }),
            None => None,
        }
    } else if input.token_identifier == pair.second_token {
        match mul_div_spec(input.amount, pair.first_reserve, pair.second_reserve) {
            Some(out) => Some(Payment {
                token_identifier: pair.first_token,
                token_nonce: 0,
                amount: out,
            }),
            None => None,
        }
    } else {
        None
    }
}

/// All pair contracts known to the system, keyed by pair address.
pub struct PairDirectory {
    pairs: Store<PairState>,
}

impl PairDirectory {
    pub closed spec fn as_map(self) -> Map<u64, PairState> {
        self.pairs.as_map()
    }

    pub closed spec fn wf(self) -> bool {
        &&& self.pairs.wf()
        &&& forall|a: u64|
            self.as_map().contains_key(a) ==> (#[trigger] self.as_map()[a]).wf()
    }

    pub fn new() -> (r: Self)
        ensures
            r.wf(),
            r.as_map() == Map::<u64, PairState>::empty(),
    {
        PairDirectory { pairs: Store::new() }
    }

    pub fn add_pair(&mut self, address: u64, pair: PairState)
        requires
            old(self).wf(),
            pair.wf(),
        ensures
            final(self).wf(),
            final(self).as_map() == old(self).as_map().insert(address, pair),
    {
        self.pairs.set(address, pair);
        proof {
            assert forall|a2: u64| self.as_map().contains_key(a2)
                implies (#[trigger] self.as_map()[a2]).wf() by {
                if a2 != address {
                    assert(old(self).as_map().contains_key(a2));
                    assert(old(self).as_map()[a2].wf());
                }
            }
        }
    }

    /// The pair at an address, if one is known there.
    pub fn get_pair(&self, pair_address: u64) -> (r: Option<&PairState>)
        requires
            self.wf(),
        ensures
            match r {
                Some(p) => self.as_map().contains_key(pair_address)
                    && *p == self.as_map()[pair_address]
                    && p.wf(),
                None => !self.as_map().contains_key(pair_address),
            },
    {
        self.pairs.get(pair_address)
    }

    /// The quote of `safe_price_spec` for the pair at `pair_address`,
    /// `None` when no such pair is known.
    pub fn get_safe_price(&self, pair_address: u64, input: Payment) -> (r: Option<Payment>)
        requires
            self.wf(),
        ensures
            r == (if self.as_map().contains_key(pair_address) {
                safe_price_spec(self.as_map()[pair_address], input)
            } else {
                None::<Payment>
            }),
    {
        match self.pairs.get(pair_address) {
            Some(pair) => {
                if input.token_identifier == pair.first_token {
                    match mul_div(input.amount, pair.second_reserve, pair.first_reserve) {
                        Some(out) => Some(Payment {
                            token_identifier: pair.second_token,
                            token_nonce: 0,
                            amount: out,
                        }),
                        None => None,
                    }
                } else if input.token_identifier == pair.second_token {
                    match mul_div(input.amount, pair.first_reserve, pair.second_reserve) {
                        Some(out) => Some(Payment {
                            token_identifier: pair.first_token,
                            token_nonce: 0,
                            amount: out,
                        }),
                        None => None,
                    }
                } else {
                    None
                }
            }
            None => None,
        }
    }
}

/// The stable value of a token amount: the stable token itself counts one to
/// one; anything else is quoted on its own pair and, when that pays out in
/// the reference token rather than the stable token, once more on the
/// reference token's pair.
pub open spec fn price_of_spec(
    stable_token_id: u64,
    reference_token_id: u64,
    pair_for_token: Map<u64, u64>,
    pairs: Map<u64, PairState>,
    token: u64,
    amount: u64,
) -> Option<u64> {
    if token == stable_token_id {
        Some(amount)
    } else if !pair_for_token.contains_key(token) {
        None
    } else {
        let own_pair = pair_for_token[token];
        if !pairs.contains_key(own_pair) {
            None
        } else {
            match safe_price_spec(pairs[own_pair], Payment {
                token_identifier: token,
                token_nonce: 0,
                amount,
            }) {
                Some(quote) => if quote.token_identifier == stable_token_id {
                    Some(quote.amount)
                } else if quote.token_identifier != reference_token_id
                    || !pair_for_token.contains_key(reference_token_id) {
                    None
                } else {
                    let ref_pair = pair_for_token[reference_token_id];
                    if !pairs.contains_key(ref_pair) {
                        None
                    } else {
                        match safe_price_spec(pairs[ref_pair], quote) {
                            Some(quote2) => if quote2.token_identifier == stable_token_id {
                                Some(quote2.amount)
                            } else {
                                None
                            },
                            None => None,
                        }
                    }
                },
                None => None,
            }
        }
    }
}

/// Executable counterpart of `price_of_spec`.
pub fn get_price(
    stable_token_id: u64,
    reference_token_id: u64,
    pair_for_token: &Store<u64>,
    pairs: &PairDirectory,
    token: u64,
    amount: u64,
) -> (r: Option<u64>)
    requires
        pair_for_token.wf(),
        pairs.wf(),
    ensures
        r == price_of_spec(
            stable_token_id,
            reference_token_id,
            pair_for_token.as_map(),
            pairs.as_map(),
            token,
            amount,
        ),
{
    if token == stable_token_id {
        return Some(amount);
    }
    let own_pair = match pair_for_token.get(token) {
        Some(p) => *p,
        None => {
            return None;
        }
    };
    let quote = match pairs.get_safe_price(own_pair, Payment {
        token_identifier: token,
        token_nonce: 0,
        amount,
    }) {
        Some(q) => q,
        None => {
            return None;
        }
    };
    if quote.token_identifier == stable_token_id {
        return Some(quote.amount);
    }
    if quote.token_identifier != reference_token_id {
        return None;
    }
    let ref_pair = match pair_for_token.get(reference_token_id) {
        Some(p) => *p,
        None => {
            return None;
        }
    };
    match pairs.get_safe_price(ref_pair, quote) {
        Some(quote2) => {
            if quote2.token_identifier == stable_token_id {
                Some(quote2.amount)
            } else {
                None
            }
        }
        None => None,
    }
}

/// How many units of `desired_token` are worth `stable_amount` of the stable
/// token: the stable token itself converts one to one; anything else is
/// quoted stable-to-reference-token on the reference pair, then
/// reference-to-desired on the desired token's own pair.
pub open spec fn worth_of_price_spec(
    stable_token_id: u64,
    reference_token_id: u64,
    pair_for_token: Map<u64, u64>,
    pairs: Map<u64, PairState>,
    desired_token: u64,
    stable_amount: u64,
) -> Option<u64> {
    if desired_token == stable_token_id {
        Some(stable_amount)
    } else if !pair_for_token.contains_key(reference_token_id) {
        None
    } else {
        let stable_pair = pair_for_token[reference_token_id];
        if !pairs.contains_key(stable_pair) {
            None
        } else {
            match safe_price_spec(pairs[stable_pair], Payment {
                token_identifier: stable_token_id,
                token_nonce: 0,
                amount: stable_amount,
            }) {
                Some(reference_price) => if desired_token == reference_price.token_identifier {
                    Some(reference_price.amount)
                } else if !pair_for_token.contains_key(desired_token) {
                    None
                } else {
                    let desired_pair = pair_for_token[desired_token];
                    if !pairs.contains_key(desired_pair) {
                        None
                    } else {
                        match safe_price_spec(pairs[desired_pair], reference_price) {
                            Some(price) => if price.token_identifier == desired_token {
                                Some(price.amount)
                            } else {
                                None
                            },
                            None => None,
                        }
                    }
                },
                None => None,
            }
        }
    }
}

/// Executable counterpart of `worth_of_price_spec`, quoting through the
/// pair registered for the stable token and then the pair registered for
/// the desired token.
pub fn get_worth_of_price(
    stable_token_id: u64,
    reference_token_id: u64,
    pair_for_token: &Store<u64>,
    pairs: &PairDirectory,
    desired_token: u64,
    stable_amount: u64,
) -> (r: Option<u64>)
    requires
        pair_for_token.wf(),
        pairs.wf(),
    ensures
        r == worth_of_price_spec(
            stable_token_id,
            reference_token_id,
            pair_for_token.as_map(),
            pairs.as_map(),
            desired_token,
            stable_amount,
        ),
{
    if desired_token == stable_token_id {
        return Some(stable_amount);
    }
    let stable_pair = match pair_for_token.get(reference_token_id) {
        Some(p) => *p,
        None => {
            return None;
        }
    };
    let reference_price = match pairs.get_safe_price(stable_pair, Payment {
        token_identifier: stable_token_id,
        token_nonce: 0,
        amount: stable_amount,
    }) {
        Some(p) => p,
        None => {
            return None;
        }
    };
    if desired_token == reference_price.token_identifier {
        return Some(reference_price.amount);
    }
    let desired_pair = match pair_for_token.get(desired_token) {
        Some(p) => *p,
        None => {
            return None;
        }
    };
    match pairs.get_safe_price(desired_pair, reference_price) {
        Some(price) => {
            if price.token_identifier == desired_token {
                Some(price.amount)
            } else {
                None
            }
        }
        None => None,
    }
}

} // verus!
