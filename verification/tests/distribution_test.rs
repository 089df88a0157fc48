//! Tests of the remainder-exact proportional distribution and the
//! percentage split arithmetic.
use subscription_fee::distribution::distribute_proportional;
use subscription_fee::subscriber_config::MexActionsPercentages;

fn assert_exact_split(total: u64, weights: Vec<u64>) {
    let weight_sum: u64 = weights.iter().sum();
    let shares = distribute_proportional(total, &weights, weight_sum);
    assert_eq!(shares.len(), weights.len());
    let sum: u64 = shares.iter().sum();
    assert_eq!(sum, total);
    for (i, share) in shares.iter().enumerate() {
        if i + 1 < shares.len() {
            let expected = (total as u128) * (weights[i] as u128) / (weight_sum as u128);
            assert_eq!(*share as u128, expected);
        }
    }
}

#[test]
fn remainder_exact_split_test() {
    // weight vectors summing to non-powers of two, with skewed and equal
    // weights: no unit is ever lost or invented
    assert_exact_split(1_799, vec![1_000, 1_001]);
    assert_exact_split(1_800, vec![1_000, 1_001]);
    assert_exact_split(3_599, vec![1_000, 1_000]);
    assert_exact_split(1, vec![3, 5, 7]);
    assert_exact_split(0, vec![9, 1]);
    assert_exact_split(u64::MAX, vec![1, 2, 3, 4, 5, 6, 7]);
    assert_exact_split(999_999_937, vec![13, 999_999_999, 1, 77_777]);
    assert_exact_split(42, vec![11]);
}

#[test]
fn proportional_shares_rounding_scenario_test() {
    // a pool of 3599 units split against contributions of 1000 and 1001:
    // the first share comes from floor division, the last is the exact
    // remainder, and together they cover the pool exactly
    let shares = distribute_proportional(3_599, &vec![1_000, 1_001], 2_001);
    assert_eq!(shares[0], 3_599 * 1_000 / 2_001);
    assert_eq!(shares[0], 1_798);
    assert_eq!(shares[1], 3_599 - 1_798);
    assert_eq!(shares[0] + shares[1], 3_599);
}

#[test]
fn percentage_split_is_exact_test() {
    let pct = MexActionsPercentages { lock: 9_000, fees: 800, burn: 200 };
    assert!(pct.is_valid());
    let split = pct.get_amounts_per_category(100);
    assert_eq!(split.lock, 90);
    assert_eq!(split.fees, 8);
    assert_eq!(split.burn, 2);
    assert_eq!(split.get_sell_amount(), 92);
    assert_eq!(split.get_total_mex(), 92);

    // an uneven total: the burned portion absorbs the rounding dust
    let split = pct.get_amounts_per_category(1_799);
    assert_eq!(split.lock, 1_619);
    assert_eq!(split.fees, 143);
    assert_eq!(split.burn, 1_799 - 1_619 - 143);
    assert_eq!(split.lock + split.fees + split.burn, 1_799);

    let invalid = MexActionsPercentages { lock: 9_000, fees: 800, burn: 300 };
    assert!(!invalid.is_valid());
}
