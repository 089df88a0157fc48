//! Scenario tests of the buy-and-lock deployment: tiered charges, boosted
//! reward claims gated by the allow flag, the buy-and-lock round with its
//! remainder-exact distribution, and the weekly fee claim.
use subscription_fee::farm_subscriber::{
    FarmSubscriber, MexOperationItem, PREMIUM_SUBSCRIPTION_INDEX, STANDARD_SUBSCRIPTION_INDEX,
};
use subscription_fee::fee_contract::SubscriptionFee;
use subscription_fee::pair_actions::{PairDirectory, PairState};
use subscription_fee::payments::Payment;
use subscription_fee::results::ScResult;
use subscription_fee::service::ServiceInfo;
use subscription_fee::store::{Store, Store2};
use subscription_fee::subscriber_config::MexActionsPercentages;

const USDC_TOKEN_ID: u64 = 2;
const WEGLD_TOKEN_ID: u64 = 3;
const REWARD_TOKEN_ID: u64 = 4;

const MEX_PAIR: u64 = 203;
const STABLE_PAIR: u64 = 202;
const SUBSCRIBER_ADDRESS: u64 = 300;
const FEE_CONTRACT_ADDRESS: u64 = 310;
const LOCK_ADDRESS: u64 = 320;
const FEES_CLAIM_ADDRESS: u64 = 330;
const OWNER_ADDRESS: u64 = 100;
const FIRST_USER: u64 = 400;
const SECOND_USER: u64 = 401;
const FARM_ADDRESS: u64 = 500;

const WEEKLY_SUBSCRIPTION_EPOCHS: u64 = 7;
const ENERGY_THRESHOLD: u64 = 1_000;

fn init_all() -> (SubscriptionFee, PairDirectory, FarmSubscriber) {
    let mut pairs = PairDirectory::new();
    pairs.add_pair(MEX_PAIR, PairState {
        first_token: WEGLD_TOKEN_ID,
        second_token: REWARD_TOKEN_ID,
        first_reserve: 1_000_000_000,
        second_reserve: 2_000_000_000,
    });
    pairs.add_pair(STABLE_PAIR, PairState {
        first_token: WEGLD_TOKEN_ID,
        second_token: USDC_TOKEN_ID,
        first_reserve: 1_000_000_000,
        second_reserve: 2_000_000_000,
    });
    let mut fee = SubscriptionFee::new(
        USDC_TOKEN_ID,
        WEGLD_TOKEN_ID,
        1_000_000,
        5,
        5,
        5,
        vec![WEGLD_TOKEN_ID],
    )
    .unwrap();
    fee.add_pair_address(WEGLD_TOKEN_ID, STABLE_PAIR);
    let farm_subscriber = FarmSubscriber::new(
        OWNER_ADDRESS,
        SUBSCRIBER_ADDRESS,
        FEE_CONTRACT_ADDRESS,
        ENERGY_THRESHOLD,
        REWARD_TOKEN_ID,
        WEGLD_TOKEN_ID,
        MexActionsPercentages { lock: 9_000, fees: 800, burn: 200 },
        MexActionsPercentages { lock: 9_000, fees: 800, burn: 200 },
        LOCK_ADDRESS,
        MEX_PAIR,
        100,
        FEES_CLAIM_ADDRESS,
        &pairs,
    )
    .unwrap();
    (fee, pairs, farm_subscriber)
}

fn register_two_tiers(fee: &mut SubscriptionFee, in_stable: bool, standard: u64, premium: u64) {
    fee.register_service(
        SUBSCRIBER_ADDRESS,
        vec![
            ServiceInfo {
                opt_payment_token: Some(WEGLD_TOKEN_ID),
                amount: standard,
                payment_in_stable: in_stable,
                subscription_epochs: WEEKLY_SUBSCRIPTION_EPOCHS,
            },
            ServiceInfo {
                opt_payment_token: Some(WEGLD_TOKEN_ID),
                amount: premium,
                payment_in_stable: in_stable,
                subscription_epochs: WEEKLY_SUBSCRIPTION_EPOCHS,
            },
        ],
    )
    .unwrap();
    fee.approve_service(SUBSCRIBER_ADDRESS).unwrap();
}

fn enroll_user(fee: &mut SubscriptionFee, pairs: &PairDirectory, user: u64) {
    fee.deposit(pairs, user, Payment::new(WEGLD_TOKEN_ID, 0, 1_000_000)).unwrap();
    fee.subscribe(user, vec![(1, STANDARD_SUBSCRIPTION_INDEX), (1, PREMIUM_SUBSCRIPTION_INDEX)])
        .unwrap();
}

fn charged_total(farm: &FarmSubscriber, index: usize, user_id: u64) -> Option<u64> {
    farm.user_fees.get(index as u64, user_id).map(|f| f.fees.amount)
}

#[test]
fn farm_subscriber_init_test() {
    let _ = init_all();
}

#[test]
fn claim_boosted_rewards_for_user_test() {
    let (mut fee, pairs, mut farm) = init_all();
    register_two_tiers(&mut fee, false, 1_000, 500);
    enroll_user(&mut fee, &pairs, FIRST_USER);
    let user_id = 1;

    let farm_id = success(farm.add_farm(OWNER_ADDRESS, FARM_ADDRESS));
    let mut energy: Store<u64> = Store::new();
    // energy below the threshold: the standard tier is charged
    energy.set(FIRST_USER, 900);
    let mut allow: Store2<bool> = Store2::new();
    allow.set(FARM_ADDRESS, FIRST_USER, true);

    let (premium, standard) = success(farm.subtract_payment_endpoint(&mut fee, &pairs, &energy, OWNER_ADDRESS, 10, &vec![user_id]));
    assert_eq!(premium, Vec::<u64>::new());
    assert_eq!(standard, vec![user_id]);
    // the standard fee of 1000 was debited
    assert_eq!(charged_total(&farm, STANDARD_SUBSCRIPTION_INDEX, user_id), Some(1_000));

    let ops = success(farm.perform_claim_rewards_operations_endpoint(
            &fee, &allow, STANDARD_SUBSCRIPTION_INDEX, &vec![(user_id, vec![farm_id])]));
    assert_eq!(ops.len(), 1);
    assert_eq!(ops[0].user(), FIRST_USER);
    assert_eq!(ops[0].farm_ids(), &vec![farm_id]);

    // charging again in the same epoch changes nothing: the first charge is
    // still unconsumed
    let (premium, standard) = success(farm.subtract_payment_endpoint(&mut fee, &pairs, &energy, OWNER_ADDRESS, 10, &vec![user_id]));
    assert_eq!(premium, Vec::<u64>::new());
    assert_eq!(standard, Vec::<u64>::new());
    assert_eq!(charged_total(&farm, STANDARD_SUBSCRIPTION_INDEX, user_id), Some(1_000));
}

#[test]
fn claim_boosted_rewards_for_user_multiple_farms_test() {
    let (mut fee, pairs, mut farm) = init_all();
    register_two_tiers(&mut fee, false, 1_000, 500);
    enroll_user(&mut fee, &pairs, FIRST_USER);
    let user_id = 1;

    let farm_id1 = success(farm.add_farm(OWNER_ADDRESS, FARM_ADDRESS));
    let farm_id2 = success(farm.add_farm(OWNER_ADDRESS, FARM_ADDRESS + 1));
    let mut energy: Store<u64> = Store::new();
    energy.set(FIRST_USER, 900);
    let mut allow: Store2<bool> = Store2::new();
    allow.set(FARM_ADDRESS, FIRST_USER, true);
    allow.set(FARM_ADDRESS + 1, FIRST_USER, true);

    let (_premium, standard) = success(farm.subtract_payment_endpoint(&mut fee, &pairs, &energy, OWNER_ADDRESS, 10, &vec![user_id]));
    assert_eq!(standard, vec![user_id]);
    assert_eq!(charged_total(&farm, STANDARD_SUBSCRIPTION_INDEX, user_id), Some(1_000));

    // both farms allow the claim, so both are processed for the user
    let ops = success(farm.perform_claim_rewards_operations_endpoint(
            &fee, &allow, STANDARD_SUBSCRIPTION_INDEX,
            &vec![(user_id, vec![farm_id1, farm_id2])]));
    assert_eq!(ops.len(), 1);
    assert_eq!(ops[0].user(), FIRST_USER);
    assert_eq!(ops[0].farm_ids(), &vec![farm_id1, farm_id2]);

    // a farm that forbids external claims is left out
    let mut partial_allow: Store2<bool> = Store2::new();
    partial_allow.set(FARM_ADDRESS, FIRST_USER, true);
    partial_allow.set(FARM_ADDRESS + 1, FIRST_USER, false);
    let ops = success(farm.perform_claim_rewards_operations_endpoint(
            &fee, &partial_allow, STANDARD_SUBSCRIPTION_INDEX,
            &vec![(user_id, vec![farm_id1, farm_id2])]));
    assert_eq!(ops.len(), 1);
    assert_eq!(ops[0].farm_ids(), &vec![farm_id1]);
}

#[test]
fn claim_boosted_rewards_for_premium_user_test() {
    let (mut fee, pairs, mut farm) = init_all();
    register_two_tiers(&mut fee, false, 1_000, 500);
    enroll_user(&mut fee, &pairs, FIRST_USER);
    let user_id = 1;

    let farm_id = success(farm.add_farm(OWNER_ADDRESS, FARM_ADDRESS));
    let mut energy: Store<u64> = Store::new();
    // energy at the threshold: the premium tier is charged, at its price
    energy.set(FIRST_USER, 1_000);
    let mut allow: Store2<bool> = Store2::new();
    allow.set(FARM_ADDRESS, FIRST_USER, true);

    let (premium, standard) = success(farm.subtract_payment_endpoint(&mut fee, &pairs, &energy, OWNER_ADDRESS, 10, &vec![user_id]));
    assert_eq!(premium, vec![user_id]);
    assert_eq!(standard, Vec::<u64>::new());
    // a different price for premium users
    assert_eq!(charged_total(&farm, PREMIUM_SUBSCRIPTION_INDEX, user_id), Some(500));

    let ops = success(farm.perform_claim_rewards_operations_endpoint(
            &fee, &allow, PREMIUM_SUBSCRIPTION_INDEX, &vec![(user_id, vec![farm_id])]));
    assert_eq!(ops.len(), 1);
    assert_eq!(ops[0].user(), FIRST_USER);
}

#[test]
fn mex_operation_with_claim_fees_test() {
    let (mut fee, pairs, mut farm) = init_all();
    register_two_tiers(&mut fee, false, 1_000, 500);
    enroll_user(&mut fee, &pairs, FIRST_USER);
    enroll_user(&mut fee, &pairs, SECOND_USER);
    let first_user_id = 1;
    let second_user_id = 2;

    let energy: Store<u64> = Store::new();
    let (_premium, standard) = success(farm.subtract_payment_endpoint(
            &mut fee, &pairs, &energy, OWNER_ADDRESS, 10,
            &vec![first_user_id, second_user_id]));
    assert_eq!(standard, vec![first_user_id, second_user_id]);

    // both users contributed 1000; the pool splits 90/8/2 into lock, fees
    // and burn, so 1840 is sold and 160 pooled as operator fees
    let plan = success(farm.perform_mex_operations_endpoint(
            &fee, OWNER_ADDRESS, STANDARD_SUBSCRIPTION_INDEX, 1,
            &vec![first_user_id, second_user_id]));
    assert_eq!(plan.total_fees_collected, 2_000);
    assert_eq!(plan.swap.input, Payment::new(WEGLD_TOKEN_ID, 0, 1_840));
    assert_eq!(plan.swap.output_token, REWARD_TOKEN_ID);
    assert_eq!(farm.total_fees, 160);
    assert_eq!(
        plan.items,
        vec![
            MexOperationItem::new(FIRST_USER, 1_000),
            MexOperationItem::new(SECOND_USER, 1_000),
        ]
    );

    // the swap performed outside bought 3679 reward tokens; the locked
    // portion is 3679 * 9000 / 9200 = 3599, split by contribution:
    // the first user's share by floor division is 1799, the last user's is
    // the exact remainder 1800, and together they are exactly 3599
    let bought = Payment::new(REWARD_TOKEN_ID, 0, 3_679);
    let (locks, burn) = farm.finish_mex_operations(
        bought, &plan.items, plan.total_fees_collected, STANDARD_SUBSCRIPTION_INDEX);
    assert_eq!(locks.len(), 2);
    assert_eq!(locks[0].destination, FIRST_USER);
    assert_eq!(locks[0].payment.amount, 1_799);
    assert_eq!(locks[1].destination, SECOND_USER);
    assert_eq!(locks[1].payment.amount, 1_800);
    assert_eq!(locks[0].payment.amount + locks[1].payment.amount, 3_599);
    assert_eq!(burn, 3_679 - 3_599);

    // the pooled fees of 160 leave under the weekly allowance of 100
    farm.add_max_fee_withdraw_per_week(100);
    let first_claim = success(farm.claim_fees(OWNER_ADDRESS, 7));
    assert_eq!(first_claim, Payment::new(WEGLD_TOKEN_ID, 0, 100));
    let second_claim = success(farm.claim_fees(OWNER_ADDRESS, 15));
    assert_eq!(second_claim, Payment::new(WEGLD_TOKEN_ID, 0, 60));
    // the fee pool is empty afterwards
    assert_eq!(farm.total_fees, 0);
}

#[test]
fn subtract_worth_of_stable_payment_test() {
    let (mut fee, pairs, mut farm) = init_all();
    // prices denominated in the stable token: 500 and 100
    register_two_tiers(&mut fee, true, 500, 100);
    enroll_user(&mut fee, &pairs, FIRST_USER);
    let user_id = 1;

    let energy: Store<u64> = Store::new();
    // the pool ratio is 1:2, so a 500-stable price costs 250 reference tokens
    let (_premium, standard) = success(farm.subtract_payment_endpoint(&mut fee, &pairs, &energy, OWNER_ADDRESS, 10, &vec![user_id]));
    assert_eq!(standard, vec![user_id]);
    assert_eq!(charged_total(&farm, STANDARD_SUBSCRIPTION_INDEX, user_id), Some(250));
}

/// Unwrap helper for the library's two-variant result.
fn success<T, E: core::fmt::Debug>(r: ScResult<T, E>) -> T {
    match r {
        ScResult::Success(v) => v,
        ScResult::Failure(e) => panic!("unexpected failure: {:?}", e),
    }
}
