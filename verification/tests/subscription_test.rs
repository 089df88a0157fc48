//! Scenario tests of the central fee contract: registration lifecycle,
//! deposits, subscriptions, charges and withdrawals.
use subscription_fee::fee_contract::SubscriptionFee;
use subscription_fee::pair_actions::{PairDirectory, PairState};
use subscription_fee::payments::Payment;
use subscription_fee::results::{FeeError, ScResult};
use subscription_fee::service::ServiceInfo;

const FIRST_TOKEN_ID: u64 = 1;
const USDC_TOKEN_ID: u64 = 2;
const WEGLD_TOKEN_ID: u64 = 3;

const PAYMENT_PAIR: u64 = 201;
const STABLE_PAIR: u64 = 202;
const SERVICE_ADDRESS: u64 = 300;
const USER_ADDRESS: u64 = 400;

const MIN_USER_DEPOSIT_VALUE: u64 = 1_000_000;
const DAILY_SUBSCRIPTION_EPOCHS: u64 = 1;

fn init_all() -> (SubscriptionFee, PairDirectory) {
    let mut pairs = PairDirectory::new();
    pairs.add_pair(PAYMENT_PAIR, PairState {
        first_token: FIRST_TOKEN_ID,
        second_token: WEGLD_TOKEN_ID,
        first_reserve: 1_000_000_000,
        second_reserve: 1_000_000_000,
    });
    pairs.add_pair(STABLE_PAIR, PairState {
        first_token: WEGLD_TOKEN_ID,
        second_token: USDC_TOKEN_ID,
        first_reserve: 1_000_000_000,
        second_reserve: 2_000_000_000,
    });
    let mut fee = SubscriptionFee::new(
        USDC_TOKEN_ID,
        WEGLD_TOKEN_ID,
        MIN_USER_DEPOSIT_VALUE,
        5,
        5,
        5,
        vec![FIRST_TOKEN_ID],
    )
    .unwrap();
    fee.add_pair_address(FIRST_TOKEN_ID, PAYMENT_PAIR);
    fee.add_pair_address(WEGLD_TOKEN_ID, STABLE_PAIR);
    (fee, pairs)
}

fn descriptor(token: Option<u64>, amount: u64, in_stable: bool, epochs: u64) -> ServiceInfo {
    ServiceInfo {
        opt_payment_token: token,
        amount,
        payment_in_stable: in_stable,
        subscription_epochs: epochs,
    }
}

fn register_and_approve(fee: &mut SubscriptionFee, descriptors: Vec<ServiceInfo>) -> u64 {
    fee.register_service(SERVICE_ADDRESS, descriptors).unwrap();
    fee.approve_service(SERVICE_ADDRESS).unwrap()
}

fn deposit_first_token(fee: &mut SubscriptionFee, pairs: &PairDirectory, amount: u64) {
    fee.deposit(pairs, USER_ADDRESS, Payment::new(FIRST_TOKEN_ID, 0, amount))
        .unwrap();
}

fn user_balance(fee: &SubscriptionFee, user_id: u64, token: u64) -> u64 {
    match fee.user_deposited_fees.get(user_id) {
        Some(funds) => {
            let list = funds.clone_payments().into_payments();
            let mut held: u64 = 0;
            for p in list {
                if p.token_identifier == token {
                    held += p.amount;
                }
            }
            held
        }
        None => 0,
    }
}

#[test]
fn subscription_test_init_test() {
    let _ = init_all();
}

#[test]
fn subscription_test_register_service_test() {
    let (mut fee, _pairs) = init_all();
    fee.register_service(
        SERVICE_ADDRESS,
        vec![descriptor(Some(FIRST_TOKEN_ID), 1_000, false, DAILY_SUBSCRIPTION_EPOCHS)],
    )
    .unwrap();
}

#[test]
fn approve_test() {
    let (mut fee, _pairs) = init_all();
    fee.register_service(
        SERVICE_ADDRESS,
        vec![descriptor(Some(FIRST_TOKEN_ID), 1_000, false, DAILY_SUBSCRIPTION_EPOCHS)],
    )
    .unwrap();
    let service_id = fee.approve_service(SERVICE_ADDRESS).unwrap();
    assert_eq!(service_id, 1);
}

#[test]
fn unregister_service_test() {
    let (mut fee, _pairs) = init_all();
    let _ = register_and_approve(
        &mut fee,
        vec![descriptor(Some(FIRST_TOKEN_ID), 1_000, false, DAILY_SUBSCRIPTION_EPOCHS)],
    );
    fee.unregister_service(SERVICE_ADDRESS);
    assert!(fee.service_info.get(1).is_none());
}

#[test]
fn subscribe_before_deposit_test() {
    let (mut fee, _pairs) = init_all();
    fee.register_service(
        SERVICE_ADDRESS,
        vec![descriptor(Some(FIRST_TOKEN_ID), 1_000, false, DAILY_SUBSCRIPTION_EPOCHS)],
    )
    .unwrap();
    let r = fee.subscribe(USER_ADDRESS, vec![(1, 0)]);
    assert_eq!(r, Err(FeeError::UnknownAddress));
}

#[test]
fn subscribe_before_approve_test() {
    let (mut fee, pairs) = init_all();
    fee.register_service(
        SERVICE_ADDRESS,
        vec![descriptor(Some(FIRST_TOKEN_ID), 1_000, false, DAILY_SUBSCRIPTION_EPOCHS)],
    )
    .unwrap();
    deposit_first_token(&mut fee, &pairs, 1_000_000);
    let r = fee.subscribe(USER_ADDRESS, vec![(1, 0)]);
    assert_eq!(r, Err(FeeError::InvalidServiceIndex));
}

#[test]
fn subscription_test_subscribe_ok_test() {
    let (mut fee, pairs) = init_all();
    let _ = register_and_approve(
        &mut fee,
        vec![descriptor(Some(FIRST_TOKEN_ID), 1_000, false, DAILY_SUBSCRIPTION_EPOCHS)],
    );
    deposit_first_token(&mut fee, &pairs, 1_000_000);
    fee.subscribe(USER_ADDRESS, vec![(1, 0)]).unwrap();
}

#[test]
fn subtract_ok_test() {
    let (mut fee, pairs) = init_all();
    let _ = register_and_approve(
        &mut fee,
        vec![descriptor(Some(FIRST_TOKEN_ID), 1_000, false, DAILY_SUBSCRIPTION_EPOCHS)],
    );
    deposit_first_token(&mut fee, &pairs, 1_000_000);
    fee.subscribe(USER_ADDRESS, vec![(1, 0)]).unwrap();

    let r = fee.subtract_payment(&pairs, SERVICE_ADDRESS, 0, 1, 10);
    assert_eq!(r, ScResult::Success(Payment::new(FIRST_TOKEN_ID, 0, 1_000)));
    assert_eq!(user_balance(&fee, 1, FIRST_TOKEN_ID), 999_000);
}

#[test]
fn try_subtract_twice_same_day() {
    let (mut fee, pairs) = init_all();
    let _ = register_and_approve(
        &mut fee,
        vec![descriptor(Some(FIRST_TOKEN_ID), 1_000, false, DAILY_SUBSCRIPTION_EPOCHS)],
    );
    deposit_first_token(&mut fee, &pairs, 1_000_000);
    fee.subscribe(USER_ADDRESS, vec![(1, 0)]).unwrap();

    let r = fee.subtract_payment(&pairs, SERVICE_ADDRESS, 0, 1, 10);
    assert_eq!(r, ScResult::Success(Payment::new(FIRST_TOKEN_ID, 0, 1_000)));

    let again = fee.subtract_payment(&pairs, SERVICE_ADDRESS, 0, 1, 10);
    assert_eq!(again, ScResult::Failure(FeeError::TooSoon));
    // still the same balance
    assert_eq!(user_balance(&fee, 1, FIRST_TOKEN_ID), 999_000);
}

#[test]
fn any_token_subtract_fee_test() {
    let (mut fee, pairs) = init_all();
    let _ = register_and_approve(
        &mut fee,
        vec![descriptor(None, 1_000, false, DAILY_SUBSCRIPTION_EPOCHS)],
    );
    deposit_first_token(&mut fee, &pairs, 1_000_000);
    fee.subscribe(USER_ADDRESS, vec![(1, 0)]).unwrap();

    // the pair has a 1:2 token ratio, so covering the 1000-stable price
    // takes 500 deposited tokens
    let r = fee.subtract_payment(&pairs, SERVICE_ADDRESS, 0, 1, 10);
    assert_eq!(r, ScResult::Success(Payment::new(FIRST_TOKEN_ID, 0, 500)));
    assert_eq!(user_balance(&fee, 1, FIRST_TOKEN_ID), 999_500);
}

#[test]
fn withdraw_tokens_test() {
    let (mut fee, pairs) = init_all();
    let _ = register_and_approve(
        &mut fee,
        vec![descriptor(Some(FIRST_TOKEN_ID), 1_000, false, DAILY_SUBSCRIPTION_EPOCHS)],
    );
    deposit_first_token(&mut fee, &pairs, 1_000_000);
    fee.subscribe(USER_ADDRESS, vec![(1, 0)]).unwrap();

    let outputs = fee
        .withdraw_funds(USER_ADDRESS, &vec![(FIRST_TOKEN_ID, 999_999)])
        .unwrap();
    assert_eq!(outputs, vec![Payment::new(FIRST_TOKEN_ID, 0, 999_999)]);
    assert_eq!(user_balance(&fee, 1, FIRST_TOKEN_ID), 1);

    // not enough left to subtract
    let r = fee.subtract_payment(&pairs, SERVICE_ADDRESS, 0, 1, 10);
    assert_eq!(r, ScResult::Failure(FeeError::InsufficientFunds));
    assert_eq!(user_balance(&fee, 1, FIRST_TOKEN_ID), 1);
}

#[test]
fn try_substract_from_unsubscribed_user_test() {
    let (mut fee, pairs) = init_all();
    // a service with two descriptor indexes
    let _ = register_and_approve(
        &mut fee,
        vec![
            descriptor(Some(FIRST_TOKEN_ID), 1_000, false, DAILY_SUBSCRIPTION_EPOCHS),
            descriptor(Some(FIRST_TOKEN_ID), 500, false, DAILY_SUBSCRIPTION_EPOCHS),
        ],
    );
    deposit_first_token(&mut fee, &pairs, 1_000_000);
    // the user subscribes to the second descriptor index only
    fee.subscribe(USER_ADDRESS, vec![(1, 1)]).unwrap();

    // charging under the wrong index reports a failure without stopping anything
    let r = fee.subtract_payment(&pairs, SERVICE_ADDRESS, 0, 1, 10);
    assert!(r.is_err());
    assert_eq!(user_balance(&fee, 1, FIRST_TOKEN_ID), 1_000_000);

    // the user pays the fee for the correct index
    let r = fee.subtract_payment(&pairs, SERVICE_ADDRESS, 1, 1, 10);
    assert_eq!(r, ScResult::Success(Payment::new(FIRST_TOKEN_ID, 0, 500)));
    assert_eq!(user_balance(&fee, 1, FIRST_TOKEN_ID), 999_500);
}

#[test]
fn withdraw_mixed_valid_and_invalid_entries_test() {
    let (mut fee, pairs) = init_all();
    deposit_first_token(&mut fee, &pairs, 1_000_000);

    // one entry the user holds, one naming an unknown token, one too large:
    // only the valid entry produces a transfer, nothing fails
    let outputs = fee
        .withdraw_funds(
            USER_ADDRESS,
            &vec![(WEGLD_TOKEN_ID, 5), (FIRST_TOKEN_ID, 400_000), (FIRST_TOKEN_ID, 700_000)],
        )
        .unwrap();
    assert_eq!(outputs, vec![Payment::new(FIRST_TOKEN_ID, 0, 400_000)]);
    assert_eq!(user_balance(&fee, 1, FIRST_TOKEN_ID), 600_000);
}

#[test]
fn subtract_cooldown_scenario_test() {
    // descriptor: token T, amount 1000, interval 7 epochs; the user deposits
    // a million of T at epoch 2
    let (mut fee, pairs) = init_all();
    let _ = register_and_approve(
        &mut fee,
        vec![descriptor(Some(FIRST_TOKEN_ID), 1_000, false, 7)],
    );
    deposit_first_token(&mut fee, &pairs, 1_000_000);
    fee.subscribe(USER_ADDRESS, vec![(1, 0)]).unwrap();

    // at epoch 2 the interval measured from the zero last-action epoch has
    // not elapsed: 2 < 0 + 7
    let r = fee.subtract_payment(&pairs, SERVICE_ADDRESS, 0, 1, 2);
    assert_eq!(r, ScResult::Failure(FeeError::TooSoon));

    // at epoch 9 the charge succeeds and debits 1000, putting the next
    // eligible epoch at 16
    let r = fee.subtract_payment(&pairs, SERVICE_ADDRESS, 0, 1, 9);
    assert_eq!(r, ScResult::Success(Payment::new(FIRST_TOKEN_ID, 0, 1_000)));
    assert_eq!(user_balance(&fee, 1, FIRST_TOKEN_ID), 999_000);

    // a repeat at epoch 10 is too soon
    let r = fee.subtract_payment(&pairs, SERVICE_ADDRESS, 0, 1, 10);
    assert_eq!(r, ScResult::Failure(FeeError::TooSoon));

    // at epoch 16 it succeeds again
    let r = fee.subtract_payment(&pairs, SERVICE_ADDRESS, 0, 1, 16);
    assert_eq!(r, ScResult::Success(Payment::new(FIRST_TOKEN_ID, 0, 1_000)));
    assert_eq!(user_balance(&fee, 1, FIRST_TOKEN_ID), 998_000);
}
