//! Scenario tests of the generic subscriber contract against the fee
//! contract: registration through the subscriber, and the resumable charge
//! batch with its checkpoint, single-flight and resumption behaviour.
use subscription_fee::fee_contract::SubscriptionFee;
use subscription_fee::pair_actions::{PairDirectory, PairState};
use subscription_fee::payments::Payment;
use subscription_fee::results::{FeeError, MyVeryOwnScResult, OperationCompletionStatus, ScResult};
use subscription_fee::service::ServiceInfo;
use subscription_fee::subscriber::{OngoingOperation, SubscriberContractMain};

const FIRST_TOKEN_ID: u64 = 1;
const USDC_TOKEN_ID: u64 = 2;
const WEGLD_TOKEN_ID: u64 = 3;

const PAYMENT_PAIR: u64 = 201;
const STABLE_PAIR: u64 = 202;
const SUBSCRIBER_ADDRESS: u64 = 300;
const FEE_CONTRACT_ADDRESS: u64 = 310;
const USER_ADDRESS: u64 = 400;
const SECOND_USER_ADDRESS: u64 = 401;

fn init_all() -> (SubscriptionFee, PairDirectory, SubscriberContractMain) {
    let mut pairs = PairDirectory::new();
    pairs.add_pair(PAYMENT_PAIR, PairState {
        first_token: FIRST_TOKEN_ID,
        second_token: USDC_TOKEN_ID,
        first_reserve: 1_000_000_000,
        second_reserve: 2_000_000_000,
    });
    pairs.add_pair(STABLE_PAIR, PairState {
        first_token: WEGLD_TOKEN_ID,
        second_token: USDC_TOKEN_ID,
        first_reserve: 1_000_000_000,
        second_reserve: 2_000_000_000,
    });
    let mut fee = SubscriptionFee::new(
        USDC_TOKEN_ID,
        WEGLD_TOKEN_ID,
        1_000_000,
        5,
        5,
        5,
        vec![FIRST_TOKEN_ID],
    )
    .unwrap();
    fee.add_pair_address(FIRST_TOKEN_ID, PAYMENT_PAIR);
    fee.add_pair_address(WEGLD_TOKEN_ID, STABLE_PAIR);
    let subscriber = SubscriberContractMain::new(SUBSCRIBER_ADDRESS, FEE_CONTRACT_ADDRESS);
    (fee, pairs, subscriber)
}

fn two_descriptors() -> Vec<ServiceInfo> {
    vec![
        ServiceInfo {
            opt_payment_token: Some(FIRST_TOKEN_ID),
            amount: 1_000,
            payment_in_stable: false,
            subscription_epochs: 1,
        },
        ServiceInfo {
            opt_payment_token: Some(FIRST_TOKEN_ID),
            amount: 500,
            payment_in_stable: false,
            subscription_epochs: 1,
        },
    ]
}

fn user_balance(fee: &SubscriptionFee, user_id: u64, token: u64) -> u64 {
    match fee.user_deposited_fees.get(user_id) {
        Some(funds) => {
            let list = funds.clone_payments().into_payments();
            let mut held: u64 = 0;
            for p in list {
                if p.token_identifier == token {
                    held += p.amount;
                }
            }
            held
        }
        None => 0,
    }
}

#[test]
fn subscriber_test_init_test() {
    let _ = init_all();
}

#[test]
fn subscriber_test_register_service_test() {
    let (mut fee, _pairs, _subscriber) = init_all();
    fee.register_service(SUBSCRIBER_ADDRESS, two_descriptors()).unwrap();
    fee.approve_service(SUBSCRIBER_ADDRESS).unwrap();
}

#[test]
fn unregister_test() {
    let (mut fee, _pairs, _subscriber) = init_all();
    fee.register_service(SUBSCRIBER_ADDRESS, two_descriptors()).unwrap();
    fee.approve_service(SUBSCRIBER_ADDRESS).unwrap();
    fee.unregister_service(SUBSCRIBER_ADDRESS);
}

#[test]
fn try_subscribe_after_unregister() {
    let (mut fee, pairs, _subscriber) = init_all();
    fee.register_service(SUBSCRIBER_ADDRESS, two_descriptors()).unwrap();
    fee.approve_service(SUBSCRIBER_ADDRESS).unwrap();
    fee.unregister_service(SUBSCRIBER_ADDRESS);

    fee.deposit(&pairs, USER_ADDRESS, Payment::new(FIRST_TOKEN_ID, 0, 1_000_000))
        .unwrap();
    let r = fee.subscribe(USER_ADDRESS, vec![(1, 0)]);
    assert_eq!(r, Err(FeeError::InvalidServiceIndex));
}

#[test]
fn subscriber_test_subscribe_ok_test() {
    let (mut fee, pairs, _subscriber) = init_all();
    fee.register_service(SUBSCRIBER_ADDRESS, two_descriptors()).unwrap();
    fee.approve_service(SUBSCRIBER_ADDRESS).unwrap();

    fee.deposit(&pairs, USER_ADDRESS, Payment::new(FIRST_TOKEN_ID, 0, 1_000_000))
        .unwrap();
    fee.subscribe(USER_ADDRESS, vec![(1, 0)]).unwrap();
}

fn setup_batch_world() -> (SubscriptionFee, PairDirectory, SubscriberContractMain) {
    let (mut fee, pairs, subscriber) = init_all();
    fee.register_service(SUBSCRIBER_ADDRESS, two_descriptors()).unwrap();
    fee.approve_service(SUBSCRIBER_ADDRESS).unwrap();
    fee.deposit(&pairs, USER_ADDRESS, Payment::new(FIRST_TOKEN_ID, 0, 1_000_000))
        .unwrap();
    fee.deposit(&pairs, SECOND_USER_ADDRESS, Payment::new(FIRST_TOKEN_ID, 0, 1_000_000))
        .unwrap();
    fee.subscribe(USER_ADDRESS, vec![(1, 0)]).unwrap();
    fee.subscribe(SECOND_USER_ADDRESS, vec![(1, 0)]).unwrap();
    (fee, pairs, subscriber)
}

#[test]
fn at_most_one_outstanding_charge_test() {
    let (mut fee, pairs, mut subscriber) = setup_batch_world();

    let first = subscriber.subtract_user_payment(&mut fee, &pairs, 0, 1, 10);
    assert_eq!(first, MyVeryOwnScResult::Success(()));
    assert_eq!(user_balance(&fee, 1, FIRST_TOKEN_ID), 999_000);

    // the debited payment has not been consumed, so a second charge fails
    // and the ledger still shows exactly one debit
    let second = subscriber.subtract_user_payment(&mut fee, &pairs, 0, 1, 40);
    assert_eq!(second, MyVeryOwnScResult::Failure(FeeError::LastFeesNotProcessed));
    assert_eq!(user_balance(&fee, 1, FIRST_TOKEN_ID), 999_000);
}

#[test]
fn batch_resumption_partition_test() {
    // one uninterrupted run
    let (mut fee_a, pairs_a, mut subscriber_a) = setup_batch_world();
    let r = subscriber_a.subtract_payment_endpoint(&mut fee_a, &pairs_a, 0, 10, 100);
    assert_eq!(r, ScResult::Success(OperationCompletionStatus::Completed));

    // the same work split into single-step calls
    let (mut fee_b, pairs_b, mut subscriber_b) = setup_batch_world();
    let r1 = subscriber_b.subtract_payment_endpoint(&mut fee_b, &pairs_b, 0, 10, 1);
    assert_eq!(r1, ScResult::Success(OperationCompletionStatus::InterruptedBeforeOutOfGas));
    // the second single-step call processes the last user and observes
    // completion in the same call
    let r2 = subscriber_b.subtract_payment_endpoint(&mut fee_b, &pairs_b, 0, 10, 1);
    assert_eq!(r2, ScResult::Success(OperationCompletionStatus::Completed));

    // both partitions reach the same final state
    assert_eq!(user_balance(&fee_a, 1, FIRST_TOKEN_ID), 999_000);
    assert_eq!(user_balance(&fee_a, 2, FIRST_TOKEN_ID), 999_000);
    assert_eq!(user_balance(&fee_b, 1, FIRST_TOKEN_ID), 999_000);
    assert_eq!(user_balance(&fee_b, 2, FIRST_TOKEN_ID), 999_000);
    assert_eq!(subscriber_a.ongoing, OngoingOperation::Idle);
    assert_eq!(subscriber_b.ongoing, OngoingOperation::Idle);
    assert_eq!(subscriber_a.subtract_user_index, subscriber_b.subtract_user_index);
    assert_eq!(
        subscriber_a.user_fees.get(0, 1).copied(),
        subscriber_b.user_fees.get(0, 1).copied()
    );
    assert_eq!(
        subscriber_a.user_fees.get(0, 2).copied(),
        subscriber_b.user_fees.get(0, 2).copied()
    );

    // both worlds have scheduled the next pass: calling again is refused
    let again = subscriber_a.subtract_payment_endpoint(&mut fee_a, &pairs_a, 0, 11, 100);
    assert_eq!(again, ScResult::Failure(FeeError::CannotSubtractYet));
}

#[test]
fn single_flight_enforcement_test() {
    let (mut fee, pairs, mut subscriber) = setup_batch_world();

    // start a batch for one index and interrupt it
    let r = subscriber.subtract_payment_endpoint(&mut fee, &pairs, 0, 10, 1);
    assert_eq!(r, ScResult::Success(OperationCompletionStatus::InterruptedBeforeOutOfGas));
    let checkpoint = subscriber.ongoing;

    // a call naming another index must fail and change nothing
    let conflict = subscriber.subtract_payment_endpoint(&mut fee, &pairs, 1, 10, 100);
    assert_eq!(conflict, ScResult::Failure(FeeError::ConflictingOperation));
    assert_eq!(subscriber.ongoing, checkpoint);

    // resuming the pinned index is allowed and completes the batch
    let resume = subscriber.subtract_payment_endpoint(&mut fee, &pairs, 0, 10, 100);
    assert_eq!(resume, ScResult::Success(OperationCompletionStatus::Completed));
    assert_eq!(subscriber.ongoing, OngoingOperation::Idle);
}
