//! Tests of the action engine with its strategies, the buy-and-lock batch,
//! the action-token store, and the library's error reporting.
use subscription_fee::base_functions::DummyData;
use subscription_fee::buy_mex::{mex_amounts_from_bought, BuyMexModule, MexOperationRequest};
use subscription_fee::fee_contract::SubscriptionFee;
use subscription_fee::metabonding::MetabondingSubscriber;
use subscription_fee::pair_actions::{PairDirectory, PairState};
use subscription_fee::payments::Payment;
use subscription_fee::results::{FeeError, MyVeryOwnScResult, OperationCompletionStatus, ScResult};
use subscription_fee::service::ServiceInfo;
use subscription_fee::store::{Store, Store2};
use subscription_fee::subscriber::{OngoingOperation, SubscriberContractMain};
use subscription_fee::subscriber_config::MexActionsPercentages;

const FIRST_TOKEN_ID: u64 = 1;
const USDC_TOKEN_ID: u64 = 2;
const WEGLD_TOKEN_ID: u64 = 3;
const REWARD_TOKEN_ID: u64 = 4;

const PAYMENT_PAIR: u64 = 201;
const STABLE_PAIR: u64 = 202;
const MEX_PAIR: u64 = 203;
const SUBSCRIBER_ADDRESS: u64 = 300;
const FEE_CONTRACT_ADDRESS: u64 = 310;
const USER_ADDRESS: u64 = 400;
const SECOND_USER_ADDRESS: u64 = 401;

fn init_world() -> (SubscriptionFee, PairDirectory) {
    let mut pairs = PairDirectory::new();
    pairs.add_pair(PAYMENT_PAIR, PairState {
        first_token: FIRST_TOKEN_ID,
        second_token: USDC_TOKEN_ID,
        first_reserve: 1_000_000_000,
        second_reserve: 2_000_000_000,
    });
    pairs.add_pair(STABLE_PAIR, PairState {
        first_token: WEGLD_TOKEN_ID,
        second_token: USDC_TOKEN_ID,
        first_reserve: 1_000_000_000,
        second_reserve: 2_000_000_000,
    });
    let mut fee = SubscriptionFee::new(
        USDC_TOKEN_ID,
        WEGLD_TOKEN_ID,
        1_000_000,
        5,
        5,
        5,
        vec![FIRST_TOKEN_ID],
    )
    .unwrap();
    fee.add_pair_address(FIRST_TOKEN_ID, PAYMENT_PAIR);
    fee.add_pair_address(WEGLD_TOKEN_ID, STABLE_PAIR);
    fee.register_service(
        SUBSCRIBER_ADDRESS,
        vec![
            ServiceInfo {
                opt_payment_token: Some(FIRST_TOKEN_ID),
                amount: 1_000,
                payment_in_stable: false,
                subscription_epochs: 1,
            },
            ServiceInfo {
                opt_payment_token: Some(FIRST_TOKEN_ID),
                amount: 500,
                payment_in_stable: false,
                subscription_epochs: 1,
            },
        ],
    )
    .unwrap();
    fee.approve_service(SUBSCRIBER_ADDRESS).unwrap();
    for user in [USER_ADDRESS, SECOND_USER_ADDRESS] {
        fee.deposit(&pairs, user, Payment::new(FIRST_TOKEN_ID, 0, 1_000_000)).unwrap();
        fee.subscribe(user, vec![(1, 0)]).unwrap();
    }
    (fee, pairs)
}

#[test]
fn dummy_action_engine_completes_test() {
    let (fee, _pairs) = init_world();
    let mut subscriber = SubscriberContractMain::new(SUBSCRIBER_ADDRESS, FEE_CONTRACT_ADDRESS);

    let r = subscriber.dummy_perform_action(&fee, 0, 5, 100);
    assert_eq!(r, ScResult::Success(OperationCompletionStatus::Completed));
    assert_eq!(subscriber.ongoing, OngoingOperation::Idle);
    // both subscribers were visited
    assert_eq!(subscriber.user_index, 3);
}

#[test]
fn dummy_action_engine_interrupt_and_resume_test() {
    let (fee, _pairs) = init_world();
    let mut subscriber = SubscriberContractMain::new(SUBSCRIBER_ADDRESS, FEE_CONTRACT_ADDRESS);

    let r = subscriber.dummy_perform_action(&fee, 0, 5, 1);
    assert_eq!(r, ScResult::Success(OperationCompletionStatus::InterruptedBeforeOutOfGas));
    assert!(matches!(subscriber.ongoing, OngoingOperation::ClaimRewards(_)));

    // a different target conflicts while the batch is in flight
    let conflict = subscriber.dummy_perform_action(&fee, 1, 5, 10);
    assert_eq!(conflict, ScResult::Failure(FeeError::ConflictingOperation));

    let resume = subscriber.dummy_perform_action(&fee, 0, 5, 10);
    assert_eq!(resume, ScResult::Success(OperationCompletionStatus::Completed));
    assert_eq!(subscriber.ongoing, OngoingOperation::Idle);
}

#[test]
fn metabonding_premium_eligibility_test() {
    let (fee, _pairs) = init_world();
    let mut metabonding =
        MetabondingSubscriber::new(SUBSCRIBER_ADDRESS, FEE_CONTRACT_ADDRESS, 1_000);
    let mut energy: Store<u64> = Store::new();
    energy.set(USER_ADDRESS, 1_500);
    energy.set(SECOND_USER_ADDRESS, 200);

    // the premium tier has no subscribers here, so nothing is claimed
    let args = vec![(1, 10, 20, vec![1u8, 2, 3]), (1, 30, 40, vec![4u8, 5, 6])];
    let r = metabonding.perform_action_endpoint(&fee, &energy, 1, args, 5, 100);
    match r {
        ScResult::Success((status, caller_rewards, processed_users)) => {
            assert_eq!(status, OperationCompletionStatus::Completed);
            assert_eq!(caller_rewards.len(), 0);
            assert_eq!(processed_users.len(), 0);
        }
        ScResult::Failure(e) => panic!("unexpected failure: {:?}", e),
    }

    // the standard tier claims for every subscriber of index zero; the
    // strategy itself moves no tokens, so the caller is owed nothing here
    let args = vec![(1, 10, 20, vec![1u8, 2, 3]), (1, 30, 40, vec![4u8, 5, 6])];
    let r = metabonding.perform_action_endpoint(&fee, &energy, 0, args, 5, 100);
    match r {
        ScResult::Success((status, caller_rewards, processed_users)) => {
            assert_eq!(status, OperationCompletionStatus::Completed);
            assert_eq!(caller_rewards.len(), 0);
            assert_eq!(processed_users, vec![USER_ADDRESS, SECOND_USER_ADDRESS]);
        }
        ScResult::Failure(e) => panic!("unexpected failure: {:?}", e),
    }

    let r = metabonding.perform_action_endpoint(&fee, &energy, 2, vec![], 5, 100);
    assert!(matches!(r, ScResult::Failure(FeeError::InvalidIndex)));
}

#[test]
fn buy_mex_batch_collects_pending_charges_test() {
    let (mut fee, pairs) = init_world();
    let mut subscriber = SubscriberContractMain::new(SUBSCRIBER_ADDRESS, FEE_CONTRACT_ADDRESS);
    // charge both subscribers so pending fees await the buy-and-lock batch
    let r1 = subscriber.subtract_user_payment(&mut fee, &pairs, 0, 1, 10);
    let r2 = subscriber.subtract_user_payment(&mut fee, &pairs, 0, 2, 10);
    assert_eq!(r1, MyVeryOwnScResult::Success(()));
    assert_eq!(r2, MyVeryOwnScResult::Success(()));

    let mut module = BuyMexModule {
        base: subscriber,
        mex_token_id: REWARD_TOKEN_ID,
        mex_pairs: Store::new(),
        simple_lock_address: 320,
        lock_period: 100,
        normal_user_percentage: MexActionsPercentages { lock: 9_000, fees: 800, burn: 200 },
        premium_user_percentage: MexActionsPercentages { lock: 9_000, fees: 800, burn: 200 },
        total_fees: subscription_fee::payments::UniquePayments::new(),
    };
    module.add_mex_pair(FIRST_TOKEN_ID, MEX_PAIR);

    // interrupted after one user, resumed to completion
    let r = module.perform_mex_operations_endpoint(&fee, 0, 1);
    match r {
        ScResult::Success((status, requests)) => {
            assert_eq!(status, OperationCompletionStatus::InterruptedBeforeOutOfGas);
            assert_eq!(requests, vec![MexOperationRequest {
                user_address: USER_ADDRESS,
                pair_address: MEX_PAIR,
                fee_payment: Payment::new(FIRST_TOKEN_ID, 0, 1_000),
            }]);
        }
        ScResult::Failure(e) => panic!("unexpected failure: {:?}", e),
    }
    let r = module.perform_mex_operations_endpoint(&fee, 0, 10);
    match r {
        ScResult::Success((status, requests)) => {
            assert_eq!(status, OperationCompletionStatus::Completed);
            assert_eq!(requests, vec![MexOperationRequest {
                user_address: SECOND_USER_ADDRESS,
                pair_address: MEX_PAIR,
                fee_payment: Payment::new(FIRST_TOKEN_ID, 0, 1_000),
            }]);
        }
        ScResult::Failure(e) => panic!("unexpected failure: {:?}", e),
    }
    // the fee portions of both charges were pooled: 80 each
    let pooled = module.total_fees.into_payments();
    assert_eq!(pooled, vec![Payment::new(FIRST_TOKEN_ID, 0, 160)]);

    let (to_lock, to_burn) = mex_amounts_from_bought(
        1_799, &MexActionsPercentages { lock: 9_000, fees: 800, burn: 200 });
    assert_eq!(to_lock, 1_799 * 9_000 / 10_000);
    assert_eq!(to_lock + to_burn, 1_799);
}

#[test]
fn user_tokens_deposit_and_tolerant_withdraw_test() {
    let (mut fee, _pairs) = init_world();
    let mut accepted: Vec<u64> = Vec::new();
    accepted.push(REWARD_TOKEN_ID);
    fee.add_accepted_user_tokens(&accepted);

    fee.deposit_tokens(USER_ADDRESS, Payment::new(REWARD_TOKEN_ID, 0, 500)).unwrap();
    fee.deposit_tokens(USER_ADDRESS, Payment::new(REWARD_TOKEN_ID, 0, 250)).unwrap();

    let r = fee.deposit_tokens(USER_ADDRESS, Payment::new(FIRST_TOKEN_ID, 0, 10));
    assert_eq!(r, Err(FeeError::InvalidPaymentToken));

    // a mixed request: an unknown nonce and an oversized amount are skipped,
    // the valid triple pays out
    let outputs = fee
        .withdraw_tokens(
            USER_ADDRESS,
            &vec![(REWARD_TOKEN_ID, 1, 100), (REWARD_TOKEN_ID, 0, 5_000), (REWARD_TOKEN_ID, 0, 700)],
        )
        .unwrap();
    assert_eq!(outputs, vec![Payment::new(REWARD_TOKEN_ID, 0, 700)]);
}

#[test]
fn prepare_action_payment_test() {
    let (mut fee, _pairs) = init_world();
    let mut accepted: Vec<u64> = Vec::new();
    accepted.push(REWARD_TOKEN_ID);
    fee.add_accepted_user_tokens(&accepted);
    fee.deposit_tokens(USER_ADDRESS, Payment::new(REWARD_TOKEN_ID, 0, 500)).unwrap();

    // no endpoint payment named: the action goes out without one
    let r = fee.prepare_action_payment(1, None);
    assert_eq!(r, Ok(None));

    // the named token is taken from the user's held action tokens
    let r = fee.prepare_action_payment(1, Some(REWARD_TOKEN_ID));
    assert_eq!(r, Ok(Some(Payment::new(REWARD_TOKEN_ID, 0, 500))));

    // a second take finds nothing left and fails for this user only
    let r = fee.prepare_action_payment(1, Some(REWARD_TOKEN_ID));
    assert_eq!(r, Err(FeeError::InsufficientFunds));
}

#[test]
fn deposit_rejections_test() {
    let (mut fee, pairs) = init_world();
    // an empty payment
    let r = fee.deposit(&pairs, USER_ADDRESS, Payment::new(FIRST_TOKEN_ID, 0, 0));
    assert_eq!(r, Err(FeeError::NoPayment));
    // a non-fungible payment
    let r = fee.deposit(&pairs, USER_ADDRESS, Payment::new(FIRST_TOKEN_ID, 7, 10));
    assert_eq!(r, Err(FeeError::NonFungiblePayment));
    // a token outside the accepted set
    let r = fee.deposit(&pairs, USER_ADDRESS, Payment::new(REWARD_TOKEN_ID, 0, 10));
    assert_eq!(r, Err(FeeError::InvalidPaymentToken));
    // a deposit whose stable value is at most the minimum
    let r = fee.deposit(&pairs, USER_ADDRESS, Payment::new(FIRST_TOKEN_ID, 0, 100));
    assert_eq!(r, Err(FeeError::ValueBelowMinimum));
    // a token with no registered pair cannot be priced
    let mut more: Vec<u64> = Vec::new();
    more.push(WEGLD_TOKEN_ID + 100);
    fee.add_accepted_fees_tokens(&more);
    let r = fee.deposit(&pairs, USER_ADDRESS, Payment::new(WEGLD_TOKEN_ID + 100, 0, 10));
    assert_eq!(r, Err(FeeError::PriceQueryFailed));
}
