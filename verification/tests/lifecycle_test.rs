//! Lifecycle and error-reporting tests: each refusal the library can give
//! has an input here that provokes it.
use subscription_fee::farm_subscriber::FarmSubscriber;
use subscription_fee::fee_contract::SubscriptionFee;
use subscription_fee::pair_actions::{PairDirectory, PairState};
use subscription_fee::payments::Payment;
use subscription_fee::results::{FeeError, ScResult};
use subscription_fee::service::ServiceInfo;
use subscription_fee::subscriber_config::MexActionsPercentages;

const FIRST_TOKEN_ID: u64 = 1;
const USDC_TOKEN_ID: u64 = 2;
const WEGLD_TOKEN_ID: u64 = 3;
const REWARD_TOKEN_ID: u64 = 4;

const PAYMENT_PAIR: u64 = 201;
const STABLE_PAIR: u64 = 202;
const MEX_PAIR: u64 = 203;
const SERVICE_ADDRESS: u64 = 300;
const OWNER_ADDRESS: u64 = 100;
const USER_ADDRESS: u64 = 400;

fn small_fee_contract() -> (SubscriptionFee, PairDirectory) {
    let mut pairs = PairDirectory::new();
    pairs.add_pair(PAYMENT_PAIR, PairState {
        first_token: FIRST_TOKEN_ID,
        second_token: USDC_TOKEN_ID,
        first_reserve: 1_000_000_000,
        second_reserve: 2_000_000_000,
    });
    pairs.add_pair(STABLE_PAIR, PairState {
        first_token: WEGLD_TOKEN_ID,
        second_token: USDC_TOKEN_ID,
        first_reserve: 1_000_000_000,
        second_reserve: 2_000_000_000,
    });
    let mut fee = SubscriptionFee::new(
        USDC_TOKEN_ID,
        WEGLD_TOKEN_ID,
        1_000,
        2,
        1,
        3,
        vec![FIRST_TOKEN_ID, WEGLD_TOKEN_ID],
    )
    .unwrap();
    fee.add_pair_address(FIRST_TOKEN_ID, PAYMENT_PAIR);
    fee.add_pair_address(WEGLD_TOKEN_ID, STABLE_PAIR);
    (fee, pairs)
}

fn plain_descriptor(amount: u64, epochs: u64) -> ServiceInfo {
    ServiceInfo {
        opt_payment_token: Some(FIRST_TOKEN_ID),
        amount,
        payment_in_stable: false,
        subscription_epochs: epochs,
    }
}

#[test]
fn configuration_rejections_test() {
    // a zero minimum deposit value is refused at deployment
    let r = SubscriptionFee::new(USDC_TOKEN_ID, WEGLD_TOKEN_ID, 0, 2, 1, 3, vec![]);
    assert!(matches!(r, Err(FeeError::InvalidConfigValue)));
    // so are identical stable and reference tokens
    let r = SubscriptionFee::new(USDC_TOKEN_ID, USDC_TOKEN_ID, 1, 2, 1, 3, vec![]);
    assert!(matches!(r, Err(FeeError::InvalidConfigValue)));
    // zero caps are refused when set later
    let (mut fee, _pairs) = small_fee_contract();
    assert_eq!(fee.set_max_user_deposits(0), Err(FeeError::InvalidConfigValue));
    assert_eq!(fee.set_max_pending_services(0), Err(FeeError::InvalidConfigValue));
    assert_eq!(fee.set_max_service_info_no(0), Err(FeeError::InvalidConfigValue));
}

#[test]
fn registration_rejections_test() {
    let (mut fee, _pairs) = small_fee_contract();

    // an empty descriptor list
    let r = fee.register_service(SERVICE_ADDRESS, vec![]);
    assert_eq!(r, Err(FeeError::NoArguments));

    // a descriptor naming an unaccepted token
    let bad = ServiceInfo {
        opt_payment_token: Some(REWARD_TOKEN_ID),
        amount: 10,
        payment_in_stable: false,
        subscription_epochs: 1,
    };
    let r = fee.register_service(SERVICE_ADDRESS, vec![bad]);
    assert_eq!(r, Err(FeeError::InvalidToken));

    // the pending queue holds one service; a second address is refused
    fee.register_service(SERVICE_ADDRESS, vec![plain_descriptor(10, 1)]).unwrap();
    let r = fee.register_service(SERVICE_ADDRESS + 1, vec![plain_descriptor(10, 1)]);
    assert_eq!(r, Err(FeeError::MaxPendingServicesReached));

    // approving an address that never registered
    let r = fee.approve_service(SERVICE_ADDRESS + 2);
    assert_eq!(r, Err(FeeError::UnknownService));

    // a registered service may not register again
    fee.approve_service(SERVICE_ADDRESS).unwrap();
    let r = fee.register_service(SERVICE_ADDRESS, vec![plain_descriptor(10, 1)]);
    assert_eq!(r, Err(FeeError::AlreadyRegistered));

    // extra descriptors require an existing registration
    let r = fee.add_extra_services(SERVICE_ADDRESS + 1, vec![plain_descriptor(10, 1)]);
    assert_eq!(r, Err(FeeError::NotRegistered));

    // the live descriptor list is capped at three
    let r = fee.add_extra_services(
        SERVICE_ADDRESS,
        vec![plain_descriptor(10, 1), plain_descriptor(20, 1), plain_descriptor(30, 1)],
    );
    assert_eq!(r, Err(FeeError::MaxServiceInfoReached));
    fee.add_extra_services(SERVICE_ADDRESS, vec![plain_descriptor(10, 1)]).unwrap();
}

#[test]
fn charge_rejections_test() {
    let (mut fee, pairs) = small_fee_contract();
    fee.register_service(
        SERVICE_ADDRESS,
        vec![plain_descriptor(1_000, 1), plain_descriptor(10, 0)],
    )
    .unwrap();
    fee.approve_service(SERVICE_ADDRESS).unwrap();
    fee.deposit(&pairs, USER_ADDRESS, Payment::new(FIRST_TOKEN_ID, 0, 10_000)).unwrap();
    fee.subscribe(USER_ADDRESS, vec![(1, 0), (1, 1)]).unwrap();

    // an unregistered caller cannot charge
    let r = fee.subtract_payment(&pairs, SERVICE_ADDRESS + 1, 0, 1, 10);
    assert_eq!(r, ScResult::Failure(FeeError::CallerNotRegisteredService));

    // an index past the descriptor list
    let r = fee.subtract_payment(&pairs, SERVICE_ADDRESS, 5, 1, 10);
    assert_eq!(r, ScResult::Failure(FeeError::InvalidServiceIndex));

    // a zero-interval descriptor never charges
    let r = fee.subtract_payment(&pairs, SERVICE_ADDRESS, 1, 1, 10);
    assert_eq!(r, ScResult::Failure(FeeError::ZeroInterval));

    // a user id no address was ever issued for
    let r = fee.subtract_payment(&pairs, SERVICE_ADDRESS, 0, 7, 10);
    assert_eq!(r, ScResult::Failure(FeeError::NotSubscribed));
}

#[test]
fn any_token_no_suitable_funds_test() {
    let (mut fee, pairs) = small_fee_contract();
    fee.register_service(
        SERVICE_ADDRESS,
        vec![ServiceInfo {
            opt_payment_token: None,
            amount: 1_000_000_000,
            payment_in_stable: false,
            subscription_epochs: 1,
        }],
    )
    .unwrap();
    fee.approve_service(SERVICE_ADDRESS).unwrap();
    fee.deposit(&pairs, USER_ADDRESS, Payment::new(FIRST_TOKEN_ID, 0, 10_000)).unwrap();
    fee.subscribe(USER_ADDRESS, vec![(1, 0)]).unwrap();

    // no deposited token covers a billion stable units
    let r = fee.subtract_payment(&pairs, SERVICE_ADDRESS, 0, 1, 10);
    assert_eq!(r, ScResult::Failure(FeeError::NoSuitableFunds));
}

#[test]
fn deposit_cap_and_overflow_test() {
    let (mut fee, pairs) = small_fee_contract();
    // the deposit-entry count must stay strictly under the cap of two, so
    // a second distinct token is refused while merging the first is fine
    fee.deposit(&pairs, USER_ADDRESS, Payment::new(FIRST_TOKEN_ID, 0, 10_000)).unwrap();
    let r = fee.deposit(&pairs, USER_ADDRESS, Payment::new(WEGLD_TOKEN_ID, 0, 10_000));
    assert_eq!(r, Err(FeeError::MaxUserDepositsReached));

    // merging past the amount type's capacity is refused, changing nothing;
    // a halving pool keeps the huge deposit's stable value representable
    let mut halving = PairDirectory::new();
    halving.add_pair(PAYMENT_PAIR, PairState {
        first_token: FIRST_TOKEN_ID,
        second_token: USDC_TOKEN_ID,
        first_reserve: 2_000_000_000,
        second_reserve: 1_000_000_000,
    });
    fee.deposit(&halving, USER_ADDRESS, Payment::new(FIRST_TOKEN_ID, 0, u64::MAX - 10_000))
        .unwrap();
    let r = fee.deposit(&halving, USER_ADDRESS, Payment::new(FIRST_TOKEN_ID, 0, 10_001));
    assert_eq!(r, Err(FeeError::AmountOverflow));
}

fn small_farm(pairs: &PairDirectory) -> FarmSubscriber {
    FarmSubscriber::new(
        OWNER_ADDRESS,
        SERVICE_ADDRESS,
        310,
        1_000,
        REWARD_TOKEN_ID,
        WEGLD_TOKEN_ID,
        MexActionsPercentages { lock: 9_000, fees: 800, burn: 200 },
        MexActionsPercentages { lock: 9_000, fees: 800, burn: 200 },
        320,
        MEX_PAIR,
        100,
        0,
        pairs,
    )
    .unwrap()
}

#[test]
fn farm_configuration_rejections_test() {
    let mut pairs = PairDirectory::new();
    pairs.add_pair(MEX_PAIR, PairState {
        first_token: WEGLD_TOKEN_ID,
        second_token: REWARD_TOKEN_ID,
        first_reserve: 1_000,
        second_reserve: 2_000,
    });

    // a split that does not sum to the whole
    let r = FarmSubscriber::new(
        OWNER_ADDRESS, SERVICE_ADDRESS, 310, 1_000, REWARD_TOKEN_ID, WEGLD_TOKEN_ID,
        MexActionsPercentages { lock: 9_000, fees: 800, burn: 300 },
        MexActionsPercentages { lock: 9_000, fees: 800, burn: 200 },
        320, MEX_PAIR, 100, 0, &pairs,
    );
    assert!(matches!(r, Err(FeeError::InvalidPercentages)));

    // a pair that does not trade the expected two tokens
    let r = FarmSubscriber::new(
        OWNER_ADDRESS, SERVICE_ADDRESS, 310, 1_000, FIRST_TOKEN_ID, USDC_TOKEN_ID,
        MexActionsPercentages { lock: 9_000, fees: 800, burn: 200 },
        MexActionsPercentages { lock: 9_000, fees: 800, burn: 200 },
        320, MEX_PAIR, 100, 0, &pairs,
    );
    assert!(matches!(r, Err(FeeError::WrongPairTokens)));
}

#[test]
fn claim_fees_rejections_test() {
    let mut pairs = PairDirectory::new();
    pairs.add_pair(MEX_PAIR, PairState {
        first_token: WEGLD_TOKEN_ID,
        second_token: REWARD_TOKEN_ID,
        first_reserve: 1_000,
        second_reserve: 2_000,
    });
    let mut farm = small_farm(&pairs);

    // only an admin claims
    let r = farm.claim_fees(USER_ADDRESS, 10);
    assert_eq!(r, ScResult::Failure(FeeError::CallerNotAdmin));

    // no weekly allowance configured
    let r = farm.claim_fees(OWNER_ADDRESS, 10);
    assert_eq!(r, ScResult::Failure(FeeError::NoFeeWithdrawLimit));

    farm.add_max_fee_withdraw_per_week(50);
    // the weekly cooldown has not elapsed
    let r = farm.claim_fees(OWNER_ADDRESS, 3);
    assert_eq!(r, ScResult::Failure(FeeError::CannotClaimYet));

    // no claim address configured
    let r = farm.claim_fees(OWNER_ADDRESS, 10);
    assert_eq!(r, ScResult::Failure(FeeError::NoFeesClaimAddress));

    farm.set_fees_claim_address(330);
    let r = farm.claim_fees(OWNER_ADDRESS, 10);
    assert_eq!(r, ScResult::Success(Payment::new(WEGLD_TOKEN_ID, 0, 0)));
}

#[test]
fn mex_round_rejections_test() {
    let mut pairs = PairDirectory::new();
    pairs.add_pair(MEX_PAIR, PairState {
        first_token: WEGLD_TOKEN_ID,
        second_token: REWARD_TOKEN_ID,
        first_reserve: 1_000,
        second_reserve: 2_000,
    });
    let (fee, _) = small_fee_contract();
    let mut farm = small_farm(&pairs);

    let r = farm.perform_mex_operations_endpoint(&fee, USER_ADDRESS, 0, 1, &vec![]);
    assert!(matches!(r, ScResult::Failure(FeeError::CallerNotAdmin)));

    let r = farm.perform_mex_operations_endpoint(&fee, OWNER_ADDRESS, 9, 1, &vec![]);
    assert!(matches!(r, ScResult::Failure(FeeError::InvalidServiceIndex)));

    farm.mex_pair = 0;
    let r = farm.perform_mex_operations_endpoint(&fee, OWNER_ADDRESS, 0, 1, &vec![]);
    assert!(matches!(r, ScResult::Failure(FeeError::NoMexPair)));
}
