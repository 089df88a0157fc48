//! Result types that cross contract boundaries. A failing call reported
//! through these values does not abort the calling transaction: the caller
//! inspects the variant and goes on, which is what lets a batch tolerate
//! per-user failures.
use vstd::prelude::*;

verus! {

/// Outcome of a call into the fee contract.
#[must_use]
#[derive(Debug, PartialEq, Eq, Structural, Clone, Copy)]
pub enum ScResult<T, E> {
    Success(T),
    Failure(E),
}

impl<T, E> ScResult<T, E> {
    pub fn is_err(&self) -> (r: bool)
        ensures
            r == (self is Failure),
    {
        match self {
            ScResult::Success(_) => false,
            ScResult::Failure(_) => true,
        }
    }
}

/// Outcome of a per-user step inside a batch; kept apart from `ScResult`
/// so the two kinds of boundary cannot be mixed up.
#[must_use]
#[derive(Debug, PartialEq, Eq, Structural, Clone, Copy)]
pub enum MyVeryOwnScResult<T, E> {
    Success(T),
    Failure(E),
}

impl<T, E> MyVeryOwnScResult<T, E> {
    pub fn is_err(&self) -> (r: bool)
        ensures
            r == (self is Failure),
    {
        match self {
            MyVeryOwnScResult::Success(_) => false,
            MyVeryOwnScResult::Failure(_) => true,
        }
    }
}

/// How a budget-bounded batch call ended: either every pending item was
/// processed, or the budget ran out first and a checkpoint was kept.
#[derive(Debug, PartialEq, Eq, Structural, Clone, Copy)]
pub enum OperationCompletionStatus {
    Completed,
    InterruptedBeforeOutOfGas,
}

/// Why a call into the fee contract was refused.
#[derive(Debug, PartialEq, Eq, Structural, Clone, Copy)]
pub enum FeeError {
    /// The argument list was empty.
    NoArguments,
    /// The caller already holds a registration.
    AlreadyRegistered,
    /// The caller holds no registration.
    NotRegistered,
    /// A descriptor names a token outside the accepted set.
    InvalidToken,
    /// The pending-service queue is full.
    MaxPendingServicesReached,
    /// A service's descriptor list would exceed the configured maximum.
    MaxServiceInfoReached,
    /// The address is not in the pending set.
    UnknownService,
    /// The address has no compact id.
    UnknownAddress,
    /// The id space is exhausted.
    IdSpaceExhausted,
    /// A service index is not a valid descriptor position.
    InvalidServiceIndex,
    /// The caller is not a registered service.
    CallerNotRegisteredService,
    /// The (user, service, index) triple holds no subscription.
    NotSubscribed,
    /// The descriptor's subscription interval is zero.
    ZeroInterval,
    /// The cooldown since the last successful charge has not elapsed.
    TooSoon,
    /// The user id resolves to no address.
    UnknownUser,
    /// The named token is absent or the held amount is too small.
    InsufficientFunds,
    /// No deposited token's stable-value equivalent covers the charge.
    NoSuitableFunds,
    /// A price for the token could not be quoted.
    PriceQueryFailed,
    /// The attached payment is empty.
    NoPayment,
    /// Only fungible tokens may be deposited.
    NonFungiblePayment,
    /// The deposited token is not accepted.
    InvalidPaymentToken,
    /// The deposit's stable value is at or below the configured minimum.
    ValueBelowMinimum,
    /// The user's deposit list is full.
    MaxUserDepositsReached,
    /// Merging the deposit would overflow the amount type.
    AmountOverflow,
    /// A configuration value that must be positive was zero.
    InvalidConfigValue,
    /// The per-pass cooldown of the charge batch has not elapsed.
    CannotSubtractYet,
    /// A checkpointed operation with a different target is still in flight.
    ConflictingOperation,
    /// A debited payment for this (service index, user) still awaits
    /// processing.
    LastFeesNotProcessed,
    /// The index names no known tier.
    InvalidIndex,
    /// The caller is not an admin of this contract.
    CallerNotAdmin,
    /// No weekly fee-withdrawal allowance is configured.
    NoFeeWithdrawLimit,
    /// The weekly fee-claim cooldown has not elapsed.
    CannotClaimYet,
    /// No fee-claim address is configured.
    NoFeesClaimAddress,
    /// A collected fee is not denominated in the expected token.
    InvalidFeeToken,
    /// No exchange pair is configured for the buy-and-lock swap.
    NoMexPair,
    /// The percentage split does not sum to the whole.
    InvalidPercentages,
    /// The configured pair does not trade the expected two tokens.
    WrongPairTokens,
}

} // verus!
