//! Error types of the pool engine.

use vstd::prelude::*;

verus! {

/// Failures of pool validation and policy checks.
#[derive(Clone, Copy, Debug, PartialEq, Eq, Structural)]
pub enum PoolError {
    InvalidAssetOrShare,
    SalePeriodLow,
    InvalidVestCliff,
    InvalidVestEnd,
    InvalidWeightConfig,
    InvalidAssetValue,
    MaxFeeExceeded,
    InvalidPercentageSum,
    AssetsInExceeded,
    SharesOutExceeded,
    WhitelistProof,
    SlippageExceeded,
    SellingDisallowed,
    TradingDisallowed,
    ClosingDisallowed,
    RedeemingDisallowed,
    CallerDisallowed,
    InvalidSellingAllowed,
    InvalidShareValue,
    InvalidSharePrice,
    InvalidMaxSharesOut,
    InvalidMaxAssetsIn,
    InsufficientShares,
    InsufficientAssets,
    Paused,
    InvalidFeeRecipients,
    InvalidFeeRecipientWritable,
    InvalidCreator,
    InvalidSwapFeeRecipient,
    DuplicateFeeRecipient,
}

/// Failures of the owner-only operations.
#[derive(Clone, Copy, Debug, PartialEq, Eq, Structural)]
pub enum AccessControlError {
    Unauthorized,
    NotUpgradeAuthority,
}

/// Failures of the checked fixed-point arithmetic and of the curve.
#[derive(Clone, Copy, Debug, PartialEq, Eq, Structural)]
pub enum SafeMathError {
    AdditionOverflow,
    SubtractionUnderflow,
    MultiplicationOverflow,
    DivisionUnderflow,
    ExponentiationOverflow,
    ConversionOverflow,
    AmountInTooLarge,
    AmountOutTooLarge,
    LogarithmUndefined,
    InvalidAssetsIn,
    InvalidSharesIn,
}

/// Any failure of a ledger operation.
#[derive(Clone, Copy, Debug, PartialEq, Eq, Structural)]
pub enum LbpError {
    Pool(PoolError),
    Access(AccessControlError),
    Math(SafeMathError),
}

} // verus!
