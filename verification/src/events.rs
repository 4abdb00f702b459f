//! What an operation reports once it has been committed.

use vstd::prelude::*;
use crate::state::AccountId;

verus! {

/// A pool was created.
#[derive(Clone, Copy, Debug, PartialEq, Eq)]
pub struct PoolCreatedEvent {
    pub pool: AccountId,
}

/// Assets were swapped for shares.
#[derive(Clone, Copy, Debug, PartialEq, Eq)]
pub struct Buy {
    /// The user who swapped.
    pub user: AccountId,
    /// Assets paid, the swap fee included.
    pub assets: u64,
    /// Shares credited.
    pub shares: u64,
    /// Swap fee charged, in assets.
    pub swap_fee: u64,
}

/// Shares were swapped for assets.
#[derive(Clone, Copy, Debug, PartialEq, Eq)]
pub struct Sell {
    /// The user who swapped.
    pub user: AccountId,
    /// Shares given up, the swap fee included.
    pub shares: u64,
    /// Assets paid out.
    pub assets: u64,
    /// Swap fee charged, in shares.
    pub swap_fee: u64,
}

/// A pool was closed.
#[derive(Clone, Copy, Debug, PartialEq, Eq, Structural)]
pub struct Close {
    /// Assets paid to the creator.
    pub assets: u64,
    pub platform_fees: u64,
    pub swap_fees_asset: u64,
    pub swap_fees_share: u64,
}

/// A user redeemed the shares purchased.
#[derive(Clone, Copy, Debug, PartialEq, Eq)]
pub struct Redeem {
    pub caller: AccountId,
    pub shares: u64,
}

/// Result of a preview of the assets to pay.
#[derive(Clone, Copy, Debug, PartialEq, Eq, Structural)]
pub struct PreviewAssetsIn {
    pub assets_in: u64,
}

/// Result of a preview of the assets to receive.
#[derive(Clone, Copy, Debug, PartialEq, Eq, Structural)]
pub struct PreviewAssetsOut {
    pub assets_out: u64,
}

/// Result of a preview of the shares to give up.
#[derive(Clone, Copy, Debug, PartialEq, Eq, Structural)]
pub struct PreviewSharesIn {
    pub shares_in: u64,
}

/// Result of a preview of the shares to receive.
#[derive(Clone, Copy, Debug, PartialEq, Eq, Structural)]
pub struct PreviewSharesOut {
    pub shares_out: u64,
}

/// Reserves and weights of a pool at a point in time.
#[derive(Clone, Copy, Debug, PartialEq, Eq, Structural)]
pub struct ReservesAndWeights {
    pub asset_reserve: u64,
    pub share_reserve: u64,
    pub asset_weight: u64,
    pub share_weight: u64,
}

} // verus!
