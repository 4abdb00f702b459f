//! Creating a pool, and pausing it.

use vstd::prelude::*;
use crate::constants::{MAX_WEIGHT_BIPS, MIN_WEIGHT_BIPS, ONE_DAY_SECONDS};
use crate::error::PoolError;
use crate::events::PoolCreatedEvent;
use crate::state::{weight_in_range, AccountId, LiquidityBootstrappingPool};

verus! {

/// The accounts that a new pool is made of: its own address, its two
/// tokens and its creator.
#[derive(Clone, Copy, Debug, PartialEq, Eq)]
pub struct InitializePool {
    pub pool: AccountId,
    pub asset_token_mint: AccountId,
    pub share_token_mint: AccountId,
    pub creator: AccountId,
}

/// The first fault of a pool's configuration, if it has one. A pool needs
/// two different tokens; a sale of a day at least, with a day at least left
/// until its end; where vesting ends after the sale, a cliff before the end
/// of vesting and before the end of the sale; weights between 1% and 99%;
/// and assets, real or virtual.
pub open spec fn create_pool_fault(
    ctx: InitializePool,
    current_time: i64,
    assets: u64,
    virtual_assets: u64,
    start_weight_basis_points: u16,
    end_weight_basis_points: u16,
    sale_start_time: i64,
    sale_end_time: i64,
    vest_cliff: i64,
    vest_end: i64,
) -> Option<PoolError> {
    if ctx.asset_token_mint@ == ctx.share_token_mint@ {
        Some(PoolError::InvalidAssetOrShare)
    } else if current_time + ONE_DAY_SECONDS > sale_end_time || sale_end_time - sale_start_time
        < ONE_DAY_SECONDS {
        Some(PoolError::SalePeriodLow)
    } else if sale_end_time < vest_end && vest_cliff >= vest_end {
        Some(PoolError::InvalidVestEnd)
    } else if sale_end_time < vest_end && vest_cliff >= sale_end_time {
        Some(PoolError::InvalidVestCliff)
    } else if !weight_in_range(start_weight_basis_points) || !weight_in_range(
        end_weight_basis_points,
    ) {
        Some(PoolError::InvalidWeightConfig)
    } else if assets == 0 && virtual_assets == 0 {
        Some(PoolError::InvalidAssetValue)
    } else {
        None
    }
}

/// Creates a pool. The pool starts with nothing purchased, referred or
/// charged, open and not paused; selling is allowed only where it is asked
/// for. The `assets` and `shares` are what the creator seeds it with.
pub fn create_pool(
    ctx: &InitializePool,
    current_time: i64,
    assets: u64,
    shares: u64,
    virtual_assets: u64,
    virtual_shares: u64,
    max_share_price: u64,
    max_shares_out: u64,
    max_assets_in: u64,
    start_weight_basis_points: u16,
    end_weight_basis_points: u16,
    sale_start_time: i64,
    sale_end_time: i64,
    vest_cliff: i64,
    vest_end: i64,
    whitelist_merkle_root: [u8; 32],
    selling_allowed: Option<bool>,
) -> (r: Result<(LiquidityBootstrappingPool, PoolCreatedEvent), PoolError>)
    ensures
        match create_pool_fault(
            *ctx,
            current_time,
            assets,
            virtual_assets,
            start_weight_basis_points,
            end_weight_basis_points,
            sale_start_time,
            sale_end_time,
            vest_cliff,
            vest_end,
        ) {
            Some(err) => r == Err::<(LiquidityBootstrappingPool, PoolCreatedEvent), PoolError>(
                err,
            ),
            None => r == Ok::<(LiquidityBootstrappingPool, PoolCreatedEvent), PoolError>(
                (
                    LiquidityBootstrappingPool {
                        asset_token: ctx.asset_token_mint,
                        share_token: ctx.share_token_mint,
                        creator: ctx.creator,
                        virtual_assets,
                        virtual_shares,
                        max_share_price,
                        max_shares_out,
                        max_assets_in,
                        start_weight_basis_points,
                        end_weight_basis_points,
                        sale_start_time,
                        sale_end_time,
                        vest_cliff,
                        vest_end,
                        selling_allowed: selling_allowed == Some(true),
                        total_purchased: 0,
                        total_referred: 0,
                        total_swap_fees_asset: 0,
                        total_swap_fees_share: 0,
                        closed: false,
                        paused: false,
                        whitelist_merkle_root,
                    },
                    PoolCreatedEvent { pool: ctx.pool },
                ),
            ),
        },
        r matches Ok(created) ==> created.0.wf(),
{
    if ctx.asset_token_mint.same(&ctx.share_token_mint) {
        return Err(PoolError::InvalidAssetOrShare);
    }
    if current_time as i128 + ONE_DAY_SECONDS as i128 > sale_end_time as i128
        || (sale_end_time as i128 - sale_start_time as i128) < ONE_DAY_SECONDS as i128 {
        return Err(PoolError::SalePeriodLow);
    }
    if sale_end_time < vest_end {
        if vest_cliff >= vest_end {
            return Err(PoolError::InvalidVestEnd);
        }
        if vest_cliff >= sale_end_time {
            return Err(PoolError::InvalidVestCliff);
        }
    }
    if start_weight_basis_points < MIN_WEIGHT_BIPS || start_weight_basis_points > MAX_WEIGHT_BIPS
        || end_weight_basis_points < MIN_WEIGHT_BIPS || end_weight_basis_points
        > MAX_WEIGHT_BIPS {
        return Err(PoolError::InvalidWeightConfig);
    }
    if assets == 0 && virtual_assets == 0 {
        return Err(PoolError::InvalidAssetValue);
    }
    let selling = match selling_allowed {
        Some(allowed) => allowed,
        None => false,
    };
    let pool = LiquidityBootstrappingPool {
        asset_token: ctx.asset_token_mint,
        share_token: ctx.share_token_mint,
        creator: ctx.creator,
        virtual_assets,
        virtual_shares,
        max_share_price,
        max_shares_out,
        max_assets_in,
        start_weight_basis_points,
        end_weight_basis_points,
        sale_start_time,
        sale_end_time,
        vest_cliff,
        vest_end,
        selling_allowed: selling,
        total_purchased: 0,
        total_referred: 0,
        total_swap_fees_asset: 0,
        total_swap_fees_share: 0,
        closed: false,
        paused: false,
        whitelist_merkle_root,
    };
    Ok((pool, PoolCreatedEvent { pool: ctx.pool }))
}

/// Pauses a pool, or lets a paused pool go on. Only the pool's creator may
/// do so; for another caller nothing changes.
pub fn toggle_pause(
    pool: &mut LiquidityBootstrappingPool,
    creator: &AccountId,
) -> (r: Result<(), PoolError>)
    ensures
        creator@ != old(pool).creator@ ==> r == Err::<(), PoolError>(PoolError::CallerDisallowed)
            && *final(pool) == *old(pool),
        creator@ == old(pool).creator@ ==> r == Ok::<(), PoolError>(()) && *final(pool) == (
        LiquidityBootstrappingPool { paused: !old(pool).paused, ..*old(pool) }),
        old(pool).wf() ==> final(pool).wf(),
        old(pool).succeeded_by(*final(pool)),
{
    if !pool.creator.same(creator) {
        return Err(PoolError::CallerDisallowed);
    }
    pool.paused = !pool.paused;
    Ok(())
}

} // verus!
