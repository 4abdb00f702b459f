//! The four swaps.
//!
//! A swap checks, quotes, checks again and only then commits: where it
//! fails, nothing that it was given has changed. What it returns on success
//! names the amounts that have to move between the user and the pool.

use vstd::prelude::*;
use crate::constants::MAX_FEE_BIPS;
use crate::error::{LbpError, PoolError, SafeMathError};
use crate::events::{Buy, Sell};
use crate::quote::{
    calculate_fee, calculate_fee_spec, preview_assets_in, preview_assets_in_power_args,
    preview_assets_in_spec, preview_assets_out, preview_assets_out_power_args,
    preview_assets_out_spec, preview_shares_in, preview_shares_in_power_args,
    preview_shares_in_spec, preview_shares_out, preview_shares_out_power_args,
    preview_shares_out_spec, PreviewAmountArgs,
};
use crate::safe_math::{exp_ready, ln_ready, safe_add, safe_sub};
use crate::standard_checks::{before_token_swap, before_token_swap_spec};
use crate::state::{AccountId, LiquidityBootstrappingPool, OwnerConfig, UserStateInPool};
use crate::weighted_math::power_answers;

verus! {

/// What a swap reads and what it changes: the pool with its two balances
/// and the decimals of its two tokens, the fee schedule, the user with the
/// user's position, and the position of the referrer, if there is one.
#[derive(Clone, Copy, Debug, PartialEq, Eq)]
pub struct SwapTokens {
    pub asset_token_decimals: u8,
    pub share_token_decimals: u8,
    pub pool: LiquidityBootstrappingPool,
    /// Assets that the pool holds.
    pub pool_asset_amount: u64,
    /// Shares that the pool holds.
    pub pool_share_amount: u64,
    pub config: OwnerConfig,
    pub user_state_in_pool: UserStateInPool,
    pub referrer_state_in_pool: Option<UserStateInPool>,
    pub user: AccountId,
}

/// The figures of a pool that a quote depends on, at `current_time`.
pub open spec fn preview_args_spec(
    pool: LiquidityBootstrappingPool,
    assets: u64,
    shares: u64,
    asset_token_decimal: u8,
    share_token_decimal: u8,
    current_time: i64,
) -> PreviewAmountArgs {
    PreviewAmountArgs {
        assets,
        virtual_assets: pool.virtual_assets,
        asset_token_decimal,
        shares,
        virtual_shares: pool.virtual_shares,
        share_token_decimal,
        total_purchased: pool.total_purchased,
        current_time,
        max_share_price: pool.max_share_price,
        sale_start_time: pool.sale_start_time,
        sale_end_time: pool.sale_end_time,
        start_weight_basis_points: pool.start_weight_basis_points,
        end_weight_basis_points: pool.end_weight_basis_points,
        total_swap_fees_asset: pool.total_swap_fees_asset,
        total_swap_fees_share: pool.total_swap_fees_share,
    }
}

/// Gathers the figures of a pool that a quote depends on.
pub fn preview_args(
    pool: &LiquidityBootstrappingPool,
    assets: u64,
    shares: u64,
    asset_token_decimal: u8,
    share_token_decimal: u8,
    current_time: i64,
) -> (args: PreviewAmountArgs)
    ensures
        args == preview_args_spec(
            *pool,
            assets,
            shares,
            asset_token_decimal,
            share_token_decimal,
            current_time,
        ),
{
    PreviewAmountArgs {
        assets,
        virtual_assets: pool.virtual_assets,
        asset_token_decimal,
        shares,
        virtual_shares: pool.virtual_shares,
        share_token_decimal,
        total_purchased: pool.total_purchased,
        current_time,
        max_share_price: pool.max_share_price,
        sale_start_time: pool.sale_start_time,
        sale_end_time: pool.sale_end_time,
        start_weight_basis_points: pool.start_weight_basis_points,
        end_weight_basis_points: pool.end_weight_basis_points,
        total_swap_fees_asset: pool.total_swap_fees_asset,
        total_swap_fees_share: pool.total_swap_fees_share,
    }
}

impl SwapTokens {
    /// The figures that a quote for this swap depends on, at `current_time`.
    pub open spec fn preview_args(&self, current_time: i64) -> PreviewAmountArgs {
        preview_args_spec(
            self.pool,
            self.pool_asset_amount,
            self.pool_share_amount,
            self.asset_token_decimals,
            self.share_token_decimals,
            current_time,
        )
    }
}

/// The assets credited to a referrer for a purchase: none without a
/// referrer, and none where the referral fee is zero.
pub open spec fn referred_assets_spec(
    config: OwnerConfig,
    referrer_state: Option<UserStateInPool>,
    assets_in: u64,
) -> int {
    if referrer_state.is_some() && config.referral_fee != 0 {
        calculate_fee_spec(assets_in as int, config.referral_fee as int)
    } else {
        0
    }
}

/// What a purchase leaves behind: the pool, the buyer's position and the
/// referrer's position after it.
#[derive(Clone, Copy, Debug, PartialEq, Eq)]
pub struct Purchase {
    pub pool: LiquidityBootstrappingPool,
    pub user_state: UserStateInPool,
    pub referrer_state: Option<UserStateInPool>,
}

/// Result of [`_swap_assets_for_shares`]: the caps are checked on totals
/// that cannot overflow, then the shares are credited to the pool's total
/// and to the buyer, and the referred assets to the pool's total and to the
/// referrer.
pub open spec fn purchase_spec(
    pool: LiquidityBootstrappingPool,
    user_state: UserStateInPool,
    config: OwnerConfig,
    referrer_state: Option<UserStateInPool>,
    assets_in: u64,
    shares_out: u64,
    assets: u64,
    shares: u64,
    swap_fees: u64,
) -> Result<Purchase, LbpError> {
    let referred = referred_assets_spec(config, referrer_state, assets_in);
    if assets + assets_in < swap_fees {
        Err(LbpError::Math(SafeMathError::SubtractionUnderflow))
    } else if assets + assets_in - swap_fees >= pool.max_assets_in {
        Err(LbpError::Pool(PoolError::AssetsInExceeded))
    } else if pool.total_purchased + shares_out >= pool.max_shares_out || pool.total_purchased
        + shares_out >= shares {
        Err(LbpError::Pool(PoolError::SharesOutExceeded))
    } else if user_state.purchased_shares + shares_out > u64::MAX {
        Err(LbpError::Math(SafeMathError::AdditionOverflow))
    } else if pool.total_referred + referred > u64::MAX {
        Err(LbpError::Math(SafeMathError::AdditionOverflow))
    } else if referrer_state matches Some(rs) && rs.referred_assets + referred > u64::MAX {
        Err(LbpError::Math(SafeMathError::AdditionOverflow))
    } else {
        Ok(
            (Purchase {
                pool: LiquidityBootstrappingPool {
                    total_purchased: (pool.total_purchased + shares_out) as u64,
                    total_referred: (pool.total_referred + referred) as u64,
                    ..pool
                },
                user_state: UserStateInPool {
                    purchased_shares: (user_state.purchased_shares + shares_out) as u64,
                    ..user_state
                },
                referrer_state: match referrer_state {
                    Some(rs) => Some(
                        (UserStateInPool {
                            referred_assets: (rs.referred_assets + referred) as u64,
                            ..rs
                        }),
                    ),
                    None => None,
                },
            }),
        )
    }
}

/// Converts an arithmetic result into a ledger result.
pub fn lift<T>(r: Result<T, SafeMathError>) -> (out: Result<T, LbpError>)
    ensures
        out == (match r {
            Ok(v) => Ok::<T, LbpError>(v),
            Err(err) => Err(LbpError::Math(err)),
        }),
{
    match r {
        Ok(v) => Ok(v),
        Err(err) => Err(LbpError::Math(err)),
    }
}

/// Books a purchase of `shares_out` shares for `assets_in` assets, of which
/// `swap_fees` are fee, in a pool that holds `assets` and `shares`, under a
/// fee schedule with no fee above one whole. After
/// the trade the assets received stay below the pool's cap on assets, and
/// the shares purchased stay below its cap on shares and below the shares
/// it holds; else the purchase is refused and nothing changes.
pub fn _swap_assets_for_shares(
    pool: &mut LiquidityBootstrappingPool,
    user_state_in_pool: &mut UserStateInPool,
    global_pool_config: &OwnerConfig,
    user: &AccountId,
    assets_in: u64,
    shares_out: u64,
    assets: u64,
    shares: u64,
    swap_fees: u64,
    referrer_state_in_pool: &mut Option<UserStateInPool>,
) -> (r: Result<Buy, LbpError>)
    requires
        global_pool_config.wf(),
    ensures
        match purchase_spec(
            *old(pool),
            *old(user_state_in_pool),
            *global_pool_config,
            *old(referrer_state_in_pool),
            assets_in,
            shares_out,
            assets,
            shares,
            swap_fees,
        ) {
            Ok(p) => {
                &&& r == Ok::<Buy, LbpError>(
                    Buy { user: *user, assets: assets_in, shares: shares_out, swap_fee: swap_fees },
                )
                &&& *final(pool) == p.pool
                &&& *final(user_state_in_pool) == p.user_state
                &&& *final(referrer_state_in_pool) == p.referrer_state
            },
            Err(err) => {
                &&& r == Err::<Buy, LbpError>(err)
                &&& *final(pool) == *old(pool)
                &&& *final(user_state_in_pool) == *old(user_state_in_pool)
                &&& *final(referrer_state_in_pool) == *old(referrer_state_in_pool)
            },
        },
        old(pool).total_purchased >= old(pool).max_shares_out && swap_fees <= assets_in ==> r
            == Err::<Buy, LbpError>(LbpError::Pool(PoolError::AssetsInExceeded)) || r == Err::<
            Buy,
            LbpError,
        >(LbpError::Pool(PoolError::SharesOutExceeded)),
        r.is_ok() && old(pool).wf() ==> final(pool).wf(),
        old(pool).succeeded_by(*final(pool)),
{
    let received: u128 = assets as u128 + assets_in as u128;
    if received < swap_fees as u128 {
        return Err(LbpError::Math(SafeMathError::SubtractionUnderflow));
    }
    if received - swap_fees as u128 >= pool.max_assets_in as u128 {
        return Err(LbpError::Pool(PoolError::AssetsInExceeded));
    }
    let total_purchased_after: u128 = pool.total_purchased as u128 + shares_out as u128;
    if total_purchased_after >= pool.max_shares_out as u128 || total_purchased_after
        >= shares as u128 {
        return Err(LbpError::Pool(PoolError::SharesOutExceeded));
    }
    let purchased_shares = lift(safe_add(user_state_in_pool.purchased_shares, shares_out))?;
    let mut total_referred = pool.total_referred;
    let mut referrer_after = *referrer_state_in_pool;
    match *referrer_state_in_pool {
        Some(referrer_state) => {
            if global_pool_config.referral_fee != 0 {
                let assets_referred = calculate_fee(assets_in, global_pool_config.referral_fee);
                total_referred = lift(safe_add(pool.total_referred, assets_referred))?;
                let referred_assets = lift(
                    safe_add(referrer_state.referred_assets, assets_referred),
                )?;
                referrer_after = Some(
                    UserStateInPool {
                        purchased_shares: referrer_state.purchased_shares,
                        referred_assets,
                        redeemed_shares: referrer_state.redeemed_shares,
                    },
                );
            }
        },
        None => {},
    }
    pool.total_purchased = total_purchased_after as u64;
    pool.total_referred = total_referred;
    user_state_in_pool.purchased_shares = purchased_shares;
    *referrer_state_in_pool = referrer_after;
    Ok(Buy { user: *user, assets: assets_in, shares: shares_out, swap_fee: swap_fees })
}

/// What a sale leaves behind: the pool and the seller's position after it.
#[derive(Clone, Copy, Debug, PartialEq, Eq)]
pub struct Sale {
    pub pool: LiquidityBootstrappingPool,
    pub user_state: UserStateInPool,
}

/// Result of [`_swap_shares_for_assets`]: the caps are checked on the
/// totals before the trade, then the shares are taken from the seller and
/// from the pool's total.
pub open spec fn sale_spec(
    pool: LiquidityBootstrappingPool,
    user_state: UserStateInPool,
    shares_in: u64,
    assets: u64,
    shares: u64,
) -> Result<Sale, LbpError> {
    if assets >= pool.max_assets_in {
        Err(LbpError::Pool(PoolError::AssetsInExceeded))
    } else if pool.total_purchased >= pool.max_shares_out || pool.total_purchased >= shares {
        Err(LbpError::Pool(PoolError::SharesOutExceeded))
    } else if user_state.purchased_shares < shares_in {
        Err(LbpError::Math(SafeMathError::SubtractionUnderflow))
    } else if pool.total_purchased < shares_in {
        Err(LbpError::Math(SafeMathError::SubtractionUnderflow))
    } else {
        Ok(
            (Sale {
                pool: LiquidityBootstrappingPool {
                    total_purchased: (pool.total_purchased - shares_in) as u64,
                    ..pool
                },
                user_state: UserStateInPool {
                    purchased_shares: (user_state.purchased_shares - shares_in) as u64,
                    ..user_state
                },
            }),
        )
    }
}

/// Books a sale of `shares_in` shares, of which `swap_fees` are fee, for
/// `assets_out` assets, in a pool that holds `assets` and `shares`. The
/// seller gives up shares purchased before; a pool at one of its caps
/// refuses the sale, and then nothing changes.
pub fn _swap_shares_for_assets(
    pool: &mut LiquidityBootstrappingPool,
    user_state_in_pool: &mut UserStateInPool,
    user: &AccountId,
    assets_out: u64,
    shares_in: u64,
    assets: u64,
    shares: u64,
    swap_fees: u64,
) -> (r: Result<Sell, LbpError>)
    ensures
        match sale_spec(*old(pool), *old(user_state_in_pool), shares_in, assets, shares) {
            Ok(s) => {
                &&& r == Ok::<Sell, LbpError>(
                    Sell { user: *user, shares: shares_in, assets: assets_out, swap_fee: swap_fees },
                )
                &&& *final(pool) == s.pool
                &&& *final(user_state_in_pool) == s.user_state
            },
            Err(err) => {
                &&& r == Err::<Sell, LbpError>(err)
                &&& *final(pool) == *old(pool)
                &&& *final(user_state_in_pool) == *old(user_state_in_pool)
            },
        },
        r.is_ok() && old(pool).wf() ==> final(pool).wf(),
        old(pool).succeeded_by(*final(pool)),
{
    if assets >= pool.max_assets_in {
        return Err(LbpError::Pool(PoolError::AssetsInExceeded));
    }
    let total_purchased_before = pool.total_purchased;
    if total_purchased_before >= pool.max_shares_out || total_purchased_before >= shares {
        return Err(LbpError::Pool(PoolError::SharesOutExceeded));
    }
    let purchased_shares = lift(safe_sub(user_state_in_pool.purchased_shares, shares_in))?;
    let total_purchased = lift(safe_sub(total_purchased_before, shares_in))?;
    user_state_in_pool.purchased_shares = purchased_shares;
    pool.total_purchased = total_purchased;
    Ok(Sell { user: *user, shares: shares_in, assets: assets_out, swap_fee: swap_fees })
}

/// What has to hold before a swap is quoted: the checks of
/// [`before_token_swap`], and after them a fee schedule with no fee above
/// one whole.
pub open spec fn swap_guard_spec(
    pool: LiquidityBootstrappingPool,
    user: AccountId,
    config: OwnerConfig,
    current_time: i64,
    merkle_proof: Option<Vec<[u8; 32]>>,
    is_sell: bool,
) -> Result<(), LbpError> {
    match before_token_swap_spec(pool, user, current_time, merkle_proof, is_sell) {
        Err(err) => Err(LbpError::Pool(err)),
        Ok(_) => if !config.wf() {
            Err(LbpError::Pool(PoolError::MaxFeeExceeded))
        } else {
            Ok(())
        },
    }
}

/// Refuses a swap that the pool does not admit, and one under a fee
/// schedule with a fee above one whole.
pub fn swap_guard(
    pool: &LiquidityBootstrappingPool,
    user: &AccountId,
    config: &OwnerConfig,
    current_time: i64,
    merkle_proof: &Option<Vec<[u8; 32]>>,
    is_sell: bool,
) -> (r: Result<(), LbpError>)
    ensures
        r == swap_guard_spec(*pool, *user, *config, current_time, *merkle_proof, is_sell),
{
    if let Err(err) = before_token_swap(pool, user, current_time, merkle_proof, is_sell) {
        return Err(LbpError::Pool(err));
    }
    if !config.fees_valid() {
        return Err(LbpError::Pool(PoolError::MaxFeeExceeded));
    }
    Ok(())
}

/// Whether a swap ended as `expected` says: on success with the reported
/// event and the accounts that follow, on failure with the error and the
/// accounts as they were.
pub open spec fn swap_outcome<T>(
    r: Result<T, LbpError>,
    before: SwapTokens,
    after: SwapTokens,
    expected: Result<(SwapTokens, T), LbpError>,
) -> bool {
    match expected {
        Ok((accounts, event)) => r == Ok::<T, LbpError>(event) && after == accounts,
        Err(err) => r == Err::<T, LbpError>(err) && after == before,
    }
}

/// The accounts of a swap after the purchase `p`, with `total_swap_fees_asset`
/// as the pool's swap fees in assets.
pub open spec fn after_purchase(
    ctx: SwapTokens,
    p: Purchase,
    total_swap_fees_asset: u64,
) -> SwapTokens {
    SwapTokens {
        pool: LiquidityBootstrappingPool { total_swap_fees_asset, ..p.pool },
        user_state_in_pool: p.user_state,
        referrer_state_in_pool: p.referrer_state,
        ..ctx
    }
}

/// The accounts of a swap after the sale `s`, with `total_swap_fees_share`
/// as the pool's swap fees in shares.
pub open spec fn after_sale(ctx: SwapTokens, s: Sale, total_swap_fees_share: u64) -> SwapTokens {
    SwapTokens {
        pool: LiquidityBootstrappingPool { total_swap_fees_share, ..s.pool },
        user_state_in_pool: s.user_state,
        ..ctx
    }
}

/// A swap of an exact amount before it is quoted: the figures for the
/// quote, which are those of the pool before the swap, the amount net of the
/// fee, the fee, and the pool's swap fees with it.
#[derive(Clone, Copy, Debug, PartialEq, Eq)]
pub struct ExactInput {
    pub args: PreviewAmountArgs,
    pub net_amount: u64,
    pub swap_fees: u64,
    pub total_swap_fees: u64,
}

/// The first steps of [`swap_exact_assets_for_shares`]: the checks before a
/// swap, the fee on the assets, and the assets net of it.
pub open spec fn exact_assets_input(
    ctx: SwapTokens,
    current_time: i64,
    assets_in: u64,
    merkle_proof: Option<Vec<[u8; 32]>>,
) -> Result<ExactInput, LbpError> {
    let swap_fees = calculate_fee_spec(assets_in as int, ctx.config.swap_fee as int);
    match swap_guard_spec(ctx.pool, ctx.user, ctx.config, current_time, merkle_proof, false) {
        Err(err) => Err(err),
        Ok(_) => if ctx.pool.total_swap_fees_asset + swap_fees > u64::MAX {
            Err(LbpError::Math(SafeMathError::AdditionOverflow))
        } else {
            Ok(
                (ExactInput {
                    args: ctx.preview_args(current_time),
                    net_amount: (assets_in - swap_fees) as u64,
                    swap_fees: swap_fees as u64,
                    total_swap_fees: (ctx.pool.total_swap_fees_asset + swap_fees) as u64,
                }),
            )
        },
    }
}

/// The two arguments of the power that a run of
/// [`swap_exact_assets_for_shares`] asks for, where it reaches the power.
pub open spec fn swap_exact_assets_for_shares_power_args(
    ctx: SwapTokens,
    current_time: i64,
    assets_in: u64,
    merkle_proof: Option<Vec<[u8; 32]>>,
) -> Option<(int, int)> {
    match exact_assets_input(ctx, current_time, assets_in, merkle_proof) {
        Err(_) => None,
        Ok(input) => preview_shares_out_power_args(input.args, input.net_amount as int),
    }
}

/// Result of [`swap_exact_assets_for_shares`] where the primitives
/// answered `l` and `e`: the fee is taken from the assets, the rest is
/// quoted, the quote is held against `min_shares_out`, and the purchase is
/// booked.
pub open spec fn swap_exact_assets_for_shares_spec(
    ctx: SwapTokens,
    current_time: i64,
    assets_in: u64,
    min_shares_out: u64,
    merkle_proof: Option<Vec<[u8; 32]>>,
    l: int,
    e: int,
) -> Result<(SwapTokens, Buy), LbpError> {
    match exact_assets_input(ctx, current_time, assets_in, merkle_proof) {
        Err(err) => Err(err),
        Ok(input) => match preview_shares_out_spec(input.args, input.net_amount as int, l, e) {
            Err(err) => Err(LbpError::Math(err)),
            Ok(shares_out) => if shares_out < min_shares_out {
                Err(LbpError::Pool(PoolError::SlippageExceeded))
            } else {
                match purchase_spec(
                    ctx.pool,
                    ctx.user_state_in_pool,
                    ctx.config,
                    ctx.referrer_state_in_pool,
                    assets_in,
                    shares_out,
                    ctx.pool_asset_amount,
                    ctx.pool_share_amount,
                    input.swap_fees,
                ) {
                    Err(err) => Err(err),
                    Ok(p) => Ok(
                        (
                            after_purchase(ctx, p, input.total_swap_fees),
                            Buy {
                                user: ctx.user,
                                assets: assets_in,
                                shares: shares_out,
                                swap_fee: input.swap_fees,
                            },
                        ),
                    ),
                }
            },
        },
    }
}

/// Swaps exactly `assets_in` assets for shares, at least `min_shares_out`
/// of them. The swap fee is part of `assets_in`.
pub fn swap_exact_assets_for_shares<L: Fn(i64) -> i128, E: Fn(i128) -> i128>(
    ctx: &mut SwapTokens,
    current_time: i64,
    assets_in: u64,
    min_shares_out: u64,
    merkle_proof: Option<Vec<[u8; 32]>>,
    ln: &L,
    exp: &E,
) -> (r: Result<Buy, LbpError>)
    requires
        ln_ready(ln),
        exp_ready(exp),
    ensures
        exists|l: i128, e: i128| #[trigger]
            power_answers(
                ln,
                exp,
                swap_exact_assets_for_shares_power_args(
                    *old(ctx),
                    current_time,
                    assets_in,
                    merkle_proof,
                ),
                l,
                e,
            ) && swap_outcome(
                r,
                *old(ctx),
                *final(ctx),
                swap_exact_assets_for_shares_spec(
                    *old(ctx),
                    current_time,
                    assets_in,
                    min_shares_out,
                    merkle_proof,
                    l as int,
                    e as int,
                ),
            ),
        r.is_err() ==> *final(ctx) == *old(ctx),
        r.is_ok() && old(ctx).pool.wf() ==> final(ctx).pool.wf(),
        old(ctx).pool.succeeded_by(final(ctx).pool),
{
    let ghost power_args = swap_exact_assets_for_shares_power_args(
        *ctx,
        current_time,
        assets_in,
        merkle_proof,
    );
    if let Err(err) = swap_guard(
        &ctx.pool,
        &ctx.user,
        &ctx.config,
        current_time,
        &merkle_proof,
        false,
    ) {
        assert(power_answers(ln, exp, power_args, 0, 0));
        return Err(err);
    }
    let swap_fees = calculate_fee(assets_in, ctx.config.swap_fee);
    let total_swap_fees = match safe_add(ctx.pool.total_swap_fees_asset, swap_fees) {
        Ok(v) => v,
        Err(err) => {
            assert(power_answers(ln, exp, power_args, 0, 0));
            return Err(LbpError::Math(err));
        },
    };
    let net_amount = assets_in - swap_fees;
    let args = preview_args(
        &ctx.pool,
        ctx.pool_asset_amount,
        ctx.pool_share_amount,
        ctx.asset_token_decimals,
        ctx.share_token_decimals,
        current_time,
    );
    let quoted = preview_shares_out(args, net_amount, ln, exp);
    proof {
        let (l, e) = choose|l: i128, e: i128| #[trigger]
            power_answers(ln, exp, power_args, l, e) && quoted == preview_shares_out_spec(
                args,
                net_amount as int,
                l as int,
                e as int,
            );
        assert(power_answers(ln, exp, power_args, l, e));
    }
    let shares_out = lift(quoted)?;
    if shares_out < min_shares_out {
        return Err(LbpError::Pool(PoolError::SlippageExceeded));
    }
    let mut pool = ctx.pool;
    let mut user_state = ctx.user_state_in_pool;
    let mut referrer_state = ctx.referrer_state_in_pool;
    let event = _swap_assets_for_shares(
        &mut pool,
        &mut user_state,
        &ctx.config,
        &ctx.user,
        assets_in,
        shares_out,
        ctx.pool_asset_amount,
        ctx.pool_share_amount,
        swap_fees,
        &mut referrer_state,
    )?;
    pool.total_swap_fees_asset = total_swap_fees;
    ctx.pool = pool;
    ctx.user_state_in_pool = user_state;
    ctx.referrer_state_in_pool = referrer_state;
    Ok(event)
}

/// The first steps of [`swap_exact_shares_for_assets`]: the checks before
/// a sale of shares, the fee on the shares, and the shares net of it.
pub open spec fn exact_shares_input(
    ctx: SwapTokens,
    current_time: i64,
    shares_in: u64,
    merkle_proof: Option<Vec<[u8; 32]>>,
) -> Result<ExactInput, LbpError> {
    let swap_fees = calculate_fee_spec(shares_in as int, ctx.config.swap_fee as int);
    match swap_guard_spec(ctx.pool, ctx.user, ctx.config, current_time, merkle_proof, true) {
        Err(err) => Err(err),
        Ok(_) => if ctx.pool.total_swap_fees_share + swap_fees > u64::MAX {
            Err(LbpError::Math(SafeMathError::AdditionOverflow))
        } else {
            Ok(
                (ExactInput {
                    args: ctx.preview_args(current_time),
                    net_amount: (shares_in - swap_fees) as u64,
                    swap_fees: swap_fees as u64,
                    total_swap_fees: (ctx.pool.total_swap_fees_share + swap_fees) as u64,
                }),
            )
        },
    }
}

/// The two arguments of the power that a run of
/// [`swap_exact_shares_for_assets`] asks for, where it reaches the power.
pub open spec fn swap_exact_shares_for_assets_power_args(
    ctx: SwapTokens,
    current_time: i64,
    shares_in: u64,
    merkle_proof: Option<Vec<[u8; 32]>>,
) -> Option<(int, int)> {
    match exact_shares_input(ctx, current_time, shares_in, merkle_proof) {
        Err(_) => None,
        Ok(input) => preview_assets_out_power_args(input.args, input.net_amount as int),
    }
}

/// Result of [`swap_exact_shares_for_assets`] where the primitives
/// answered `l` and `e`: the fee is taken from the shares, the rest is
/// quoted, the quote is held against `min_assets_out`, and the sale is
/// booked.
pub open spec fn swap_exact_shares_for_assets_spec(
    ctx: SwapTokens,
    current_time: i64,
    shares_in: u64,
    min_assets_out: u64,
    merkle_proof: Option<Vec<[u8; 32]>>,
    l: int,
    e: int,
) -> Result<(SwapTokens, Sell), LbpError> {
    match exact_shares_input(ctx, current_time, shares_in, merkle_proof) {
        Err(err) => Err(err),
        Ok(input) => match preview_assets_out_spec(input.args, input.net_amount as int, l, e) {
            Err(err) => Err(LbpError::Math(err)),
            Ok(assets_out) => if assets_out < min_assets_out {
                Err(LbpError::Pool(PoolError::SlippageExceeded))
            } else {
                match sale_spec(
                    ctx.pool,
                    ctx.user_state_in_pool,
                    shares_in,
                    ctx.pool_asset_amount,
                    ctx.pool_share_amount,
                ) {
                    Err(err) => Err(err),
                    Ok(sale) => Ok(
                        (
                            after_sale(ctx, sale, input.total_swap_fees),
                            Sell {
                                user: ctx.user,
                                shares: shares_in,
                                assets: assets_out,
                                swap_fee: input.swap_fees,
                            },
                        ),
                    ),
                }
            },
        },
    }
}

/// Swaps exactly `shares_in` shares for assets, at least `min_assets_out`
/// of them. The swap fee is part of `shares_in`.
pub fn swap_exact_shares_for_assets<L: Fn(i64) -> i128, E: Fn(i128) -> i128>(
    ctx: &mut SwapTokens,
    current_time: i64,
    shares_in: u64,
    min_assets_out: u64,
    merkle_proof: Option<Vec<[u8; 32]>>,
    ln: &L,
    exp: &E,
) -> (r: Result<Sell, LbpError>)
    requires
        ln_ready(ln),
        exp_ready(exp),
    ensures
        exists|l: i128, e: i128| #[trigger]
            power_answers(
                ln,
                exp,
                swap_exact_shares_for_assets_power_args(
                    *old(ctx),
                    current_time,
                    shares_in,
                    merkle_proof,
                ),
                l,
                e,
            ) && swap_outcome(
                r,
                *old(ctx),
                *final(ctx),
                swap_exact_shares_for_assets_spec(
                    *old(ctx),
                    current_time,
                    shares_in,
                    min_assets_out,
                    merkle_proof,
                    l as int,
                    e as int,
                ),
            ),
        r.is_err() ==> *final(ctx) == *old(ctx),
        r.is_ok() && old(ctx).pool.wf() ==> final(ctx).pool.wf(),
        old(ctx).pool.succeeded_by(final(ctx).pool),
{
    let ghost power_args = swap_exact_shares_for_assets_power_args(
        *ctx,
        current_time,
        shares_in,
        merkle_proof,
    );
    if let Err(err) = swap_guard(
        &ctx.pool,
        &ctx.user,
        &ctx.config,
        current_time,
        &merkle_proof,
        true,
    ) {
        assert(power_answers(ln, exp, power_args, 0, 0));
        return Err(err);
    }
    let swap_fees = calculate_fee(shares_in, ctx.config.swap_fee);
    let total_swap_fees = match safe_add(ctx.pool.total_swap_fees_share, swap_fees) {
        Ok(v) => v,
        Err(err) => {
            assert(power_answers(ln, exp, power_args, 0, 0));
            return Err(LbpError::Math(err));
        },
    };
    let net_amount = shares_in - swap_fees;
    let args = preview_args(
        &ctx.pool,
        ctx.pool_asset_amount,
        ctx.pool_share_amount,
        ctx.asset_token_decimals,
        ctx.share_token_decimals,
        current_time,
    );
    let quoted = preview_assets_out(args, net_amount, ln, exp);
    proof {
        let (l, e) = choose|l: i128, e: i128| #[trigger]
            power_answers(ln, exp, power_args, l, e) && quoted == preview_assets_out_spec(
                args,
                net_amount as int,
                l as int,
                e as int,
            );
        assert(power_answers(ln, exp, power_args, l, e));
    }
    let assets_out = lift(quoted)?;
    if assets_out < min_assets_out {
        return Err(LbpError::Pool(PoolError::SlippageExceeded));
    }
    let mut pool = ctx.pool;
    let mut user_state = ctx.user_state_in_pool;
    let event = _swap_shares_for_assets(
        &mut pool,
        &mut user_state,
        &ctx.user,
        assets_out,
        shares_in,
        ctx.pool_asset_amount,
        ctx.pool_share_amount,
        swap_fees,
    )?;
    pool.total_swap_fees_share = total_swap_fees;
    ctx.pool = pool;
    ctx.user_state_in_pool = user_state;
    Ok(event)
}

/// An amount with the swap fee on top of it: the fee, the two together,
/// and the pool's swap fees with the fee. The sum of the two, then the
/// pool's swap fees, must fit in 64 bits.
#[derive(Clone, Copy, Debug, PartialEq, Eq)]
pub struct Grossed {
    pub swap_fees: u64,
    pub gross_amount: u64,
    pub total_swap_fees: u64,
}

/// Result of [`gross_up`].
pub open spec fn gross_up_spec(
    net_amount: u64,
    fee: u16,
    total_swap_fees: u64,
) -> Result<Grossed, LbpError> {
    let swap_fees = calculate_fee_spec(net_amount as int, fee as int);
    if net_amount + swap_fees > u64::MAX {
        Err(LbpError::Math(SafeMathError::AdditionOverflow))
    } else if total_swap_fees + swap_fees > u64::MAX {
        Err(LbpError::Math(SafeMathError::AdditionOverflow))
    } else {
        Ok(
            (Grossed {
                swap_fees: swap_fees as u64,
                gross_amount: (net_amount + swap_fees) as u64,
                total_swap_fees: (total_swap_fees + swap_fees) as u64,
            }),
        )
    }
}

/// Puts the swap fee, of at most one whole, on top of an amount that the
/// curve asks for.
pub fn gross_up(net_amount: u64, fee: u16, total_swap_fees: u64) -> (r: Result<Grossed, LbpError>)
    requires
        fee <= MAX_FEE_BIPS,
    ensures
        r == gross_up_spec(net_amount, fee, total_swap_fees),
{
    let swap_fees = calculate_fee(net_amount, fee);
    let gross_amount = lift(safe_add(net_amount, swap_fees))?;
    let total = lift(safe_add(total_swap_fees, swap_fees))?;
    Ok(Grossed { swap_fees, gross_amount, total_swap_fees: total })
}

/// The two arguments of the power that a run of
/// [`swap_assets_for_exact_shares`] asks for, where it reaches the power.
pub open spec fn swap_assets_for_exact_shares_power_args(
    ctx: SwapTokens,
    current_time: i64,
    shares_out: u64,
    merkle_proof: Option<Vec<[u8; 32]>>,
) -> Option<(int, int)> {
    match swap_guard_spec(ctx.pool, ctx.user, ctx.config, current_time, merkle_proof, false) {
        Err(_) => None,
        Ok(_) => preview_assets_in_power_args(ctx.preview_args(current_time), shares_out as int),
    }
}

/// Result of [`swap_assets_for_exact_shares`] where the primitives
/// answered `l` and `e`: the shares are quoted, the fee comes on top of the
/// quote, the two together are held against `max_assets_in`, and the
/// purchase is booked.
pub open spec fn swap_assets_for_exact_shares_spec(
    ctx: SwapTokens,
    current_time: i64,
    shares_out: u64,
    max_assets_in: u64,
    merkle_proof: Option<Vec<[u8; 32]>>,
    l: int,
    e: int,
) -> Result<(SwapTokens, Buy), LbpError> {
    match swap_guard_spec(ctx.pool, ctx.user, ctx.config, current_time, merkle_proof, false) {
        Err(err) => Err(err),
        Ok(_) => match preview_assets_in_spec(
            ctx.preview_args(current_time),
            shares_out as int,
            l,
            e,
        ) {
            Err(err) => Err(LbpError::Math(err)),
            Ok(net) => match gross_up_spec(
                net,
                ctx.config.swap_fee,
                ctx.pool.total_swap_fees_asset,
            ) {
                Err(err) => Err(err),
                Ok(g) => if g.gross_amount > max_assets_in {
                    Err(LbpError::Pool(PoolError::SlippageExceeded))
                } else {
                    match purchase_spec(
                        ctx.pool,
                        ctx.user_state_in_pool,
                        ctx.config,
                        ctx.referrer_state_in_pool,
                        g.gross_amount,
                        shares_out,
                        ctx.pool_asset_amount,
                        ctx.pool_share_amount,
                        g.swap_fees,
                    ) {
                        Err(err) => Err(err),
                        Ok(p) => Ok(
                            (
                                after_purchase(ctx, p, g.total_swap_fees),
                                Buy {
                                    user: ctx.user,
                                    assets: g.gross_amount,
                                    shares: shares_out,
                                    swap_fee: g.swap_fees,
                                },
                            ),
                        ),
                    }
                },
            },
        },
    }
}

/// Swaps assets for exactly `shares_out` shares, at most `max_assets_in`
/// assets, the swap fee included.
pub fn swap_assets_for_exact_shares<L: Fn(i64) -> i128, E: Fn(i128) -> i128>(
    ctx: &mut SwapTokens,
    current_time: i64,
    shares_out: u64,
    max_assets_in: u64,
    merkle_proof: Option<Vec<[u8; 32]>>,
    ln: &L,
    exp: &E,
) -> (r: Result<Buy, LbpError>)
    requires
        ln_ready(ln),
        exp_ready(exp),
    ensures
        exists|l: i128, e: i128| #[trigger]
            power_answers(
                ln,
                exp,
                swap_assets_for_exact_shares_power_args(
                    *old(ctx),
                    current_time,
                    shares_out,
                    merkle_proof,
                ),
                l,
                e,
            ) && swap_outcome(
                r,
                *old(ctx),
                *final(ctx),
                swap_assets_for_exact_shares_spec(
                    *old(ctx),
                    current_time,
                    shares_out,
                    max_assets_in,
                    merkle_proof,
                    l as int,
                    e as int,
                ),
            ),
        r.is_err() ==> *final(ctx) == *old(ctx),
        r.is_ok() && old(ctx).pool.wf() ==> final(ctx).pool.wf(),
        old(ctx).pool.succeeded_by(final(ctx).pool),
{
    let ghost power_args = swap_assets_for_exact_shares_power_args(
        *ctx,
        current_time,
        shares_out,
        merkle_proof,
    );
    if let Err(err) = swap_guard(
        &ctx.pool,
        &ctx.user,
        &ctx.config,
        current_time,
        &merkle_proof,
        false,
    ) {
        assert(power_answers(ln, exp, power_args, 0, 0));
        return Err(err);
    }
    let args = preview_args(
        &ctx.pool,
        ctx.pool_asset_amount,
        ctx.pool_share_amount,
        ctx.asset_token_decimals,
        ctx.share_token_decimals,
        current_time,
    );
    let quoted = preview_assets_in(args, shares_out, ln, exp);
    proof {
        let (l, e) = choose|l: i128, e: i128| #[trigger]
            power_answers(ln, exp, power_args, l, e) && quoted == preview_assets_in_spec(
                args,
                shares_out as int,
                l as int,
                e as int,
            );
        assert(power_answers(ln, exp, power_args, l, e));
    }
    let net = lift(quoted)?;
    let g = gross_up(net, ctx.config.swap_fee, ctx.pool.total_swap_fees_asset)?;
    if g.gross_amount > max_assets_in {
        return Err(LbpError::Pool(PoolError::SlippageExceeded));
    }
    let mut pool = ctx.pool;
    let mut user_state = ctx.user_state_in_pool;
    let mut referrer_state = ctx.referrer_state_in_pool;
    let event = _swap_assets_for_shares(
        &mut pool,
        &mut user_state,
        &ctx.config,
        &ctx.user,
        g.gross_amount,
        shares_out,
        ctx.pool_asset_amount,
        ctx.pool_share_amount,
        g.swap_fees,
        &mut referrer_state,
    )?;
    pool.total_swap_fees_asset = g.total_swap_fees;
    ctx.pool = pool;
    ctx.user_state_in_pool = user_state;
    ctx.referrer_state_in_pool = referrer_state;
    Ok(event)
}

/// The two arguments of the power that a run of
/// [`swap_shares_for_exact_assets`] asks for, where it reaches the power.
pub open spec fn swap_shares_for_exact_assets_power_args(
    ctx: SwapTokens,
    current_time: i64,
    assets_out: u64,
    merkle_proof: Option<Vec<[u8; 32]>>,
) -> Option<(int, int)> {
    match swap_guard_spec(ctx.pool, ctx.user, ctx.config, current_time, merkle_proof, true) {
        Err(_) => None,
        Ok(_) => preview_shares_in_power_args(ctx.preview_args(current_time), assets_out as int),
    }
}

/// Result of [`swap_shares_for_exact_assets`] where the primitives
/// answered `l` and `e`: the assets are quoted, the fee comes on top of the
/// quote, the two together are held against `max_shares_in`, and the sale
/// is booked.
pub open spec fn swap_shares_for_exact_assets_spec(
    ctx: SwapTokens,
    current_time: i64,
    assets_out: u64,
    max_shares_in: u64,
    merkle_proof: Option<Vec<[u8; 32]>>,
    l: int,
    e: int,
) -> Result<(SwapTokens, Sell), LbpError> {
    match swap_guard_spec(ctx.pool, ctx.user, ctx.config, current_time, merkle_proof, true) {
        Err(err) => Err(err),
        Ok(_) => match preview_shares_in_spec(
            ctx.preview_args(current_time),
            assets_out as int,
            l,
            e,
        ) {
            Err(err) => Err(LbpError::Math(err)),
            Ok(net) => match gross_up_spec(
                net,
                ctx.config.swap_fee,
                ctx.pool.total_swap_fees_share,
            ) {
                Err(err) => Err(err),
                Ok(g) => if g.gross_amount > max_shares_in {
                    Err(LbpError::Pool(PoolError::SlippageExceeded))
                } else {
                    match sale_spec(
                        ctx.pool,
                        ctx.user_state_in_pool,
                        g.gross_amount,
                        ctx.pool_asset_amount,
                        ctx.pool_share_amount,
                    ) {
                        Err(err) => Err(err),
                        Ok(sale) => Ok(
                            (
                                after_sale(ctx, sale, g.total_swap_fees),
                                Sell {
                                    user: ctx.user,
                                    shares: g.gross_amount,
                                    assets: assets_out,
                                    swap_fee: g.swap_fees,
                                },
                            ),
                        ),
                    }
                },
            },
        },
    }
}

/// Swaps shares for exactly `assets_out` assets, at most `max_shares_in`
/// shares, the swap fee included.
pub fn swap_shares_for_exact_assets<L: Fn(i64) -> i128, E: Fn(i128) -> i128>(
    ctx: &mut SwapTokens,
    current_time: i64,
    assets_out: u64,
    max_shares_in: u64,
    merkle_proof: Option<Vec<[u8; 32]>>,
    ln: &L,
    exp: &E,
) -> (r: Result<Sell, LbpError>)
    requires
        ln_ready(ln),
        exp_ready(exp),
    ensures
        exists|l: i128, e: i128| #[trigger]
            power_answers(
                ln,
                exp,
                swap_shares_for_exact_assets_power_args(
                    *old(ctx),
                    current_time,
                    assets_out,
                    merkle_proof,
                ),
                l,
                e,
            ) && swap_outcome(
                r,
                *old(ctx),
                *final(ctx),
                swap_shares_for_exact_assets_spec(
                    *old(ctx),
                    current_time,
                    assets_out,
                    max_shares_in,
                    merkle_proof,
                    l as int,
                    e as int,
                ),
            ),
        r.is_err() ==> *final(ctx) == *old(ctx),
        r.is_ok() && old(ctx).pool.wf() ==> final(ctx).pool.wf(),
        old(ctx).pool.succeeded_by(final(ctx).pool),
{
    let ghost power_args = swap_shares_for_exact_assets_power_args(
        *ctx,
        current_time,
        assets_out,
        merkle_proof,
    );
    if let Err(err) = swap_guard(
        &ctx.pool,
        &ctx.user,
        &ctx.config,
        current_time,
        &merkle_proof,
        true,
    ) {
        assert(power_answers(ln, exp, power_args, 0, 0));
        return Err(err);
    }
    let args = preview_args(
        &ctx.pool,
        ctx.pool_asset_amount,
        ctx.pool_share_amount,
        ctx.asset_token_decimals,
        ctx.share_token_decimals,
        current_time,
    );
    let quoted = preview_shares_in(args, assets_out, ln, exp);
    proof {
        let (l, e) = choose|l: i128, e: i128| #[trigger]
            power_answers(ln, exp, power_args, l, e) && quoted == preview_shares_in_spec(
                args,
                assets_out as int,
                l as int,
                e as int,
            );
        assert(power_answers(ln, exp, power_args, l, e));
    }
    let net = lift(quoted)?;
    let g = gross_up(net, ctx.config.swap_fee, ctx.pool.total_swap_fees_share)?;
    if g.gross_amount > max_shares_in {
        return Err(LbpError::Pool(PoolError::SlippageExceeded));
    }
    let mut pool = ctx.pool;
    let mut user_state = ctx.user_state_in_pool;
    let event = _swap_shares_for_assets(
        &mut pool,
        &mut user_state,
        &ctx.user,
        assets_out,
        g.gross_amount,
        ctx.pool_asset_amount,
        ctx.pool_share_amount,
        g.swap_fees,
    )?;
    pool.total_swap_fees_share = g.total_swap_fees;
    ctx.pool = pool;
    ctx.user_state_in_pool = user_state;
    Ok(event)
}

} // verus!
