//! What a user would pay or get, the swap fee included, and the pool's
//! reserves and weights: read-only views of a pool at a point in time.

use vstd::prelude::*;
use crate::constants::MAX_FEE_BIPS;
use crate::error::{LbpError, PoolError, SafeMathError};
use crate::events::{
    PreviewAssetsIn, PreviewAssetsOut, PreviewSharesIn, PreviewSharesOut, ReservesAndWeights,
};
use crate::quote::{
    calculate_fee, calculate_fee_spec, compute_reserves_and_weights,
    compute_reserves_and_weights_spec, PreviewAmountArgs,
};
use crate::safe_math::{exp_ready, ln_ready, safe_add};
use crate::state::{LiquidityBootstrappingPool, OwnerConfig};
use crate::swap::{
    lift, preview_args, preview_args_spec, swap_assets_for_exact_shares_spec,
    swap_exact_assets_for_shares_spec, swap_exact_shares_for_assets_spec,
    swap_shares_for_exact_assets_spec, SwapTokens,
};
use crate::weighted_math::power_answers;

verus! {

/// What a view reads: the pool with its two balances and the decimals of
/// its two tokens, and the fee schedule.
#[derive(Clone, Copy, Debug, PartialEq, Eq)]
pub struct ReturnPreviewContext {
    pub asset_token_decimals: u8,
    pub share_token_decimals: u8,
    pub pool: LiquidityBootstrappingPool,
    /// Assets that the pool holds.
    pub pool_asset_amount: u64,
    /// Shares that the pool holds.
    pub pool_share_amount: u64,
    pub config: OwnerConfig,
}

impl ReturnPreviewContext {
    /// The figures that a quote for this pool depends on, at `current_time`.
    pub open spec fn preview_args(&self, current_time: i64) -> PreviewAmountArgs {
        preview_args_spec(
            self.pool,
            self.pool_asset_amount,
            self.pool_share_amount,
            self.asset_token_decimals,
            self.share_token_decimals,
            current_time,
        )
    }

    /// Gathers the figures that a quote for this pool depends on.
    pub fn args(&self, current_time: i64) -> (args: PreviewAmountArgs)
        ensures
            args == self.preview_args(current_time),
    {
        preview_args(
            &self.pool,
            self.pool_asset_amount,
            self.pool_share_amount,
            self.asset_token_decimals,
            self.share_token_decimals,
            current_time,
        )
    }
}

/// An amount with the fee at `fee` basis points on top of it.
pub open spec fn with_fee_spec(net: u64, fee: u16) -> Result<u64, SafeMathError> {
    if net + calculate_fee_spec(net as int, fee as int) > u64::MAX {
        Err(SafeMathError::AdditionOverflow)
    } else {
        Ok((net + calculate_fee_spec(net as int, fee as int)) as u64)
    }
}

/// An amount without the fee at `fee` basis points that is part of it.
pub open spec fn without_fee_spec(gross: u64, fee: u16) -> int {
    gross - calculate_fee_spec(gross as int, fee as int)
}

/// Puts the fee, of at most one whole, on top of an amount.
pub fn with_fee(net: u64, fee: u16) -> (r: Result<u64, SafeMathError>)
    requires
        fee <= MAX_FEE_BIPS,
    ensures
        r == with_fee_spec(net, fee),
        r matches Ok(gross) ==> gross >= net,
{
    safe_add(net, calculate_fee(net, fee))
}

/// Takes the fee, of at most one whole, out of an amount.
pub fn without_fee(gross: u64, fee: u16) -> (net: u64)
    requires
        fee <= MAX_FEE_BIPS,
    ensures
        net == without_fee_spec(gross, fee),
        net <= gross,
{
    gross - calculate_fee(gross, fee)
}

/// The two arguments of the power that a run of [`preview_assets_in`] asks
/// for, where it reaches the power.
pub open spec fn preview_assets_in_power_args(
    ctx: ReturnPreviewContext,
    current_time: i64,
    shares_out: u64,
) -> Option<(int, int)> {
    if !ctx.config.wf() {
        None
    } else {
        crate::quote::preview_assets_in_power_args(ctx.preview_args(current_time), shares_out as int)
    }
}

/// Result of [`preview_assets_in`] where the primitives answered `l` and
/// `e`: the quote with the swap fee on top. A fee schedule with a fee above
/// one whole is refused.
pub open spec fn preview_assets_in_spec(
    ctx: ReturnPreviewContext,
    current_time: i64,
    shares_out: u64,
    l: int,
    e: int,
) -> Result<PreviewAssetsIn, LbpError> {
    if !ctx.config.wf() {
        Err(LbpError::Pool(PoolError::MaxFeeExceeded))
    } else {
        match crate::quote::preview_assets_in_spec(
            ctx.preview_args(current_time),
            shares_out as int,
            l,
            e,
        ) {
            Err(err) => Err(LbpError::Math(err)),
            Ok(net) => match with_fee_spec(net, ctx.config.swap_fee) {
                Err(err) => Err(LbpError::Math(err)),
                Ok(assets_in) => Ok(PreviewAssetsIn { assets_in }),
            },
        }
    }
}

/// Assets that a user pays for `shares_out` shares, the swap fee included.
pub fn preview_assets_in<L: Fn(i64) -> i128, E: Fn(i128) -> i128>(
    ctx: &ReturnPreviewContext,
    current_time: i64,
    shares_out: u64,
    ln: &L,
    exp: &E,
) -> (r: Result<PreviewAssetsIn, LbpError>)
    requires
        ln_ready(ln),
        exp_ready(exp),
    ensures
        exists|l: i128, e: i128| #[trigger]
            power_answers(
                ln,
                exp,
                preview_assets_in_power_args(*ctx, current_time, shares_out),
                l,
                e,
            ) && r == preview_assets_in_spec(*ctx, current_time, shares_out, l as int, e as int),
        r matches Ok(preview) ==> preview.assets_in > 0,
{
    let ghost power_args = preview_assets_in_power_args(*ctx, current_time, shares_out);
    if !ctx.config.fees_valid() {
        assert(power_answers(ln, exp, power_args, 0, 0));
        return Err(LbpError::Pool(PoolError::MaxFeeExceeded));
    }
    let quoted = crate::quote::preview_assets_in(ctx.args(current_time), shares_out, ln, exp);
    let net = lift(quoted)?;
    let assets_in = lift(with_fee(net, ctx.config.swap_fee))?;
    Ok(PreviewAssetsIn { assets_in })
}

/// The two arguments of the power that a run of [`preview_shares_in`] asks
/// for, where it reaches the power.
pub open spec fn preview_shares_in_power_args(
    ctx: ReturnPreviewContext,
    current_time: i64,
    assets_out: u64,
) -> Option<(int, int)> {
    if !ctx.config.wf() {
        None
    } else {
        crate::quote::preview_shares_in_power_args(ctx.preview_args(current_time), assets_out as int)
    }
}

/// Result of [`preview_shares_in`] where the primitives answered `l` and
/// `e`: the quote with the swap fee on top. A fee schedule with a fee above
/// one whole is refused.
pub open spec fn preview_shares_in_spec(
    ctx: ReturnPreviewContext,
    current_time: i64,
    assets_out: u64,
    l: int,
    e: int,
) -> Result<PreviewSharesIn, LbpError> {
    if !ctx.config.wf() {
        Err(LbpError::Pool(PoolError::MaxFeeExceeded))
    } else {
        match crate::quote::preview_shares_in_spec(
            ctx.preview_args(current_time),
            assets_out as int,
            l,
            e,
        ) {
            Err(err) => Err(LbpError::Math(err)),
            Ok(net) => match with_fee_spec(net, ctx.config.swap_fee) {
                Err(err) => Err(LbpError::Math(err)),
                Ok(shares_in) => Ok(PreviewSharesIn { shares_in }),
            },
        }
    }
}

/// Shares that a user gives up for `assets_out` assets, the swap fee
/// included.
pub fn preview_shares_in<L: Fn(i64) -> i128, E: Fn(i128) -> i128>(
    ctx: &ReturnPreviewContext,
    current_time: i64,
    assets_out: u64,
    ln: &L,
    exp: &E,
) -> (r: Result<PreviewSharesIn, LbpError>)
    requires
        ln_ready(ln),
        exp_ready(exp),
    ensures
        exists|l: i128, e: i128| #[trigger]
            power_answers(
                ln,
                exp,
                preview_shares_in_power_args(*ctx, current_time, assets_out),
                l,
                e,
            ) && r == preview_shares_in_spec(*ctx, current_time, assets_out, l as int, e as int),
        r matches Ok(preview) ==> preview.shares_in > 0,
{
    let ghost power_args = preview_shares_in_power_args(*ctx, current_time, assets_out);
    if !ctx.config.fees_valid() {
        assert(power_answers(ln, exp, power_args, 0, 0));
        return Err(LbpError::Pool(PoolError::MaxFeeExceeded));
    }
    let quoted = crate::quote::preview_shares_in(ctx.args(current_time), assets_out, ln, exp);
    let net = lift(quoted)?;
    let shares_in = lift(with_fee(net, ctx.config.swap_fee))?;
    Ok(PreviewSharesIn { shares_in })
}

/// The two arguments of the power that a run of [`preview_shares_out`]
/// asks for, where it reaches the power.
pub open spec fn preview_shares_out_power_args(
    ctx: ReturnPreviewContext,
    current_time: i64,
    assets_in: u64,
) -> Option<(int, int)> {
    if !ctx.config.wf() {
        None
    } else {
        crate::quote::preview_shares_out_power_args(
            ctx.preview_args(current_time),
            without_fee_spec(assets_in, ctx.config.swap_fee) as int,
        )
    }
}

/// Result of [`preview_shares_out`] where the primitives answered `l` and
/// `e`: the quote for the amount without the swap fee. A fee schedule with
/// a fee above one whole is refused.
pub open spec fn preview_shares_out_spec(
    ctx: ReturnPreviewContext,
    current_time: i64,
    assets_in: u64,
    l: int,
    e: int,
) -> Result<PreviewSharesOut, LbpError> {
    if !ctx.config.wf() {
        Err(LbpError::Pool(PoolError::MaxFeeExceeded))
    } else {
        match crate::quote::preview_shares_out_spec(
            ctx.preview_args(current_time),
            without_fee_spec(assets_in, ctx.config.swap_fee) as int,
            l,
            e,
        ) {
            Err(err) => Err(LbpError::Math(err)),
            Ok(shares_out) => Ok(PreviewSharesOut { shares_out }),
        }
    }
}

/// Shares that a user gets for `assets_in` assets, of which the swap fee is
/// a part.
pub fn preview_shares_out<L: Fn(i64) -> i128, E: Fn(i128) -> i128>(
    ctx: &ReturnPreviewContext,
    current_time: i64,
    assets_in: u64,
    ln: &L,
    exp: &E,
) -> (r: Result<PreviewSharesOut, LbpError>)
    requires
        ln_ready(ln),
        exp_ready(exp),
    ensures
        exists|l: i128, e: i128| #[trigger]
            power_answers(
                ln,
                exp,
                preview_shares_out_power_args(*ctx, current_time, assets_in),
                l,
                e,
            ) && r == preview_shares_out_spec(*ctx, current_time, assets_in, l as int, e as int),
{
    let ghost power_args = preview_shares_out_power_args(*ctx, current_time, assets_in);
    if !ctx.config.fees_valid() {
        assert(power_answers(ln, exp, power_args, 0, 0));
        return Err(LbpError::Pool(PoolError::MaxFeeExceeded));
    }
    let net = without_fee(assets_in, ctx.config.swap_fee);
    let quoted = crate::quote::preview_shares_out(ctx.args(current_time), net, ln, exp);
    let shares_out = lift(quoted)?;
    Ok(PreviewSharesOut { shares_out })
}

/// The two arguments of the power that a run of [`preview_assets_out`]
/// asks for, where it reaches the power.
pub open spec fn preview_assets_out_power_args(
    ctx: ReturnPreviewContext,
    current_time: i64,
    shares_in: u64,
) -> Option<(int, int)> {
    if !ctx.config.wf() {
        None
    } else {
        crate::quote::preview_assets_out_power_args(
            ctx.preview_args(current_time),
            without_fee_spec(shares_in, ctx.config.swap_fee) as int,
        )
    }
}

/// Result of [`preview_assets_out`] where the primitives answered `l` and
/// `e`: the quote for the amount without the swap fee. A fee schedule with
/// a fee above one whole is refused.
pub open spec fn preview_assets_out_spec(
    ctx: ReturnPreviewContext,
    current_time: i64,
    shares_in: u64,
    l: int,
    e: int,
) -> Result<PreviewAssetsOut, LbpError> {
    if !ctx.config.wf() {
        Err(LbpError::Pool(PoolError::MaxFeeExceeded))
    } else {
        match crate::quote::preview_assets_out_spec(
            ctx.preview_args(current_time),
            without_fee_spec(shares_in, ctx.config.swap_fee) as int,
            l,
            e,
        ) {
            Err(err) => Err(LbpError::Math(err)),
            Ok(assets_out) => Ok(PreviewAssetsOut { assets_out }),
        }
    }
}

/// Assets that a user gets for `shares_in` shares, of which the swap fee is
/// a part.
pub fn preview_assets_out<L: Fn(i64) -> i128, E: Fn(i128) -> i128>(
    ctx: &ReturnPreviewContext,
    current_time: i64,
    shares_in: u64,
    ln: &L,
    exp: &E,
) -> (r: Result<PreviewAssetsOut, LbpError>)
    requires
        ln_ready(ln),
        exp_ready(exp),
    ensures
        exists|l: i128, e: i128| #[trigger]
            power_answers(
                ln,
                exp,
                preview_assets_out_power_args(*ctx, current_time, shares_in),
                l,
                e,
            ) && r == preview_assets_out_spec(*ctx, current_time, shares_in, l as int, e as int),
{
    let ghost power_args = preview_assets_out_power_args(*ctx, current_time, shares_in);
    if !ctx.config.fees_valid() {
        assert(power_answers(ln, exp, power_args, 0, 0));
        return Err(LbpError::Pool(PoolError::MaxFeeExceeded));
    }
    let net = without_fee(shares_in, ctx.config.swap_fee);
    let quoted = crate::quote::preview_assets_out(ctx.args(current_time), net, ln, exp);
    let assets_out = lift(quoted)?;
    Ok(PreviewAssetsOut { assets_out })
}

/// Result of [`reserves_and_weights`].
pub open spec fn reserves_and_weights_spec(
    ctx: ReturnPreviewContext,
    current_time: i64,
) -> Result<ReservesAndWeights, SafeMathError> {
    match compute_reserves_and_weights_spec(ctx.preview_args(current_time)) {
        Err(err) => Err(err),
        Ok(c) => Ok(
            ReservesAndWeights {
                asset_reserve: c.asset_reserve,
                share_reserve: c.share_reserve,
                asset_weight: c.asset_weight,
                share_weight: c.share_weight,
            },
        ),
    }
}

/// Reserves and weights of the pool at `current_time`.
pub fn reserves_and_weights(
    ctx: &ReturnPreviewContext,
    current_time: i64,
) -> (r: Result<ReservesAndWeights, SafeMathError>)
    ensures
        r == reserves_and_weights_spec(*ctx, current_time),
        r matches Ok(v) ==> v.asset_weight + v.share_weight == MAX_FEE_BIPS,
{
    let c = compute_reserves_and_weights(&ctx.args(current_time))?;
    Ok(
        ReservesAndWeights {
            asset_reserve: c.asset_reserve,
            share_reserve: c.share_reserve,
            asset_weight: c.asset_weight,
            share_weight: c.share_weight,
        },
    )
}

/// What a view reads of the accounts of a swap.
pub open spec fn view_of(ctx: SwapTokens) -> ReturnPreviewContext {
    ReturnPreviewContext {
        asset_token_decimals: ctx.asset_token_decimals,
        share_token_decimals: ctx.share_token_decimals,
        pool: ctx.pool,
        pool_asset_amount: ctx.pool_asset_amount,
        pool_share_amount: ctx.pool_share_amount,
        config: ctx.config,
    }
}

/// A purchase with exact assets credits the shares that the view shows for
/// the pool as it stands before the swap, under the same answers of the
/// primitives; the fee is the swap fee on the assets, and the pool's swap
/// fees in assets grow by it.
pub proof fn lemma_exact_assets_swap_as_previewed(
    ctx: SwapTokens,
    current_time: i64,
    assets_in: u64,
    min_shares_out: u64,
    merkle_proof: Option<Vec<[u8; 32]>>,
    l: int,
    e: int,
)
    requires
        swap_exact_assets_for_shares_spec(
            ctx,
            current_time,
            assets_in,
            min_shares_out,
            merkle_proof,
            l,
            e,
        ) is Ok,
    ensures
        ({
            let (after, bought) = swap_exact_assets_for_shares_spec(
                ctx,
                current_time,
                assets_in,
                min_shares_out,
                merkle_proof,
                l,
                e,
            )->Ok_0;
            &&& preview_shares_out_spec(view_of(ctx), current_time, assets_in, l, e) == Ok::<
                PreviewSharesOut,
                LbpError,
            >(PreviewSharesOut { shares_out: bought.shares })
            &&& bought.assets == assets_in
            &&& bought.swap_fee == calculate_fee_spec(assets_in as int, ctx.config.swap_fee as int)
            &&& after.pool.total_swap_fees_asset == ctx.pool.total_swap_fees_asset
                + bought.swap_fee
            &&& bought.shares >= min_shares_out
        }),
{
    crate::weighted_math::lemma_part_fits(assets_in as int, ctx.config.swap_fee as int);
}

/// A purchase of exact shares takes the assets that the view shows for the
/// pool as it stands before the swap, under the same answers of the
/// primitives.
pub proof fn lemma_exact_shares_purchase_as_previewed(
    ctx: SwapTokens,
    current_time: i64,
    shares_out: u64,
    max_assets_in: u64,
    merkle_proof: Option<Vec<[u8; 32]>>,
    l: int,
    e: int,
)
    requires
        swap_assets_for_exact_shares_spec(
            ctx,
            current_time,
            shares_out,
            max_assets_in,
            merkle_proof,
            l,
            e,
        ) is Ok,
    ensures
        ({
            let (after, bought) = swap_assets_for_exact_shares_spec(
                ctx,
                current_time,
                shares_out,
                max_assets_in,
                merkle_proof,
                l,
                e,
            )->Ok_0;
            &&& preview_assets_in_spec(view_of(ctx), current_time, shares_out, l, e) == Ok::<
                PreviewAssetsIn,
                LbpError,
            >(PreviewAssetsIn { assets_in: bought.assets })
            &&& bought.shares == shares_out
            &&& after.pool.total_swap_fees_asset == ctx.pool.total_swap_fees_asset
                + bought.swap_fee
            &&& bought.assets <= max_assets_in
        }),
{
}

/// A sale of exact shares pays the assets that the view shows for the pool
/// as it stands before the swap, under the same answers of the primitives.
pub proof fn lemma_exact_shares_sale_as_previewed(
    ctx: SwapTokens,
    current_time: i64,
    shares_in: u64,
    min_assets_out: u64,
    merkle_proof: Option<Vec<[u8; 32]>>,
    l: int,
    e: int,
)
    requires
        swap_exact_shares_for_assets_spec(
            ctx,
            current_time,
            shares_in,
            min_assets_out,
            merkle_proof,
            l,
            e,
        ) is Ok,
    ensures
        ({
            let (after, sold) = swap_exact_shares_for_assets_spec(
                ctx,
                current_time,
                shares_in,
                min_assets_out,
                merkle_proof,
                l,
                e,
            )->Ok_0;
            &&& preview_assets_out_spec(view_of(ctx), current_time, shares_in, l, e) == Ok::<
                PreviewAssetsOut,
                LbpError,
            >(PreviewAssetsOut { assets_out: sold.assets })
            &&& sold.shares == shares_in
            &&& after.pool.total_swap_fees_share == ctx.pool.total_swap_fees_share + sold.swap_fee
            &&& sold.assets >= min_assets_out
        }),
{
    crate::weighted_math::lemma_part_fits(shares_in as int, ctx.config.swap_fee as int);
}

/// A sale for exact assets takes the shares that the view shows for the
/// pool as it stands before the swap, under the same answers of the
/// primitives.
pub proof fn lemma_exact_assets_sale_as_previewed(
    ctx: SwapTokens,
    current_time: i64,
    assets_out: u64,
    max_shares_in: u64,
    merkle_proof: Option<Vec<[u8; 32]>>,
    l: int,
    e: int,
)
    requires
        swap_shares_for_exact_assets_spec(
            ctx,
            current_time,
            assets_out,
            max_shares_in,
            merkle_proof,
            l,
            e,
        ) is Ok,
    ensures
        ({
            let (after, sold) = swap_shares_for_exact_assets_spec(
                ctx,
                current_time,
                assets_out,
                max_shares_in,
                merkle_proof,
                l,
                e,
            )->Ok_0;
            &&& preview_shares_in_spec(view_of(ctx), current_time, assets_out, l, e) == Ok::<
                PreviewSharesIn,
                LbpError,
            >(PreviewSharesIn { shares_in: sold.shares })
            &&& sold.assets == assets_out
            &&& after.pool.total_swap_fees_share == ctx.pool.total_swap_fees_share + sold.swap_fee
            &&& sold.shares <= max_shares_in
        }),
{
}

} // verus!
