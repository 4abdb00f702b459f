//! Quotes: reserves and weights of a pool at a point in time, decimal
//! scaling, the four previews with their cap on the share price, and fees.
//!
//! A preview runs in three steps: it derives the scaled reserves and the
//! scaled amount from the pool's figures, asks the bonding curve, and
//! settles the curve's answer against the cap on the share price. The first
//! and the last step are plain integer arithmetic; only the curve depends on
//! the caller's primitives.

use vstd::prelude::*;
use vstd::arithmetic::power::{pow, lemma_pow_positive};
use crate::constants::MAX_FEE_BIPS;
use crate::error::SafeMathError;
use crate::safe_math::{
    div, exp_ready, ln_ready, mul_div, mul_div_spec, safe_add, safe_pow, safe_sub,
};
use crate::weighted_math::{
    get_amount_in, get_amount_in_power_args, get_amount_in_spec, get_amount_out,
    get_amount_out_power_args, get_amount_out_spec, linear_interpolation,
    linear_interpolation_spec, power_answers,
};

verus! {

/// Number of decimals to which amounts are brought before they enter the curve.
pub const DECIMAL_SCALING: u64 = 9;

/// One whole token at [`DECIMAL_SCALING`] decimals: the scale of share prices.
pub const SCALED_DECIMALS: u64 = 1_000_000_000;

/// Reserves and weights of a pool at a point in time.
#[derive(Clone, Copy, Debug, PartialEq, Eq, Structural)]
pub struct ComputedReservesAndWeights {
    pub asset_reserve: u64,
    pub share_reserve: u64,
    pub asset_weight: u64,
    pub share_weight: u64,
}

/// The two reserves at [`DECIMAL_SCALING`] decimals.
#[derive(Clone, Copy, Debug, PartialEq, Eq, Structural)]
pub struct ScaledReserves {
    pub asset_reserve_scaled: u64,
    pub share_reserve_scaled: u64,
}

/// Weights, and reserves at [`DECIMAL_SCALING`] decimals: what the curve takes.
#[derive(Clone, Copy, Debug, PartialEq, Eq, Structural)]
pub struct FormattedReserves {
    pub asset_weight: u64,
    pub share_weight: u64,
    pub asset_reserve_scaled: u64,
    pub share_reserve_scaled: u64,
}

/// The figures of a pool that a quote depends on, with the current time.
#[derive(Clone, Copy, Debug, PartialEq, Eq, Structural)]
pub struct PreviewAmountArgs {
    pub assets: u64,
    pub virtual_assets: u64,
    pub asset_token_decimal: u8,
    pub shares: u64,
    pub virtual_shares: u64,
    pub share_token_decimal: u8,
    pub total_purchased: u64,
    pub current_time: i64,
    pub max_share_price: u64,
    pub sale_start_time: i64,
    pub sale_end_time: i64,
    pub start_weight_basis_points: u16,
    pub end_weight_basis_points: u16,
    pub total_swap_fees_asset: u64,
    pub total_swap_fees_share: u64,
}

/// `floor(amount * fee / 10000)`.
pub open spec fn calculate_fee_spec(amount: int, fee: int) -> int {
    (amount * fee) / (MAX_FEE_BIPS as int)
}

/// The fee on `amount` at `fee` basis points, rounded down; `fee` is at
/// most one whole. The product is formed in 128 bits.
pub fn calculate_fee(amount: u64, fee: u16) -> (r: u64)
    requires
        fee <= MAX_FEE_BIPS,
    ensures
        r == calculate_fee_spec(amount as int, fee as int),
        r <= amount,
{
    proof {
        crate::weighted_math::lemma_part_fits(amount as int, fee as int);
        crate::safe_math::lemma_product_fits(amount, fee as u64);
    }
    let q: u128 = ((amount as u128) * (fee as u128)) / (MAX_FEE_BIPS as u128);
    q as u64
}

/// A fee is no more than the amount; it grows with the amount and with the
/// rate.
pub proof fn lemma_fee_bounded_and_monotone(amount: u64, larger: u64, fee: u16, higher: u16)
    requires
        amount <= larger,
        fee <= higher <= MAX_FEE_BIPS,
    ensures
        0 <= calculate_fee_spec(amount as int, fee as int) <= amount,
        calculate_fee_spec(amount as int, fee as int) <= calculate_fee_spec(
            larger as int,
            fee as int,
        ),
        calculate_fee_spec(amount as int, fee as int) <= calculate_fee_spec(
            amount as int,
            higher as int,
        ),
{
    crate::weighted_math::lemma_part_fits(amount as int, fee as int);
    crate::weighted_math::lemma_part_fits(larger as int, fee as int);
    crate::weighted_math::lemma_part_fits(amount as int, higher as int);
    assert((amount * fee) / 10_000 <= (larger * fee) / 10_000) by (nonlinear_arith)
        requires
            0 <= amount <= larger,
            0 <= fee,
    ;
    assert((amount * fee) / 10_000 <= (amount * higher) / 10_000) by (nonlinear_arith)
        requires
            0 <= amount,
            0 <= fee <= higher,
    ;
}

/// A fee is linear in the amount up to rounding: the
/// fee on a sum is the sum of the fees, or one more; and on whole multiples
/// of 10000 it is linear exactly.
pub proof fn lemma_fee_linear(a: u64, b: u64, k: u64, fee: u16)
    requires
        fee <= MAX_FEE_BIPS,
        a + b <= u64::MAX,
        a + k * MAX_FEE_BIPS <= u64::MAX,
    ensures
        calculate_fee_spec(a as int, fee as int) + calculate_fee_spec(b as int, fee as int)
            <= calculate_fee_spec(a + b, fee as int),
        calculate_fee_spec(a + b, fee as int) <= calculate_fee_spec(a as int, fee as int)
            + calculate_fee_spec(b as int, fee as int) + 1,
        calculate_fee_spec(a + k * MAX_FEE_BIPS, fee as int) == calculate_fee_spec(
            a as int,
            fee as int,
        ) + k * fee,
{
    crate::weighted_math::lemma_part_fits(a as int, fee as int);
    crate::weighted_math::lemma_part_fits(b as int, fee as int);
    crate::weighted_math::lemma_part_fits(a + b, fee as int);
    crate::weighted_math::lemma_part_fits(a + k * MAX_FEE_BIPS, fee as int);
    let f = fee as int;
    assert((a + b) * f == a * f + b * f) by (nonlinear_arith);
    lemma_quotient_of_sum(a * f, b * f);
    assert((a + k * 10_000) * f == a * f + (k * f) * 10_000) by (nonlinear_arith);
    assert(0 <= a * f) by (nonlinear_arith)
        requires
            0 <= a,
            0 <= f,
    ;
    assert((a * f + (k * f) * 10_000) / 10_000 == (a * f) / 10_000 + k * f) by (nonlinear_arith)
        requires
            0 <= a * f,
    ;
}

/// The quotient of a sum by 10000 is the sum of the quotients, or one more.
pub proof fn lemma_quotient_of_sum(x: int, y: int)
    requires
        0 <= x,
        0 <= y,
    ensures
        x / 10_000 + y / 10_000 <= (x + y) / 10_000 <= x / 10_000 + y / 10_000 + 1,
{
}

/// The asset reserve that the curve sees: what the pool holds with the
/// virtual assets, without the swap fees taken in assets.
pub open spec fn asset_reserve_spec(args: PreviewAmountArgs) -> Result<u64, SafeMathError> {
    if args.assets + args.virtual_assets > u64::MAX {
        Err(SafeMathError::AdditionOverflow)
    } else if args.assets + args.virtual_assets < args.total_swap_fees_asset {
        Err(SafeMathError::SubtractionUnderflow)
    } else {
        Ok((args.assets + args.virtual_assets - args.total_swap_fees_asset) as u64)
    }
}

/// The share reserve that the curve sees: what the pool holds with the
/// virtual shares, without the shares purchased and the swap fees taken in
/// shares.
pub open spec fn share_reserve_spec(args: PreviewAmountArgs) -> Result<u64, SafeMathError> {
    if args.shares + args.virtual_shares > u64::MAX {
        Err(SafeMathError::AdditionOverflow)
    } else if args.shares + args.virtual_shares < args.total_purchased {
        Err(SafeMathError::SubtractionUnderflow)
    } else if args.shares + args.virtual_shares - args.total_purchased
        < args.total_swap_fees_share {
        Err(SafeMathError::SubtractionUnderflow)
    } else {
        Ok(
            (args.shares + args.virtual_shares - args.total_purchased
                - args.total_swap_fees_share) as u64,
        )
    }
}

/// Seconds of the sale that have passed: none before the start.
pub open spec fn seconds_elapsed_spec(args: PreviewAmountArgs) -> int {
    if args.current_time > args.sale_start_time {
        args.current_time - args.sale_start_time
    } else {
        0
    }
}

/// The weight of the asset: the weight curve at the seconds that have
/// passed, over the length of the sale. A length or a time passed that
/// leaves the signed 64 bits of a timestamp, and a negative length, are
/// errors.
pub open spec fn asset_weight_spec(args: PreviewAmountArgs) -> Result<u64, SafeMathError> {
    let total = args.sale_end_time - args.sale_start_time;
    if total > i64::MAX || total < i64::MIN {
        Err(SafeMathError::SubtractionUnderflow)
    } else if seconds_elapsed_spec(args) > i64::MAX {
        Err(SafeMathError::SubtractionUnderflow)
    } else if total < 0 {
        Err(SafeMathError::ConversionOverflow)
    } else {
        linear_interpolation_spec(
            args.start_weight_basis_points as int,
            args.end_weight_basis_points as int,
            seconds_elapsed_spec(args),
            total,
        )
    }
}

/// Result of [`compute_reserves_and_weights`]: the two reserves, the
/// asset's weight, and as the share's weight what the asset's weight leaves
/// of one whole.
pub open spec fn compute_reserves_and_weights_spec(
    args: PreviewAmountArgs,
) -> Result<ComputedReservesAndWeights, SafeMathError> {
    match asset_reserve_spec(args) {
        Err(err) => Err(err),
        Ok(asset_reserve) => match share_reserve_spec(args) {
            Err(err) => Err(err),
            Ok(share_reserve) => match asset_weight_spec(args) {
                Err(err) => Err(err),
                Ok(asset_weight) => if asset_weight > MAX_FEE_BIPS {
                    Err(SafeMathError::SubtractionUnderflow)
                } else {
                    Ok(
                        (ComputedReservesAndWeights {
                            asset_reserve,
                            share_reserve,
                            asset_weight,
                            share_weight: (MAX_FEE_BIPS - asset_weight) as u64,
                        }),
                    )
                },
            },
        },
    }
}

/// Reserves and weights of the pool at `args.current_time`.
pub fn compute_reserves_and_weights(
    args: &PreviewAmountArgs,
) -> (r: Result<ComputedReservesAndWeights, SafeMathError>)
    ensures
        r == compute_reserves_and_weights_spec(*args),
        r matches Ok(c) ==> c.asset_weight + c.share_weight == MAX_FEE_BIPS,
{
    let asset_reserve = safe_sub(
        safe_add(args.assets, args.virtual_assets)?,
        args.total_swap_fees_asset,
    )?;
    let share_reserve = safe_sub(
        safe_sub(safe_add(args.shares, args.virtual_shares)?, args.total_purchased)?,
        args.total_swap_fees_share,
    )?;
    let total_seconds: i64 = match args.sale_end_time.checked_sub(args.sale_start_time) {
        Some(v) => v,
        None => {
            return Err(SafeMathError::SubtractionUnderflow);
        },
    };
    let mut seconds_elapsed: i64 = 0;
    if args.current_time > args.sale_start_time {
        seconds_elapsed = match args.current_time.checked_sub(args.sale_start_time) {
            Some(v) => v,
            None => {
                return Err(SafeMathError::SubtractionUnderflow);
            },
        };
    }
    if total_seconds < 0 {
        return Err(SafeMathError::ConversionOverflow);
    }
    let asset_weight = linear_interpolation(
        args.start_weight_basis_points as u64,
        args.end_weight_basis_points as u64,
        seconds_elapsed as u64,
        total_seconds as u64,
    )?;
    let share_weight = safe_sub(MAX_FEE_BIPS as u64, asset_weight)?;
    Ok(ComputedReservesAndWeights { asset_reserve, share_reserve, asset_weight, share_weight })
}

/// Distance of a token's decimals from [`DECIMAL_SCALING`].
pub open spec fn decimal_distance(token_decimals: int) -> nat {
    if token_decimals < DECIMAL_SCALING {
        (DECIMAL_SCALING - token_decimals) as nat
    } else {
        (token_decimals - DECIMAL_SCALING) as nat
    }
}

/// An amount brought from a token's decimals to [`DECIMAL_SCALING`]
/// decimals (`scale_before`) or back (`!scale_before`): multiplied or
/// divided by ten to the distance between the two, and unchanged where
/// they agree.
pub open spec fn scale_token_spec(
    token_decimals: int,
    amount: int,
    scale_before: bool,
) -> Result<u64, SafeMathError> {
    let factor = pow(10, decimal_distance(token_decimals));
    if token_decimals == DECIMAL_SCALING {
        Ok(amount as u64)
    } else if factor > u64::MAX {
        Err(SafeMathError::ExponentiationOverflow)
    } else if (token_decimals < DECIMAL_SCALING) == scale_before {
        if amount * factor > u64::MAX {
            Err(SafeMathError::MultiplicationOverflow)
        } else {
            Ok((amount * factor) as u64)
        }
    } else {
        Ok((amount / factor) as u64)
    }
}

/// Brings `amount` from the token's decimals to the curve's, or back.
pub fn _scale_token(
    token_decimals: u8,
    amount: u64,
    scale_before: bool,
) -> (r: Result<u64, SafeMathError>)
    ensures
        r == scale_token_spec(token_decimals as int, amount as int, scale_before),
        token_decimals == DECIMAL_SCALING ==> r == Ok::<u64, SafeMathError>(amount),
{
    let token_decimals_u64 = token_decimals as u64;
    if token_decimals_u64 == DECIMAL_SCALING {
        return Ok(amount);
    }
    let dec_diff: u64 = if token_decimals_u64 < DECIMAL_SCALING {
        DECIMAL_SCALING - token_decimals_u64
    } else {
        token_decimals_u64 - DECIMAL_SCALING
    };
    let factor = safe_pow(10u64, dec_diff as u32)?;
    proof {
        lemma_pow_positive(10, dec_diff as nat);
    }
    if (token_decimals_u64 < DECIMAL_SCALING) == scale_before {
        crate::safe_math::mul(amount, factor)
    } else {
        div(amount, factor)
    }
}

/// Result of [`scaled_reserves`].
pub open spec fn scaled_reserves_spec(
    asset_token_decimals: int,
    share_token_decimals: int,
    asset_reserve: int,
    share_reserve: int,
) -> Result<ScaledReserves, SafeMathError> {
    match scale_token_spec(asset_token_decimals, asset_reserve, true) {
        Err(err) => Err(err),
        Ok(asset_reserve_scaled) => match scale_token_spec(
            share_token_decimals,
            share_reserve,
            true,
        ) {
            Err(err) => Err(err),
            Ok(share_reserve_scaled) => Ok(
                (ScaledReserves { asset_reserve_scaled, share_reserve_scaled }),
            ),
        },
    }
}

/// Both reserves at the curve's decimals.
pub fn scaled_reserves(
    asset_token_decimals: u8,
    share_token_decimals: u8,
    asset_reserve: u64,
    share_reserve: u64,
) -> (r: Result<ScaledReserves, SafeMathError>)
    ensures
        r == scaled_reserves_spec(
            asset_token_decimals as int,
            share_token_decimals as int,
            asset_reserve as int,
            share_reserve as int,
        ),
{
    let asset_reserve_scaled = _scale_token(asset_token_decimals, asset_reserve, true)?;
    let share_reserve_scaled = _scale_token(share_token_decimals, share_reserve, true)?;
    Ok(ScaledReserves { asset_reserve_scaled, share_reserve_scaled })
}

/// Result of [`_get_scaled_reserves_and_weights`]: the weights of
/// [`compute_reserves_and_weights_spec`] with its reserves scaled.
pub open spec fn formatted_reserves_spec(
    args: PreviewAmountArgs,
) -> Result<FormattedReserves, SafeMathError> {
    match compute_reserves_and_weights_spec(args) {
        Err(err) => Err(err),
        Ok(c) => match scaled_reserves_spec(
            args.asset_token_decimal as int,
            args.share_token_decimal as int,
            c.asset_reserve as int,
            c.share_reserve as int,
        ) {
            Err(err) => Err(err),
            Ok(s) => Ok(
                (FormattedReserves {
                    asset_weight: c.asset_weight,
                    share_weight: c.share_weight,
                    asset_reserve_scaled: s.asset_reserve_scaled,
                    share_reserve_scaled: s.share_reserve_scaled,
                }),
            ),
        },
    }
}

/// Weights and scaled reserves of the pool at `args.current_time`.
pub fn _get_scaled_reserves_and_weights(
    args: &PreviewAmountArgs,
) -> (r: Result<FormattedReserves, SafeMathError>)
    ensures
        r == formatted_reserves_spec(*args),
{
    let c = compute_reserves_and_weights(args)?;
    let s = scaled_reserves(
        args.asset_token_decimal,
        args.share_token_decimal,
        c.asset_reserve,
        c.share_reserve,
    )?;
    Ok(
        FormattedReserves {
            asset_weight: c.asset_weight,
            share_weight: c.share_weight,
            asset_reserve_scaled: s.asset_reserve_scaled,
            share_reserve_scaled: s.share_reserve_scaled,
        },
    )
}

/// What a preview holds before it asks the curve: weights and scaled
/// reserves, and the scaled amount.
#[derive(Clone, Copy, Debug, PartialEq, Eq, Structural)]
pub struct QuoteInput {
    pub reserves: FormattedReserves,
    pub amount_scaled: u64,
}

/// Result of [`quote_input`].
pub open spec fn quote_input_spec(
    args: PreviewAmountArgs,
    token_decimals: int,
    amount: int,
) -> Result<QuoteInput, SafeMathError> {
    match formatted_reserves_spec(args) {
        Err(err) => Err(err),
        Ok(reserves) => match scale_token_spec(token_decimals, amount, true) {
            Err(err) => Err(err),
            Ok(amount_scaled) => Ok((QuoteInput { reserves, amount_scaled })),
        },
    }
}

/// Weights and scaled reserves of the pool, and `amount` of a token of
/// `token_decimals` decimals at the curve's decimals.
pub fn quote_input(
    args: &PreviewAmountArgs,
    token_decimals: u8,
    amount: u64,
) -> (r: Result<QuoteInput, SafeMathError>)
    ensures
        r == quote_input_spec(*args, token_decimals as int, amount as int),
{
    let reserves = _get_scaled_reserves_and_weights(args)?;
    let amount_scaled = _scale_token(token_decimals, amount, true)?;
    Ok(QuoteInput { reserves, amount_scaled })
}

/// Whether `assets` for `shares` is a price above `max_share_price`: the
/// price is `assets` per share in [`SCALED_DECIMALS`], rounded down.
pub open spec fn price_exceeds_spec(
    assets: int,
    shares: int,
    max_share_price: int,
) -> Result<bool, SafeMathError> {
    match mul_div_spec(assets, SCALED_DECIMALS as int, shares) {
        Err(err) => Err(err),
        Ok(price) => Ok(price > max_share_price),
    }
}

/// Whether the price of `assets` for `shares` is above the cap.
pub fn price_exceeds(
    assets: u64,
    shares: u64,
    max_share_price: u64,
) -> (r: Result<bool, SafeMathError>)
    ensures
        r == price_exceeds_spec(assets as int, shares as int, max_share_price as int),
{
    let price = mul_div(assets, SCALED_DECIMALS, shares)?;
    Ok(price > max_share_price)
}

/// Result of [`settle_shares_out`]: the curve's shares while the assets
/// per share stay within the cap, else the shares that the assets buy at
/// the cap, `assets * SCALED_DECIMALS / max_share_price`; in the share
/// token's decimals.
pub open spec fn settle_shares_out_spec(
    args: PreviewAmountArgs,
    assets_in_scaled: int,
    shares_out: int,
) -> Result<u64, SafeMathError> {
    match price_exceeds_spec(assets_in_scaled, shares_out, args.max_share_price as int) {
        Err(err) => Err(err),
        Ok(over) => {
            let settled = if over {
                mul_div_spec(assets_in_scaled, SCALED_DECIMALS as int, args.max_share_price as int)
            } else {
                Ok(shares_out as u64)
            };
            match settled {
                Err(err) => Err(err),
                Ok(capped) => scale_token_spec(
                    args.share_token_decimal as int,
                    capped as int,
                    false,
                ),
            }
        },
    }
}

/// Settles the shares that the curve gives for scaled assets against the
/// cap: where the assets per share exceed `args.max_share_price`, the buyer
/// gets the shares that the assets buy at the cap.
pub fn settle_shares_out(
    args: &PreviewAmountArgs,
    assets_in_scaled: u64,
    shares_out: u64,
) -> (r: Result<u64, SafeMathError>)
    ensures
        r == settle_shares_out_spec(*args, assets_in_scaled as int, shares_out as int),
{
    let mut capped = shares_out;
    if price_exceeds(assets_in_scaled, shares_out, args.max_share_price)? {
        capped = mul_div(assets_in_scaled, SCALED_DECIMALS, args.max_share_price)?;
    }
    _scale_token(args.share_token_decimal, capped, false)
}

/// An amount that a user has to give, in the token's decimals: an amount of
/// nothing is refused with `fault`.
pub open spec fn required_amount_spec(
    token_decimals: int,
    amount_scaled: int,
    fault: SafeMathError,
) -> Result<u64, SafeMathError> {
    match scale_token_spec(token_decimals, amount_scaled, false) {
        Err(err) => Err(err),
        Ok(amount) => if amount == 0 {
            Err(fault)
        } else {
            Ok(amount)
        },
    }
}

/// Brings an amount that a user has to give back to the token's decimals,
/// and refuses an amount of nothing with `fault`.
pub fn required_amount(token_decimals: u8, amount_scaled: u64, fault: SafeMathError) -> (r: Result<
    u64,
    SafeMathError,
>)
    ensures
        r == required_amount_spec(token_decimals as int, amount_scaled as int, fault),
        r != Ok::<u64, SafeMathError>(0),
{
    let amount = _scale_token(token_decimals, amount_scaled, false)?;
    if amount == 0 {
        return Err(fault);
    }
    Ok(amount)
}

/// Result of [`settle_assets_in`]: the curve's assets while the assets per
/// share stay within the cap, else the assets that the shares cost at the
/// cap, `shares * max_share_price / SCALED_DECIMALS`; in the asset token's
/// decimals. Assets of nothing are refused, from the curve and in the end.
pub open spec fn settle_assets_in_spec(
    args: PreviewAmountArgs,
    shares_out_scaled: int,
    assets_in: int,
) -> Result<u64, SafeMathError> {
    if assets_in == 0 {
        Err(SafeMathError::InvalidAssetsIn)
    } else {
        match price_exceeds_spec(assets_in, shares_out_scaled, args.max_share_price as int) {
            Err(err) => Err(err),
            Ok(over) => {
                let settled = if over {
                    mul_div_spec(
                        shares_out_scaled,
                        args.max_share_price as int,
                        SCALED_DECIMALS as int,
                    )
                } else {
                    Ok(assets_in as u64)
                };
                match settled {
                    Err(err) => Err(err),
                    Ok(capped) => required_amount_spec(
                        args.asset_token_decimal as int,
                        capped as int,
                        SafeMathError::InvalidAssetsIn,
                    ),
                }
            },
        }
    }
}

/// Settles the assets that the curve asks for scaled shares against the
/// cap: where the assets per share exceed `args.max_share_price`, the buyer
/// pays what the shares cost at the cap. The result is never nothing.
pub fn settle_assets_in(
    args: &PreviewAmountArgs,
    shares_out_scaled: u64,
    assets_in: u64,
) -> (r: Result<u64, SafeMathError>)
    ensures
        r == settle_assets_in_spec(*args, shares_out_scaled as int, assets_in as int),
        r != Ok::<u64, SafeMathError>(0),
{
    if assets_in == 0 {
        return Err(SafeMathError::InvalidAssetsIn);
    }
    let mut capped = assets_in;
    if price_exceeds(assets_in, shares_out_scaled, args.max_share_price)? {
        capped = mul_div(shares_out_scaled, args.max_share_price, SCALED_DECIMALS)?;
    }
    required_amount(args.asset_token_decimal, capped, SafeMathError::InvalidAssetsIn)
}

/// Result of [`settle_shares_in`]: the curve's shares while the assets per
/// share stay within the cap, else the shares that the assets are worth at
/// the cap, `assets * SCALED_DECIMALS / max_share_price`; in the share
/// token's decimals. Shares of nothing are refused, from the curve and in
/// the end.
pub open spec fn settle_shares_in_spec(
    args: PreviewAmountArgs,
    assets_out_scaled: int,
    shares_in: int,
) -> Result<u64, SafeMathError> {
    if shares_in == 0 {
        Err(SafeMathError::InvalidSharesIn)
    } else {
        match price_exceeds_spec(assets_out_scaled, shares_in, args.max_share_price as int) {
            Err(err) => Err(err),
            Ok(over) => {
                let settled = if over {
                    mul_div_spec(
                        assets_out_scaled,
                        SCALED_DECIMALS as int,
                        args.max_share_price as int,
                    )
                } else {
                    Ok(shares_in as u64)
                };
                match settled {
                    Err(err) => Err(err),
                    Ok(capped) => required_amount_spec(
                        args.share_token_decimal as int,
                        capped as int,
                        SafeMathError::InvalidSharesIn,
                    ),
                }
            },
        }
    }
}

/// Settles the shares that the curve asks for scaled assets against the
/// cap: where the assets per share exceed `args.max_share_price`, the seller
/// gives the shares that the assets are worth at the cap. The result is
/// never nothing.
pub fn settle_shares_in(
    args: &PreviewAmountArgs,
    assets_out_scaled: u64,
    shares_in: u64,
) -> (r: Result<u64, SafeMathError>)
    ensures
        r == settle_shares_in_spec(*args, assets_out_scaled as int, shares_in as int),
        r != Ok::<u64, SafeMathError>(0),
{
    if shares_in == 0 {
        return Err(SafeMathError::InvalidSharesIn);
    }
    let mut capped = shares_in;
    if price_exceeds(assets_out_scaled, shares_in, args.max_share_price)? {
        capped = mul_div(assets_out_scaled, SCALED_DECIMALS, args.max_share_price)?;
    }
    required_amount(args.share_token_decimal, capped, SafeMathError::InvalidSharesIn)
}

/// Result of [`settle_assets_out`]: the curve's assets while the assets per
/// share stay within the cap, else the assets that the shares are worth at
/// the cap, `shares * max_share_price / SCALED_DECIMALS`; in the asset
/// token's decimals.
pub open spec fn settle_assets_out_spec(
    args: PreviewAmountArgs,
    shares_in_scaled: int,
    assets_out: int,
) -> Result<u64, SafeMathError> {
    match price_exceeds_spec(assets_out, shares_in_scaled, args.max_share_price as int) {
        Err(err) => Err(err),
        Ok(over) => {
            let settled = if over {
                mul_div_spec(shares_in_scaled, args.max_share_price as int, SCALED_DECIMALS as int)
            } else {
                Ok(assets_out as u64)
            };
            match settled {
                Err(err) => Err(err),
                Ok(capped) => scale_token_spec(
                    args.asset_token_decimal as int,
                    capped as int,
                    false,
                ),
            }
        },
    }
}

/// Settles the assets that the curve gives for scaled shares against the
/// cap: where the assets per share exceed `args.max_share_price`, the seller
/// gets what the shares are worth at the cap.
pub fn settle_assets_out(
    args: &PreviewAmountArgs,
    shares_in_scaled: u64,
    assets_out: u64,
) -> (r: Result<u64, SafeMathError>)
    ensures
        r == settle_assets_out_spec(*args, shares_in_scaled as int, assets_out as int),
{
    let mut capped = assets_out;
    if price_exceeds(assets_out, shares_in_scaled, args.max_share_price)? {
        capped = mul_div(shares_in_scaled, args.max_share_price, SCALED_DECIMALS)?;
    }
    _scale_token(args.asset_token_decimal, capped, false)
}

/// Past the cap the price falls to the cap: the shares that an amount of
/// assets buys at the cap are no fewer than the shares of the higher price,
/// and the assets that those shares cost at the cap are no more than the
/// assets of the higher price. The shares at the cap are the most whose
/// price stays at the cap or above: one share more would cost less than the
/// cap.
pub proof fn lemma_cap_lowers_price(assets: u64, shares: u64, max_share_price: u64)
    requires
        max_share_price > 0,
        price_exceeds_spec(assets as int, shares as int, max_share_price as int) == Ok::<
            bool,
            SafeMathError,
        >(true),
    ensures
        (assets * SCALED_DECIMALS) / (max_share_price as int) >= shares,
        (shares * max_share_price) / (SCALED_DECIMALS as int) <= assets,
        ({
            let at_cap = (assets * SCALED_DECIMALS) / (max_share_price as int);
            at_cap * max_share_price <= assets * SCALED_DECIMALS < (at_cap + 1) * max_share_price
        }),
{
    let worth = assets * SCALED_DECIMALS;
    let cap = max_share_price as int;
    let s = shares as int;
    let a = assets as int;
    assert(worth >= (cap + 1) * s && worth >= 0) by (nonlinear_arith)
        requires
            s > 0,
            worth / s > cap,
            cap > 0,
    ;
    assert(worth / cap >= s) by (nonlinear_arith)
        requires
            worth >= (cap + 1) * s,
            cap > 0,
            s > 0,
    ;
    assert((s * cap) / 1_000_000_000 <= a) by (nonlinear_arith)
        requires
            a * 1_000_000_000 >= (cap + 1) * s,
            cap > 0,
            s > 0,
            a >= 0,
    ;
    assert((worth / cap) * cap <= worth < (worth / cap + 1) * cap) by (nonlinear_arith)
        requires
            worth >= 0,
            cap > 0,
    ;
}

/// The two arguments of the power that a run of [`preview_shares_out`] asks for,
/// where it reaches the power.
pub open spec fn preview_shares_out_power_args(
    args: PreviewAmountArgs,
    assets_in: int,
) -> Option<(int, int)> {
    match quote_input_spec(args, args.asset_token_decimal as int, assets_in) {
        Err(_) => None,
        Ok(q) => get_amount_out_power_args(
            q.amount_scaled as int,
            q.reserves.asset_reserve_scaled as int,
            q.reserves.asset_weight as int,
            q.reserves.share_weight as int,
        ),
    }
}

/// Result of [`preview_shares_out`] where the primitives answered `l` and `e`.
pub open spec fn preview_shares_out_spec(
    args: PreviewAmountArgs,
    assets_in: int,
    l: int,
    e: int,
) -> Result<u64, SafeMathError> {
    match quote_input_spec(args, args.asset_token_decimal as int, assets_in) {
        Err(err) => Err(err),
        Ok(q) => match get_amount_out_spec(
            q.amount_scaled as int,
            q.reserves.asset_reserve_scaled as int,
            q.reserves.share_reserve_scaled as int,
            q.reserves.asset_weight as int,
            q.reserves.share_weight as int,
            l,
            e,
        ) {
            Err(err) => Err(err),
            Ok(quoted) => settle_shares_out_spec(args, q.amount_scaled as int, quoted as int),
        },
    }
}

/// Shares that `assets_in` assets buy, in the share token's decimals.
pub fn preview_shares_out<L: Fn(i64) -> i128, E: Fn(i128) -> i128>(
    args: PreviewAmountArgs,
    assets_in: u64,
    ln: &L,
    exp: &E,
) -> (r: Result<u64, SafeMathError>)
    requires
        ln_ready(ln),
        exp_ready(exp),
    ensures
        exists|l: i128, e: i128| #[trigger]
            power_answers(ln, exp, preview_shares_out_power_args(args, assets_in as int), l, e) && r
                == preview_shares_out_spec(args, assets_in as int, l as int, e as int),
{
    let ghost power_args = preview_shares_out_power_args(args, assets_in as int);
    let q = match quote_input(&args, args.asset_token_decimal, assets_in) {
        Ok(q) => q,
        Err(err) => {
            assert(power_answers(ln, exp, power_args, 0, 0));
            return Err(err);
        },
    };
    let quoted = get_amount_out(
        q.amount_scaled,
        q.reserves.asset_reserve_scaled,
        q.reserves.share_reserve_scaled,
        q.reserves.asset_weight,
        q.reserves.share_weight,
        ln,
        exp,
    );
    proof {
        let (l, e) = choose|l: i128, e: i128| #[trigger]
            power_answers(ln, exp, power_args, l, e) && quoted == get_amount_out_spec(
                q.amount_scaled as int,
                q.reserves.asset_reserve_scaled as int,
                q.reserves.share_reserve_scaled as int,
                q.reserves.asset_weight as int,
                q.reserves.share_weight as int,
                l as int,
                e as int,
            );
        assert(power_answers(ln, exp, power_args, l, e));
    }
    match quoted {
        Err(err) => Err(err),
        Ok(v) => settle_shares_out(&args, q.amount_scaled, v),
    }
}

/// The two arguments of the power that a run of [`preview_assets_in`] asks for,
/// where it reaches the power.
pub open spec fn preview_assets_in_power_args(
    args: PreviewAmountArgs,
    shares_out: int,
) -> Option<(int, int)> {
    match quote_input_spec(args, args.share_token_decimal as int, shares_out) {
        Err(_) => None,
        Ok(q) => get_amount_in_power_args(
            q.amount_scaled as int,
            q.reserves.share_reserve_scaled as int,
            q.reserves.asset_weight as int,
            q.reserves.share_weight as int,
        ),
    }
}

/// Result of [`preview_assets_in`] where the primitives answered `l` and `e`.
pub open spec fn preview_assets_in_spec(
    args: PreviewAmountArgs,
    shares_out: int,
    l: int,
    e: int,
) -> Result<u64, SafeMathError> {
    match quote_input_spec(args, args.share_token_decimal as int, shares_out) {
        Err(err) => Err(err),
        Ok(q) => match get_amount_in_spec(
            q.amount_scaled as int,
            q.reserves.asset_reserve_scaled as int,
            q.reserves.share_reserve_scaled as int,
            q.reserves.asset_weight as int,
            q.reserves.share_weight as int,
            l,
            e,
        ) {
            Err(err) => Err(err),
            Ok(quoted) => settle_assets_in_spec(args, q.amount_scaled as int, quoted as int),
        },
    }
}

/// Assets that `shares_out` shares cost, in the asset token's decimals.
pub fn preview_assets_in<L: Fn(i64) -> i128, E: Fn(i128) -> i128>(
    args: PreviewAmountArgs,
    shares_out: u64,
    ln: &L,
    exp: &E,
) -> (r: Result<u64, SafeMathError>)
    requires
        ln_ready(ln),
        exp_ready(exp),
    ensures
        exists|l: i128, e: i128| #[trigger]
            power_answers(ln, exp, preview_assets_in_power_args(args, shares_out as int), l, e) && r
                == preview_assets_in_spec(args, shares_out as int, l as int, e as int),
        r != Ok::<u64, SafeMathError>(0),
{
    let ghost power_args = preview_assets_in_power_args(args, shares_out as int);
    let q = match quote_input(&args, args.share_token_decimal, shares_out) {
        Ok(q) => q,
        Err(err) => {
            assert(power_answers(ln, exp, power_args, 0, 0));
            return Err(err);
        },
    };
    let quoted = get_amount_in(
        q.amount_scaled,
        q.reserves.asset_reserve_scaled,
        q.reserves.share_reserve_scaled,
        q.reserves.asset_weight,
        q.reserves.share_weight,
        ln,
        exp,
    );
    proof {
        let (l, e) = choose|l: i128, e: i128| #[trigger]
            power_answers(ln, exp, power_args, l, e) && quoted == get_amount_in_spec(
                q.amount_scaled as int,
                q.reserves.asset_reserve_scaled as int,
                q.reserves.share_reserve_scaled as int,
                q.reserves.asset_weight as int,
                q.reserves.share_weight as int,
                l as int,
                e as int,
            );
        assert(power_answers(ln, exp, power_args, l, e));
    }
    match quoted {
        Err(err) => Err(err),
        Ok(v) => settle_assets_in(&args, q.amount_scaled, v),
    }
}

/// The two arguments of the power that a run of [`preview_shares_in`] asks for,
/// where it reaches the power.
pub open spec fn preview_shares_in_power_args(
    args: PreviewAmountArgs,
    assets_out: int,
) -> Option<(int, int)> {
    match quote_input_spec(args, args.asset_token_decimal as int, assets_out) {
        Err(_) => None,
        Ok(q) => get_amount_in_power_args(
            q.amount_scaled as int,
            q.reserves.asset_reserve_scaled as int,
            q.reserves.share_weight as int,
            q.reserves.asset_weight as int,
        ),
    }
}

/// Result of [`preview_shares_in`] where the primitives answered `l` and `e`.
pub open spec fn preview_shares_in_spec(
    args: PreviewAmountArgs,
    assets_out: int,
    l: int,
    e: int,
) -> Result<u64, SafeMathError> {
    match quote_input_spec(args, args.asset_token_decimal as int, assets_out) {
        Err(err) => Err(err),
        Ok(q) => match get_amount_in_spec(
            q.amount_scaled as int,
            q.reserves.share_reserve_scaled as int,
            q.reserves.asset_reserve_scaled as int,
            q.reserves.share_weight as int,
            q.reserves.asset_weight as int,
            l,
            e,
        ) {
            Err(err) => Err(err),
            Ok(quoted) => settle_shares_in_spec(args, q.amount_scaled as int, quoted as int),
        },
    }
}

/// Shares that have to be sold for `assets_out` assets, in the share
/// token's decimals.
pub fn preview_shares_in<L: Fn(i64) -> i128, E: Fn(i128) -> i128>(
    args: PreviewAmountArgs,
    assets_out: u64,
    ln: &L,
    exp: &E,
) -> (r: Result<u64, SafeMathError>)
    requires
        ln_ready(ln),
        exp_ready(exp),
    ensures
        exists|l: i128, e: i128| #[trigger]
            power_answers(ln, exp, preview_shares_in_power_args(args, assets_out as int), l, e) && r
                == preview_shares_in_spec(args, assets_out as int, l as int, e as int),
        r != Ok::<u64, SafeMathError>(0),
{
    let ghost power_args = preview_shares_in_power_args(args, assets_out as int);
    let q = match quote_input(&args, args.asset_token_decimal, assets_out) {
        Ok(q) => q,
        Err(err) => {
            assert(power_answers(ln, exp, power_args, 0, 0));
            return Err(err);
        },
    };
    let quoted = get_amount_in(
        q.amount_scaled,
        q.reserves.share_reserve_scaled,
        q.reserves.asset_reserve_scaled,
        q.reserves.share_weight,
        q.reserves.asset_weight,
        ln,
        exp,
    );
    proof {
        let (l, e) = choose|l: i128, e: i128| #[trigger]
            power_answers(ln, exp, power_args, l, e) && quoted == get_amount_in_spec(
                q.amount_scaled as int,
                q.reserves.share_reserve_scaled as int,
                q.reserves.asset_reserve_scaled as int,
                q.reserves.share_weight as int,
                q.reserves.asset_weight as int,
                l as int,
                e as int,
            );
        assert(power_answers(ln, exp, power_args, l, e));
    }
    match quoted {
        Err(err) => Err(err),
        Ok(v) => settle_shares_in(&args, q.amount_scaled, v),
    }
}

/// The two arguments of the power that a run of [`preview_assets_out`] asks for,
/// where it reaches the power.
pub open spec fn preview_assets_out_power_args(
    args: PreviewAmountArgs,
    shares_in: int,
) -> Option<(int, int)> {
    match quote_input_spec(args, args.share_token_decimal as int, shares_in) {
        Err(_) => None,
        Ok(q) => get_amount_out_power_args(
            q.amount_scaled as int,
            q.reserves.share_reserve_scaled as int,
            q.reserves.share_weight as int,
            q.reserves.asset_weight as int,
        ),
    }
}

/// Result of [`preview_assets_out`] where the primitives answered `l` and `e`.
pub open spec fn preview_assets_out_spec(
    args: PreviewAmountArgs,
    shares_in: int,
    l: int,
    e: int,
) -> Result<u64, SafeMathError> {
    match quote_input_spec(args, args.share_token_decimal as int, shares_in) {
        Err(err) => Err(err),
        Ok(q) => match get_amount_out_spec(
            q.amount_scaled as int,
            q.reserves.share_reserve_scaled as int,
            q.reserves.asset_reserve_scaled as int,
            q.reserves.share_weight as int,
            q.reserves.asset_weight as int,
            l,
            e,
        ) {
            Err(err) => Err(err),
            Ok(quoted) => settle_assets_out_spec(args, q.amount_scaled as int, quoted as int),
        },
    }
}

/// Assets that `shares_in` shares sell for, in the asset token's decimals.
pub fn preview_assets_out<L: Fn(i64) -> i128, E: Fn(i128) -> i128>(
    args: PreviewAmountArgs,
    shares_in: u64,
    ln: &L,
    exp: &E,
) -> (r: Result<u64, SafeMathError>)
    requires
        ln_ready(ln),
        exp_ready(exp),
    ensures
        exists|l: i128, e: i128| #[trigger]
            power_answers(ln, exp, preview_assets_out_power_args(args, shares_in as int), l, e) && r
                == preview_assets_out_spec(args, shares_in as int, l as int, e as int),
{
    let ghost power_args = preview_assets_out_power_args(args, shares_in as int);
    let q = match quote_input(&args, args.share_token_decimal, shares_in) {
        Ok(q) => q,
        Err(err) => {
            assert(power_answers(ln, exp, power_args, 0, 0));
            return Err(err);
        },
    };
    let quoted = get_amount_out(
        q.amount_scaled,
        q.reserves.share_reserve_scaled,
        q.reserves.asset_reserve_scaled,
        q.reserves.share_weight,
        q.reserves.asset_weight,
        ln,
        exp,
    );
    proof {
        let (l, e) = choose|l: i128, e: i128| #[trigger]
            power_answers(ln, exp, power_args, l, e) && quoted == get_amount_out_spec(
                q.amount_scaled as int,
                q.reserves.share_reserve_scaled as int,
                q.reserves.asset_reserve_scaled as int,
                q.reserves.share_weight as int,
                q.reserves.asset_weight as int,
                l as int,
                e as int,
            );
        assert(power_answers(ln, exp, power_args, l, e));
    }
    match quoted {
        Err(err) => Err(err),
        Ok(v) => settle_assets_out(&args, q.amount_scaled, v),
    }
}

} // verus!
