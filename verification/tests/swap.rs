use fjord_lbp::error::{LbpError, PoolError, SafeMathError};
use fjord_lbp::events::{Buy, Sell};
use fjord_lbp::safe_math::WAD;
use fjord_lbp::state::{AccountId, LiquidityBootstrappingPool, OwnerConfig, UserStateInPool};
use fjord_lbp::swap::{
    _swap_assets_for_shares, _swap_shares_for_assets, gross_up, lift, preview_args,
    swap_assets_for_exact_shares, swap_exact_assets_for_shares, swap_exact_shares_for_assets,
    swap_guard, swap_shares_for_exact_assets, Grossed, SwapTokens,
};
use fjord_lbp::views::{
    preview_assets_in, preview_assets_out, preview_shares_in, preview_shares_out,
    ReturnPreviewContext,
};

const NOW: i64 = 2_000;

fn swap_ln(x: i64) -> i128 {
    ((x as f64 / WAD as f64).ln() * WAD as f64) as i128
}

fn swap_exp(x: i128) -> i128 {
    ((x as f64 / WAD as f64).exp() * WAD as f64).round() as i128
}

fn the_user() -> AccountId {
    AccountId { bytes: [7; 32] }
}

fn open_pool() -> SwapTokens {
    SwapTokens {
        asset_token_decimals: 9,
        share_token_decimals: 9,
        pool: LiquidityBootstrappingPool {
            asset_token: AccountId { bytes: [1; 32] },
            share_token: AccountId { bytes: [2; 32] },
            creator: AccountId { bytes: [3; 32] },
            virtual_assets: 0,
            virtual_shares: 0,
            max_share_price: u64::MAX,
            max_shares_out: 500_000,
            max_assets_in: 1_000_000,
            start_weight_basis_points: 5_000,
            end_weight_basis_points: 5_000,
            sale_start_time: 1_000,
            sale_end_time: 87_400,
            vest_cliff: 0,
            vest_end: 0,
            selling_allowed: true,
            total_purchased: 0,
            total_referred: 0,
            total_swap_fees_asset: 0,
            total_swap_fees_share: 0,
            closed: false,
            paused: false,
            whitelist_merkle_root: [0; 32],
        },
        pool_asset_amount: 100_000,
        pool_share_amount: 1_000_000,
        config: OwnerConfig {
            owner: AccountId { bytes: [4; 32] },
            pending_owner: None,
            platform_fee: 0,
            referral_fee: 0,
            swap_fee: 100,
        },
        user_state_in_pool: UserStateInPool {
            purchased_shares: 0,
            referred_assets: 0,
            redeemed_shares: 0,
        },
        referrer_state_in_pool: None,
        user: the_user(),
    }
}

fn pool_with_a_seller() -> SwapTokens {
    let mut ctx = open_pool();
    ctx.pool.total_purchased = 60_000;
    ctx.user_state_in_pool.purchased_shares = 50_000;
    ctx
}

#[test]
fn arithmetic_faults_become_ledger_faults() {
    assert_eq!(lift(Ok::<u64, SafeMathError>(5)), Ok(5));
    assert_eq!(
        lift(Err::<u64, SafeMathError>(SafeMathError::AdditionOverflow)),
        Err(LbpError::Math(SafeMathError::AdditionOverflow))
    );
}

#[test]
fn quote_figures_are_read_off_the_pool() {
    let ctx = pool_with_a_seller();
    let args = preview_args(&ctx.pool, 11, 22, 6, 12, NOW);
    assert_eq!(args.assets, 11);
    assert_eq!(args.shares, 22);
    assert_eq!(args.asset_token_decimal, 6);
    assert_eq!(args.share_token_decimal, 12);
    assert_eq!(args.total_purchased, 60_000);
    assert_eq!(args.current_time, NOW);
    assert_eq!(args.sale_start_time, 1_000);
    assert_eq!(args.sale_end_time, 87_400);
    assert_eq!(args.max_share_price, u64::MAX);
    assert_eq!(args.start_weight_basis_points, 5_000);
    assert_eq!(args.end_weight_basis_points, 5_000);
}

#[test]
fn buying_with_exact_assets() {
    let mut ctx = open_pool();
    let bought = swap_exact_assets_for_shares(&mut ctx, NOW, 1_000, 9_801, None, &swap_ln, &swap_exp);
    // The fee is 10, 990 reach the curve, and the pool is quoted as it stood: the
    // closed form is 1_000_000 * (1 - 100_000 / 100_990) = 9802.95.
    assert_eq!(
        bought,
        Ok(Buy { user: the_user(), assets: 1_000, shares: 9_801, swap_fee: 10 })
    );
    let mut expected = open_pool();
    expected.pool.total_purchased = 9_801;
    expected.pool.total_swap_fees_asset = 10;
    expected.user_state_in_pool.purchased_shares = 9_801;
    assert_eq!(ctx, expected);
}

#[test]
fn buying_exact_shares() {
    let mut ctx = open_pool();
    let bought = swap_assets_for_exact_shares(&mut ctx, NOW, 9_801, 999, None, &swap_ln, &swap_exp);
    assert_eq!(bought, Ok(Buy { user: the_user(), assets: 999, shares: 9_801, swap_fee: 9 }));
    let mut expected = open_pool();
    expected.pool.total_purchased = 9_801;
    expected.pool.total_swap_fees_asset = 9;
    expected.user_state_in_pool.purchased_shares = 9_801;
    assert_eq!(ctx, expected);
}

#[test]
fn selling_exact_shares() {
    let mut ctx = pool_with_a_seller();
    let sold = swap_exact_shares_for_assets(&mut ctx, NOW, 10_000, 1_042, None, &swap_ln, &swap_exp);
    assert_eq!(
        sold,
        Ok(Sell { user: the_user(), shares: 10_000, assets: 1_042, swap_fee: 100 })
    );
    let mut expected = pool_with_a_seller();
    expected.pool.total_purchased = 50_000;
    expected.pool.total_swap_fees_share = 100;
    expected.user_state_in_pool.purchased_shares = 40_000;
    assert_eq!(ctx, expected);
}

#[test]
fn selling_for_exact_assets() {
    let mut ctx = pool_with_a_seller();
    let sold = swap_shares_for_exact_assets(&mut ctx, NOW, 990, 9_495, None, &swap_ln, &swap_exp);
    assert_eq!(sold, Ok(Sell { user: the_user(), shares: 9_495, assets: 990, swap_fee: 94 }));
    let mut expected = pool_with_a_seller();
    expected.pool.total_purchased = 50_505;
    expected.pool.total_swap_fees_share = 94;
    expected.user_state_in_pool.purchased_shares = 40_505;
    assert_eq!(ctx, expected);
}

#[test]
fn a_referrer_is_credited_with_a_part_of_the_assets() {
    let mut ctx = open_pool();
    ctx.config.referral_fee = 200;
    ctx.referrer_state_in_pool =
        Some(UserStateInPool { purchased_shares: 1, referred_assets: 5, redeemed_shares: 2 });
    let bought = swap_exact_assets_for_shares(&mut ctx, NOW, 1_000, 0, None, &swap_ln, &swap_exp);
    assert_eq!(
        bought,
        Ok(Buy { user: the_user(), assets: 1_000, shares: 9_801, swap_fee: 10 })
    );
    assert_eq!(ctx.pool.total_referred, 20);
    assert_eq!(
        ctx.referrer_state_in_pool,
        Some(UserStateInPool { purchased_shares: 1, referred_assets: 25, redeemed_shares: 2 })
    );
}

#[test]
fn no_referral_without_a_referrer_or_without_a_fee() {
    let mut ctx = open_pool();
    ctx.config.referral_fee = 200;
    swap_exact_assets_for_shares(&mut ctx, NOW, 1_000, 0, None, &swap_ln, &swap_exp).unwrap();
    assert_eq!(ctx.pool.total_referred, 0);
    assert_eq!(ctx.referrer_state_in_pool, None);
    let mut ctx = open_pool();
    let referrer = UserStateInPool { purchased_shares: 0, referred_assets: 5, redeemed_shares: 0 };
    ctx.referrer_state_in_pool = Some(referrer);
    swap_exact_assets_for_shares(&mut ctx, NOW, 1_000, 0, None, &swap_ln, &swap_exp).unwrap();
    assert_eq!(ctx.pool.total_referred, 0);
    assert_eq!(ctx.referrer_state_in_pool, Some(referrer));
}

#[test]
fn a_pool_at_its_cap_on_shares_refuses_every_purchase() {
    let mut ctx = open_pool();
    ctx.pool.total_purchased = ctx.pool.max_shares_out;
    let before = ctx;
    for assets_in in [1u64, 100, 1_000, 30_000] {
        assert_eq!(
            swap_exact_assets_for_shares(&mut ctx, NOW, assets_in, 0, None, &swap_ln, &swap_exp),
            Err(LbpError::Pool(PoolError::SharesOutExceeded))
        );
        assert_eq!(ctx, before);
    }
    for shares_out in [1u64, 100, 10_000] {
        assert_eq!(
            swap_assets_for_exact_shares(
                &mut ctx,
                NOW,
                shares_out,
                u64::MAX,
                None,
                &swap_ln,
                &swap_exp
            ),
            Err(LbpError::Pool(PoolError::SharesOutExceeded))
        );
        assert_eq!(ctx, before);
    }
}

#[test]
fn purchased_shares_stay_below_the_cap_and_the_holdings() {
    let mut ctx = open_pool();
    ctx.pool.max_shares_out = 9_801;
    let before = ctx;
    assert_eq!(
        swap_exact_assets_for_shares(&mut ctx, NOW, 1_000, 0, None, &swap_ln, &swap_exp),
        Err(LbpError::Pool(PoolError::SharesOutExceeded))
    );
    assert_eq!(ctx, before);
    ctx.pool.max_shares_out = 9_802;
    assert!(swap_exact_assets_for_shares(&mut ctx, NOW, 1_000, 0, None, &swap_ln, &swap_exp)
        .is_ok());
    let mut pool = open_pool().pool;
    let mut user = open_pool().user_state_in_pool;
    let mut referrer = None;
    let config = open_pool().config;
    assert_eq!(
        _swap_assets_for_shares(
            &mut pool,
            &mut user,
            &config,
            &the_user(),
            1_000,
            5_000,
            100_000,
            5_000,
            10,
            &mut referrer
        ),
        Err(LbpError::Pool(PoolError::SharesOutExceeded))
    );
    assert_eq!(
        _swap_assets_for_shares(
            &mut pool,
            &mut user,
            &config,
            &the_user(),
            1_000,
            4_999,
            100_000,
            5_000,
            10,
            &mut referrer
        ),
        Ok(Buy { user: the_user(), assets: 1_000, shares: 4_999, swap_fee: 10 })
    );
    assert_eq!(pool.total_purchased, 4_999);
    assert_eq!(user.purchased_shares, 4_999);
}

#[test]
fn assets_received_stay_below_the_cap() {
    let mut ctx = open_pool();
    ctx.pool.max_assets_in = 100_990;
    let before = ctx;
    assert_eq!(
        swap_exact_assets_for_shares(&mut ctx, NOW, 1_000, 0, None, &swap_ln, &swap_exp),
        Err(LbpError::Pool(PoolError::AssetsInExceeded))
    );
    assert_eq!(ctx, before);
    ctx.pool.max_assets_in = 100_991;
    assert!(swap_exact_assets_for_shares(&mut ctx, NOW, 1_000, 0, None, &swap_ln, &swap_exp)
        .is_ok());
    let mut ctx = pool_with_a_seller();
    ctx.pool.max_assets_in = 100_000;
    let before = ctx;
    assert_eq!(
        swap_exact_shares_for_assets(&mut ctx, NOW, 10_000, 0, None, &swap_ln, &swap_exp),
        Err(LbpError::Pool(PoolError::AssetsInExceeded))
    );
    assert_eq!(ctx, before);
}

#[test]
fn a_sale_is_refused_at_the_cap_on_shares() {
    let mut ctx = pool_with_a_seller();
    ctx.pool.max_shares_out = 60_000;
    let before = ctx;
    assert_eq!(
        swap_exact_shares_for_assets(&mut ctx, NOW, 10_000, 0, None, &swap_ln, &swap_exp),
        Err(LbpError::Pool(PoolError::SharesOutExceeded))
    );
    assert_eq!(
        swap_shares_for_exact_assets(&mut ctx, NOW, 990, u64::MAX, None, &swap_ln, &swap_exp),
        Err(LbpError::Pool(PoolError::SharesOutExceeded))
    );
    assert_eq!(ctx, before);
}

#[test]
fn a_seller_cannot_sell_more_than_was_purchased() {
    let mut ctx = pool_with_a_seller();
    ctx.user_state_in_pool.purchased_shares = 9_999;
    let before = ctx;
    assert_eq!(
        swap_exact_shares_for_assets(&mut ctx, NOW, 10_000, 0, None, &swap_ln, &swap_exp),
        Err(LbpError::Math(SafeMathError::SubtractionUnderflow))
    );
    assert_eq!(ctx, before);
    let mut pool = pool_with_a_seller().pool;
    pool.total_purchased = 5;
    let mut user = UserStateInPool { purchased_shares: 10, referred_assets: 0, redeemed_shares: 0 };
    assert_eq!(
        _swap_shares_for_assets(&mut pool, &mut user, &the_user(), 1, 6, 100, 1_000, 0),
        Err(LbpError::Math(SafeMathError::SubtractionUnderflow))
    );
    assert_eq!(pool.total_purchased, 5);
    assert_eq!(user.purchased_shares, 10);
    assert_eq!(
        _swap_shares_for_assets(&mut pool, &mut user, &the_user(), 1, 5, 100, 1_000, 0),
        Ok(Sell { user: the_user(), shares: 5, assets: 1, swap_fee: 0 })
    );
    assert_eq!(pool.total_purchased, 0);
    assert_eq!(user.purchased_shares, 5);
}

#[test]
fn slippage_beyond_the_limit_is_refused() {
    let mut ctx = open_pool();
    let before = ctx;
    assert_eq!(
        swap_exact_assets_for_shares(&mut ctx, NOW, 1_000, 9_802, None, &swap_ln, &swap_exp),
        Err(LbpError::Pool(PoolError::SlippageExceeded))
    );
    assert_eq!(
        swap_assets_for_exact_shares(&mut ctx, NOW, 9_801, 998, None, &swap_ln, &swap_exp),
        Err(LbpError::Pool(PoolError::SlippageExceeded))
    );
    assert_eq!(ctx, before);
    let mut ctx = pool_with_a_seller();
    let before = ctx;
    assert_eq!(
        swap_exact_shares_for_assets(&mut ctx, NOW, 10_000, 1_043, None, &swap_ln, &swap_exp),
        Err(LbpError::Pool(PoolError::SlippageExceeded))
    );
    assert_eq!(
        swap_shares_for_exact_assets(&mut ctx, NOW, 990, 9_494, None, &swap_ln, &swap_exp),
        Err(LbpError::Pool(PoolError::SlippageExceeded))
    );
    assert_eq!(ctx, before);
}

#[test]
fn swaps_are_refused_outside_the_sale() {
    for time in [i64::MIN, 0, 999, 87_400, i64::MAX] {
        let mut ctx = pool_with_a_seller();
        let before = ctx;
        assert_eq!(
            swap_exact_assets_for_shares(&mut ctx, time, 1_000, 0, None, &swap_ln, &swap_exp),
            Err(LbpError::Pool(PoolError::TradingDisallowed))
        );
        assert_eq!(
            swap_assets_for_exact_shares(&mut ctx, time, 100, u64::MAX, None, &swap_ln, &swap_exp),
            Err(LbpError::Pool(PoolError::TradingDisallowed))
        );
        assert_eq!(
            swap_exact_shares_for_assets(&mut ctx, time, 100, 0, None, &swap_ln, &swap_exp),
            Err(LbpError::Pool(PoolError::TradingDisallowed))
        );
        assert_eq!(
            swap_shares_for_exact_assets(&mut ctx, time, 100, u64::MAX, None, &swap_ln, &swap_exp),
            Err(LbpError::Pool(PoolError::TradingDisallowed))
        );
        assert_eq!(ctx, before);
    }
}

#[test]
fn a_paused_pool_refuses_every_swap() {
    let mut ctx = pool_with_a_seller();
    ctx.pool.paused = true;
    let before = ctx;
    assert_eq!(
        swap_exact_assets_for_shares(&mut ctx, NOW, 1_000, 0, None, &swap_ln, &swap_exp),
        Err(LbpError::Pool(PoolError::Paused))
    );
    assert_eq!(
        swap_assets_for_exact_shares(&mut ctx, NOW, 100, u64::MAX, None, &swap_ln, &swap_exp),
        Err(LbpError::Pool(PoolError::Paused))
    );
    assert_eq!(
        swap_exact_shares_for_assets(&mut ctx, NOW, 100, 0, None, &swap_ln, &swap_exp),
        Err(LbpError::Pool(PoolError::Paused))
    );
    assert_eq!(
        swap_shares_for_exact_assets(&mut ctx, NOW, 100, u64::MAX, None, &swap_ln, &swap_exp),
        Err(LbpError::Pool(PoolError::Paused))
    );
    assert_eq!(ctx, before);
}

#[test]
fn selling_is_refused_where_the_pool_does_not_allow_it() {
    let mut ctx = pool_with_a_seller();
    ctx.pool.selling_allowed = false;
    let before = ctx;
    assert_eq!(
        swap_exact_shares_for_assets(&mut ctx, NOW, 100, 0, None, &swap_ln, &swap_exp),
        Err(LbpError::Pool(PoolError::SellingDisallowed))
    );
    assert_eq!(
        swap_shares_for_exact_assets(&mut ctx, NOW, 100, u64::MAX, None, &swap_ln, &swap_exp),
        Err(LbpError::Pool(PoolError::SellingDisallowed))
    );
    assert_eq!(ctx, before);
    assert!(swap_exact_assets_for_shares(&mut ctx, NOW, 1_000, 0, None, &swap_ln, &swap_exp)
        .is_ok());
}

#[test]
fn a_whitelist_admits_only_with_a_proof() {
    let root = [
        115, 116, 105, 36, 137, 173, 50, 226, 72, 136, 86, 38, 55, 218, 18, 23, 90, 35, 83, 71, 0,
        3, 39, 64, 98, 30, 77, 62, 252, 174, 85, 63,
    ];
    let mut ctx = open_pool();
    ctx.pool.whitelist_merkle_root = root;
    let before = ctx;
    assert_eq!(
        swap_exact_assets_for_shares(&mut ctx, NOW, 1_000, 0, None, &swap_ln, &swap_exp),
        Err(LbpError::Pool(PoolError::WhitelistProof))
    );
    assert_eq!(
        swap_exact_assets_for_shares(
            &mut ctx,
            NOW,
            1_000,
            0,
            Some(vec![[255; 32], [9; 32]]),
            &swap_ln,
            &swap_exp
        ),
        Err(LbpError::Pool(PoolError::WhitelistProof))
    );
    assert_eq!(ctx, before);
    assert_eq!(
        swap_exact_assets_for_shares(
            &mut ctx,
            NOW,
            1_000,
            0,
            Some(vec![[9; 32], [255; 32]]),
            &swap_ln,
            &swap_exp
        ),
        Ok(Buy { user: the_user(), assets: 1_000, shares: 9_801, swap_fee: 10 })
    );
}

#[test]
fn swaps_pass_on_the_faults_of_the_quote() {
    let mut ctx = pool_with_a_seller();
    let before = ctx;
    assert_eq!(
        swap_exact_assets_for_shares(&mut ctx, NOW, 40_000, 0, None, &swap_ln, &swap_exp),
        Err(LbpError::Math(SafeMathError::AmountInTooLarge))
    );
    assert_eq!(
        swap_assets_for_exact_shares(&mut ctx, NOW, 400_000, u64::MAX, None, &swap_ln, &swap_exp),
        Err(LbpError::Math(SafeMathError::AmountOutTooLarge))
    );
    assert_eq!(
        swap_exact_shares_for_assets(&mut ctx, NOW, 400_000, 0, None, &swap_ln, &swap_exp),
        Err(LbpError::Math(SafeMathError::AmountInTooLarge))
    );
    assert_eq!(
        swap_shares_for_exact_assets(&mut ctx, NOW, 40_000, u64::MAX, None, &swap_ln, &swap_exp),
        Err(LbpError::Math(SafeMathError::AmountOutTooLarge))
    );
    assert_eq!(ctx, before);
}

#[test]
fn swap_fees_that_do_not_fit_are_refused() {
    let mut ctx = open_pool();
    ctx.pool.total_swap_fees_asset = u64::MAX;
    let before = ctx;
    assert_eq!(
        swap_exact_assets_for_shares(&mut ctx, NOW, 1_000, 0, None, &swap_ln, &swap_exp),
        Err(LbpError::Math(SafeMathError::AdditionOverflow))
    );
    assert_eq!(ctx, before);
    assert_eq!(
        gross_up(990, 100, 5),
        Ok(Grossed { swap_fees: 9, gross_amount: 999, total_swap_fees: 14 })
    );
    assert_eq!(
        gross_up(u64::MAX, 100, 0).map(|g| g.gross_amount),
        Err(LbpError::Math(SafeMathError::AdditionOverflow))
    );
    assert_eq!(
        gross_up(1_000, 100, u64::MAX).map(|g| g.gross_amount),
        Err(LbpError::Math(SafeMathError::AdditionOverflow))
    );
}

#[test]
fn swaps_with_given_answers() {
    let ln = |_x: i64| -> i128 { 0 };
    let half = |_x: i128| -> i128 { 500_000_000 };
    let mut ctx = open_pool();
    ctx.pool.max_shares_out = 900_000;
    // The power is 500_000_501: of 1_000_000 shares 499_999 leave.
    assert_eq!(
        swap_exact_assets_for_shares(&mut ctx, NOW, 1_000, 0, None, &ln, &half),
        Ok(Buy { user: the_user(), assets: 1_000, shares: 499_999, swap_fee: 10 })
    );
    assert_eq!(ctx.pool.total_purchased, 499_999);
    assert_eq!(ctx.pool.total_swap_fees_asset, 10);
}

#[test]
fn swaps_refuse_a_fee_above_one_whole() {
    for (platform, referral, swap) in [(10_001, 0, 0), (0, 10_001, 0), (0, 0, 10_001)] {
        let mut ctx = pool_with_a_seller();
        ctx.config.platform_fee = platform;
        ctx.config.referral_fee = referral;
        ctx.config.swap_fee = swap;
        let before = ctx;
        let refused = LbpError::Pool(PoolError::MaxFeeExceeded);
        assert_eq!(
            swap_exact_assets_for_shares(&mut ctx, NOW, 1_000, 0, None, &swap_ln, &swap_exp),
            Err(refused)
        );
        assert_eq!(
            swap_assets_for_exact_shares(&mut ctx, NOW, 100, u64::MAX, None, &swap_ln, &swap_exp),
            Err(refused)
        );
        assert_eq!(
            swap_exact_shares_for_assets(&mut ctx, NOW, 100, 0, None, &swap_ln, &swap_exp),
            Err(refused)
        );
        assert_eq!(
            swap_shares_for_exact_assets(&mut ctx, NOW, 100, u64::MAX, None, &swap_ln, &swap_exp),
            Err(refused)
        );
        assert_eq!(ctx, before);
        // The pool's own checks come first.
        assert_eq!(
            swap_exact_assets_for_shares(&mut ctx, 0, 1_000, 0, None, &swap_ln, &swap_exp),
            Err(LbpError::Pool(PoolError::TradingDisallowed))
        );
        assert_eq!(
            swap_guard(&ctx.pool, &ctx.user, &ctx.config, NOW, &None, false),
            Err(refused)
        );
    }
    let ctx = pool_with_a_seller();
    assert_eq!(swap_guard(&ctx.pool, &ctx.user, &ctx.config, NOW, &None, true), Ok(()));
}

#[test]
fn a_swap_settles_at_what_the_view_shows() {
    let view = |ctx: &SwapTokens| ReturnPreviewContext {
        asset_token_decimals: ctx.asset_token_decimals,
        share_token_decimals: ctx.share_token_decimals,
        pool: ctx.pool,
        pool_asset_amount: ctx.pool_asset_amount,
        pool_share_amount: ctx.pool_share_amount,
        config: ctx.config,
    };
    let mut ctx = open_pool();
    let shown = preview_shares_out(&view(&ctx), NOW, 1_000, &swap_ln, &swap_exp).unwrap();
    let bought =
        swap_exact_assets_for_shares(&mut ctx, NOW, 1_000, 0, None, &swap_ln, &swap_exp).unwrap();
    assert_eq!(bought.shares, shown.shares_out);
    let mut ctx = open_pool();
    let shown = preview_assets_in(&view(&ctx), NOW, 9_801, &swap_ln, &swap_exp).unwrap();
    let bought =
        swap_assets_for_exact_shares(&mut ctx, NOW, 9_801, u64::MAX, None, &swap_ln, &swap_exp)
            .unwrap();
    assert_eq!(bought.assets, shown.assets_in);
    let mut ctx = pool_with_a_seller();
    let shown = preview_assets_out(&view(&ctx), NOW, 10_000, &swap_ln, &swap_exp).unwrap();
    let sold =
        swap_exact_shares_for_assets(&mut ctx, NOW, 10_000, 0, None, &swap_ln, &swap_exp).unwrap();
    assert_eq!(sold.assets, shown.assets_out);
    let mut ctx = pool_with_a_seller();
    let shown = preview_shares_in(&view(&ctx), NOW, 990, &swap_ln, &swap_exp).unwrap();
    let sold =
        swap_shares_for_exact_assets(&mut ctx, NOW, 990, u64::MAX, None, &swap_ln, &swap_exp)
            .unwrap();
    assert_eq!(sold.shares, shown.shares_in);
}
