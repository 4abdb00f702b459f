use fjord_lbp::constants::{
    MAX_FEE_BIPS, MAX_PERCENTAGE_IN, MAX_PERCENTAGE_OUT, MAX_WEIGHT_BIPS, MIN_WEIGHT_BIPS,
    ONE_DAY_SECONDS,
};
use fjord_lbp::error::PoolError;
use fjord_lbp::events::PoolCreatedEvent;
use fjord_lbp::pool_management::{create_pool, toggle_pause, InitializePool};
use fjord_lbp::state::{AccountId, LiquidityBootstrappingPool};

const DAY: i64 = 86_400;

fn new_pool_accounts() -> InitializePool {
    InitializePool {
        pool: AccountId { bytes: [9; 32] },
        asset_token_mint: AccountId { bytes: [1; 32] },
        share_token_mint: AccountId { bytes: [2; 32] },
        creator: AccountId { bytes: [3; 32] },
    }
}

struct Settings {
    now: i64,
    assets: u64,
    virtual_assets: u64,
    start_weight: u16,
    end_weight: u16,
    sale_start: i64,
    sale_end: i64,
    vest_cliff: i64,
    vest_end: i64,
    selling_allowed: Option<bool>,
}

fn sound() -> Settings {
    Settings {
        now: 1_000,
        assets: 100_000,
        virtual_assets: 0,
        start_weight: 9_000,
        end_weight: 1_000,
        sale_start: 2_000,
        sale_end: 2_000 + 2 * DAY,
        vest_cliff: 0,
        vest_end: 0,
        selling_allowed: None,
    }
}

fn create(
    ctx: &InitializePool,
    s: &Settings,
) -> Result<(LiquidityBootstrappingPool, PoolCreatedEvent), PoolError> {
    create_pool(
        ctx,
        s.now,
        s.assets,
        1_000_000,
        s.virtual_assets,
        700,
        55,
        500_000,
        900_000,
        s.start_weight,
        s.end_weight,
        s.sale_start,
        s.sale_end,
        s.vest_cliff,
        s.vest_end,
        [6; 32],
        s.selling_allowed,
    )
}

#[test]
fn constants_of_the_engine() {
    assert_eq!(ONE_DAY_SECONDS, 60 * 60 * 24);
    assert_eq!(MAX_PERCENTAGE_IN, 30 * 100);
    assert_eq!(MAX_PERCENTAGE_OUT, 30 * 100);
    assert_eq!(MAX_FEE_BIPS, 10_000);
    assert_eq!(MIN_WEIGHT_BIPS, 100);
    assert_eq!(MAX_WEIGHT_BIPS, 9_900);
}

#[test]
fn a_pool_is_created_as_configured() {
    let created = create(&new_pool_accounts(), &sound());
    assert_eq!(
        created,
        Ok((
            LiquidityBootstrappingPool {
                asset_token: AccountId { bytes: [1; 32] },
                share_token: AccountId { bytes: [2; 32] },
                creator: AccountId { bytes: [3; 32] },
                virtual_assets: 0,
                virtual_shares: 700,
                max_share_price: 55,
                max_shares_out: 500_000,
                max_assets_in: 900_000,
                start_weight_basis_points: 9_000,
                end_weight_basis_points: 1_000,
                sale_start_time: 2_000,
                sale_end_time: 2_000 + 2 * DAY,
                vest_cliff: 0,
                vest_end: 0,
                selling_allowed: false,
                total_purchased: 0,
                total_referred: 0,
                total_swap_fees_asset: 0,
                total_swap_fees_share: 0,
                closed: false,
                paused: false,
                whitelist_merkle_root: [6; 32],
            },
            PoolCreatedEvent { pool: AccountId { bytes: [9; 32] } },
        ))
    );
}

#[test]
fn selling_is_allowed_only_on_request() {
    let mut settings = sound();
    settings.selling_allowed = Some(true);
    assert!(create(&new_pool_accounts(), &settings).unwrap().0.selling_allowed);
    settings.selling_allowed = Some(false);
    assert!(!create(&new_pool_accounts(), &settings).unwrap().0.selling_allowed);
    settings.selling_allowed = None;
    assert!(!create(&new_pool_accounts(), &settings).unwrap().0.selling_allowed);
}

#[test]
fn a_pool_needs_two_different_tokens() {
    let mut accounts = new_pool_accounts();
    accounts.share_token_mint = accounts.asset_token_mint;
    assert_eq!(create(&accounts, &sound()), Err(PoolError::InvalidAssetOrShare));
    // The tokens come before every other fault.
    let mut settings = sound();
    settings.sale_end = 0;
    settings.start_weight = 0;
    settings.assets = 0;
    assert_eq!(create(&accounts, &settings), Err(PoolError::InvalidAssetOrShare));
}

#[test]
fn a_sale_lasts_a_day_at_least() {
    let mut settings = sound();
    settings.sale_end = settings.sale_start + DAY - 1;
    assert_eq!(create(&new_pool_accounts(), &settings), Err(PoolError::SalePeriodLow));
    settings.sale_end = settings.sale_start + DAY;
    assert!(create(&new_pool_accounts(), &settings).is_ok());
    settings.sale_start = i64::MIN;
    settings.sale_end = i64::MAX;
    assert!(create(&new_pool_accounts(), &settings).is_ok());
    settings.sale_start = i64::MAX;
    settings.sale_end = i64::MIN;
    assert_eq!(create(&new_pool_accounts(), &settings), Err(PoolError::SalePeriodLow));
}

#[test]
fn a_sale_ends_a_day_from_now_at_least() {
    let mut settings = sound();
    settings.sale_start = 0;
    settings.sale_end = 1_000 + DAY - 1;
    assert_eq!(create(&new_pool_accounts(), &settings), Err(PoolError::SalePeriodLow));
    settings.sale_end = 1_000 + DAY;
    assert!(create(&new_pool_accounts(), &settings).is_ok());
    settings.now = i64::MAX;
    settings.sale_end = i64::MAX;
    assert_eq!(create(&new_pool_accounts(), &settings), Err(PoolError::SalePeriodLow));
}

#[test]
fn a_cliff_lies_before_the_end_of_the_sale_where_vesting_outlasts_it() {
    let mut settings = sound();
    let sale_end = settings.sale_end;
    settings.vest_end = sale_end + 10;
    settings.vest_cliff = sale_end;
    assert_eq!(create(&new_pool_accounts(), &settings), Err(PoolError::InvalidVestCliff));
    settings.vest_cliff = sale_end + 9;
    assert_eq!(create(&new_pool_accounts(), &settings), Err(PoolError::InvalidVestCliff));
    settings.vest_cliff = sale_end - 1;
    assert!(create(&new_pool_accounts(), &settings).is_ok());
    settings.vest_cliff = i64::MIN;
    assert!(create(&new_pool_accounts(), &settings).is_ok());
}

#[test]
fn a_cliff_lies_before_the_end_of_vesting() {
    let mut settings = sound();
    let sale_end = settings.sale_end;
    settings.vest_end = sale_end + 10;
    settings.vest_cliff = sale_end + 10;
    assert_eq!(create(&new_pool_accounts(), &settings), Err(PoolError::InvalidVestEnd));
    settings.vest_cliff = i64::MAX;
    assert_eq!(create(&new_pool_accounts(), &settings), Err(PoolError::InvalidVestEnd));
}

#[test]
fn vesting_that_ends_with_the_sale_asks_nothing_of_the_cliff() {
    let mut settings = sound();
    settings.vest_end = settings.sale_end;
    for cliff in [i64::MIN, 0, settings.sale_end, i64::MAX] {
        settings.vest_cliff = cliff;
        assert!(create(&new_pool_accounts(), &settings).is_ok());
    }
    settings.vest_end = i64::MIN;
    settings.vest_cliff = i64::MAX;
    assert!(create(&new_pool_accounts(), &settings).is_ok());
}

#[test]
fn weights_lie_between_one_and_ninety_nine_percent() {
    for (start, end, sound_weights) in [
        (100u16, 9_900u16, true),
        (9_900, 100, true),
        (99, 5_000, false),
        (9_901, 5_000, false),
        (5_000, 99, false),
        (5_000, 9_901, false),
        (0, 0, false),
        (u16::MAX, u16::MAX, false),
    ] {
        let mut settings = sound();
        settings.start_weight = start;
        settings.end_weight = end;
        let created = create(&new_pool_accounts(), &settings);
        if sound_weights {
            assert!(created.is_ok());
        } else {
            assert_eq!(created, Err(PoolError::InvalidWeightConfig));
        }
    }
}

#[test]
fn a_pool_needs_assets_real_or_virtual() {
    let mut settings = sound();
    settings.assets = 0;
    assert_eq!(create(&new_pool_accounts(), &settings), Err(PoolError::InvalidAssetValue));
    settings.virtual_assets = 1;
    assert!(create(&new_pool_accounts(), &settings).is_ok());
}

#[test]
fn only_the_creator_pauses_a_pool() {
    let (mut pool, _) = create(&new_pool_accounts(), &sound()).unwrap();
    let before = pool;
    assert_eq!(
        toggle_pause(&mut pool, &AccountId { bytes: [4; 32] }),
        Err(PoolError::CallerDisallowed)
    );
    assert_eq!(pool, before);
    assert_eq!(toggle_pause(&mut pool, &AccountId { bytes: [3; 32] }), Ok(()));
    assert!(pool.paused);
    let mut expected = before;
    expected.paused = true;
    assert_eq!(pool, expected);
    assert_eq!(toggle_pause(&mut pool, &AccountId { bytes: [3; 32] }), Ok(()));
    assert_eq!(pool, before);
}
