use anchor_lang::solana_program::pubkey::Pubkey;
use anchor_spl::associated_token::get_associated_token_address;
use fjord_lbp::error::{LbpError, PoolError, SafeMathError};
use fjord_lbp::events::{Close, Redeem};
use fjord_lbp::redemption::{
    close_pool, fee_payments, redeem, retrieve_valid_keys, ClosePool, Closing, FeePayment,
    FeeRecipient, RedeemTokens, Redemption, RemainingAccount,
};
use fjord_lbp::state::{
    AccountId, FeeMapping, LiquidityBootstrappingPool, OwnerConfig, Treasury, UserStateInPool,
};

fn id(byte: u8) -> AccountId {
    AccountId { bytes: [byte; 32] }
}

fn mint() -> AccountId {
    id(1)
}

fn token_account_of(wallet: &AccountId) -> AccountId {
    let address = get_associated_token_address(
        &Pubkey::new_from_array(wallet.bytes),
        &Pubkey::new_from_array(mint().bytes),
    );
    AccountId { bytes: address.to_bytes() }
}

fn writable(key: AccountId) -> RemainingAccount {
    RemainingAccount { key, is_writable: true }
}

fn two_recipients() -> Vec<FeeMapping> {
    vec![
        FeeMapping { user: id(10), percentage: 7_000 },
        FeeMapping { user: id(11), percentage: 3_000 },
    ]
}

fn ended_pool() -> ClosePool {
    ClosePool {
        asset_token_mint: mint(),
        pool: LiquidityBootstrappingPool {
            asset_token: mint(),
            share_token: id(2),
            creator: id(3),
            virtual_assets: 0,
            virtual_shares: 0,
            max_share_price: u64::MAX,
            max_shares_out: 500_000,
            max_assets_in: 1_000_000,
            start_weight_basis_points: 5_000,
            end_weight_basis_points: 5_000,
            sale_start_time: 1_000,
            sale_end_time: 87_400,
            vest_cliff: 0,
            vest_end: 0,
            selling_allowed: true,
            total_purchased: 40_000,
            total_referred: 500,
            total_swap_fees_asset: 1_000,
            total_swap_fees_share: 200,
            closed: false,
            paused: false,
            whitelist_merkle_root: [0; 32],
        },
        pool_asset_amount: 101_000,
        pool_share_amount: 1_000_000,
        treasury: Treasury { swap_fee_recipient: id(5), fee_recipients: two_recipients() },
        pool_creator: id(3),
        swap_fee_recipient: id(5),
        owner_config: OwnerConfig {
            owner: id(4),
            pending_owner: None,
            platform_fee: 300,
            referral_fee: 0,
            swap_fee: 100,
        },
        remaining_accounts: vec![
            writable(token_account_of(&id(11))),
            writable(id(99)),
            writable(token_account_of(&id(10))),
        ],
    }
}

#[test]
fn token_accounts_are_found_in_the_order_handed_in() {
    let found = retrieve_valid_keys(
        &two_recipients(),
        &vec![
            writable(token_account_of(&id(11))),
            writable(id(99)),
            writable(token_account_of(&id(10))),
        ],
        &mint(),
    );
    assert_eq!(
        found,
        Ok(vec![
            FeeRecipient { account: token_account_of(&id(11)), fee_percentage: 3_000 },
            FeeRecipient { account: token_account_of(&id(10)), fee_percentage: 7_000 },
        ])
    );
}

#[test]
fn a_token_account_is_not_the_wallet_itself() {
    assert_ne!(token_account_of(&id(10)), id(10));
    assert_ne!(token_account_of(&id(10)), token_account_of(&id(11)));
    let found =
        retrieve_valid_keys(&two_recipients(), &vec![writable(id(10)), writable(id(11))], &mint());
    assert_eq!(found, Err(PoolError::InvalidFeeRecipients));
}

#[test]
fn token_accounts_belong_to_their_mint() {
    let found = retrieve_valid_keys(
        &two_recipients(),
        &vec![writable(token_account_of(&id(11))), writable(token_account_of(&id(10)))],
        &id(2),
    );
    assert_eq!(found, Err(PoolError::InvalidFeeRecipients));
}

#[test]
fn every_account_handed_in_must_be_writable() {
    let found = retrieve_valid_keys(
        &two_recipients(),
        &vec![
            writable(token_account_of(&id(11))),
            RemainingAccount { key: id(99), is_writable: false },
            writable(token_account_of(&id(10))),
        ],
        &mint(),
    );
    assert_eq!(found, Err(PoolError::InvalidFeeRecipientWritable));
    let found = retrieve_valid_keys(
        &two_recipients(),
        &vec![
            writable(token_account_of(&id(11))),
            writable(token_account_of(&id(11))),
            RemainingAccount { key: token_account_of(&id(10)), is_writable: false },
        ],
        &mint(),
    );
    assert_eq!(found, Err(PoolError::DuplicateFeeRecipient));
}

#[test]
fn a_token_account_may_not_occur_twice() {
    let found = retrieve_valid_keys(
        &two_recipients(),
        &vec![
            writable(token_account_of(&id(11))),
            writable(token_account_of(&id(10))),
            writable(token_account_of(&id(11))),
        ],
        &mint(),
    );
    assert_eq!(found, Err(PoolError::DuplicateFeeRecipient));
    let strangers = retrieve_valid_keys(
        &two_recipients(),
        &vec![
            writable(id(99)),
            writable(id(99)),
            writable(token_account_of(&id(11))),
            writable(token_account_of(&id(10))),
        ],
        &mint(),
    );
    assert_eq!(strangers.map(|found| found.len()), Ok(2));
}

#[test]
fn every_recipient_needs_a_token_account() {
    let found =
        retrieve_valid_keys(&two_recipients(), &vec![writable(token_account_of(&id(11)))], &mint());
    assert_eq!(found, Err(PoolError::InvalidFeeRecipients));
    assert_eq!(retrieve_valid_keys(&two_recipients(), &vec![], &mint()), Err(PoolError::InvalidFeeRecipients));
    assert_eq!(retrieve_valid_keys(&vec![], &vec![writable(id(99))], &mint()), Ok(vec![]));
}

#[test]
fn a_recipient_named_twice_leaves_a_token_account_missing() {
    let twice = vec![
        FeeMapping { user: id(10), percentage: 7_000 },
        FeeMapping { user: id(10), percentage: 3_000 },
    ];
    let found = retrieve_valid_keys(&twice, &vec![writable(token_account_of(&id(10)))], &mint());
    assert_eq!(found, Err(PoolError::InvalidFeeRecipients));
    let thrice = vec![
        FeeMapping { user: id(10), percentage: 7_000 },
        FeeMapping { user: id(11), percentage: 1_000 },
        FeeMapping { user: id(10), percentage: 2_000 },
    ];
    let found = retrieve_valid_keys(
        &thrice,
        &vec![
            writable(token_account_of(&id(10))),
            writable(token_account_of(&id(11))),
            writable(token_account_of(&id(12))),
        ],
        &mint(),
    );
    assert_eq!(found, Err(PoolError::InvalidFeeRecipients));
    let found = retrieve_valid_keys(
        &vec![FeeMapping { user: id(10), percentage: 7_000 }],
        &vec![writable(token_account_of(&id(10)))],
        &mint(),
    );
    assert_eq!(
        found,
        Ok(vec![FeeRecipient { account: token_account_of(&id(10)), fee_percentage: 7_000 }])
    );
}

#[test]
fn platform_fee_is_split_by_percentage() {
    let recipients = vec![
        FeeRecipient { account: id(20), fee_percentage: 3_000 },
        FeeRecipient { account: id(21), fee_percentage: 7_000 },
        FeeRecipient { account: id(22), fee_percentage: 0 },
    ];
    assert_eq!(
        fee_payments(&recipients, 3_001),
        Ok(vec![
            FeePayment { to: id(20), amount: 900 },
            FeePayment { to: id(21), amount: 2_100 },
            FeePayment { to: id(22), amount: 0 },
        ])
    );
    assert_eq!(fee_payments(&vec![], 3_000), Ok(vec![]));
    let above = vec![
        FeeRecipient { account: id(20), fee_percentage: 10_000 },
        FeeRecipient { account: id(21), fee_percentage: 10_001 },
    ];
    assert_eq!(fee_payments(&above, 3_000), Err(PoolError::MaxFeeExceeded));
}

#[test]
fn closing_before_the_end_of_the_sale_is_refused() {
    for time in [i64::MIN, 0, 1_000, 87_399] {
        let mut ctx = ended_pool();
        assert_eq!(close_pool(&mut ctx, time), Err(LbpError::Pool(PoolError::ClosingDisallowed)));
        assert_eq!(ctx, ended_pool());
    }
    // The time comes before every other fault.
    let mut ctx = ended_pool();
    ctx.pool_creator = id(77);
    ctx.swap_fee_recipient = id(78);
    ctx.pool_asset_amount = 0;
    ctx.remaining_accounts = vec![];
    let before = ctx.clone();
    assert_eq!(close_pool(&mut ctx, 87_399), Err(LbpError::Pool(PoolError::ClosingDisallowed)));
    assert_eq!(ctx, before);
}

#[test]
fn closing_pays_the_fees_and_the_creator() {
    let mut ctx = ended_pool();
    let closing = close_pool(&mut ctx, 87_400);
    // Of 101_000 assets 1_000 are swap fees; 3% of 100_000 is the platform fee.
    assert_eq!(
        closing,
        Ok(Closing {
            assets_settled: true,
            platform_fee_payments: vec![
                FeePayment { to: token_account_of(&id(11)), amount: 900 },
                FeePayment { to: token_account_of(&id(10)), amount: 2_100 },
            ],
            swap_fees_asset: 1_000,
            swap_fees_share: 200,
            creator_assets: 96_500,
            creator_shares: 960_000,
            event: Close {
                assets: 96_500,
                platform_fees: 3_000,
                swap_fees_asset: 1_000,
                swap_fees_share: 200,
            },
        })
    );
    let mut expected = ended_pool();
    expected.pool.closed = true;
    assert_eq!(ctx, expected);
}

#[test]
fn a_pool_is_closed_once() {
    let mut ctx = ended_pool();
    assert!(close_pool(&mut ctx, 90_000).is_ok());
    assert!(ctx.pool.closed);
    let before = ctx.clone();
    assert_eq!(close_pool(&mut ctx, 90_001), Err(LbpError::Pool(PoolError::ClosingDisallowed)));
    assert_eq!(ctx, before);
}

#[test]
fn closing_names_the_creator_and_the_recipient_of_the_swap_fees() {
    let mut ctx = ended_pool();
    ctx.pool_creator = id(77);
    ctx.swap_fee_recipient = id(78);
    let before = ctx.clone();
    assert_eq!(close_pool(&mut ctx, 87_400), Err(LbpError::Pool(PoolError::InvalidCreator)));
    assert_eq!(ctx, before);
    ctx.pool_creator = id(3);
    let before = ctx.clone();
    assert_eq!(
        close_pool(&mut ctx, 87_400),
        Err(LbpError::Pool(PoolError::InvalidSwapFeeRecipient))
    );
    assert_eq!(ctx, before);
}

#[test]
fn closing_needs_the_token_accounts_of_the_recipients() {
    let mut ctx = ended_pool();
    ctx.remaining_accounts = vec![writable(token_account_of(&id(11)))];
    let before = ctx.clone();
    assert_eq!(close_pool(&mut ctx, 87_400), Err(LbpError::Pool(PoolError::InvalidFeeRecipients)));
    assert_eq!(ctx, before);
    ctx.remaining_accounts = vec![RemainingAccount { key: id(99), is_writable: false }];
    assert_eq!(
        close_pool(&mut ctx, 87_400),
        Err(LbpError::Pool(PoolError::InvalidFeeRecipientWritable))
    );
    ctx.remaining_accounts =
        vec![writable(token_account_of(&id(11))), writable(token_account_of(&id(11)))];
    assert_eq!(
        close_pool(&mut ctx, 87_400),
        Err(LbpError::Pool(PoolError::DuplicateFeeRecipient))
    );
    assert!(!ctx.pool.closed);
}

#[test]
fn closing_a_pool_without_assets_pays_no_fee() {
    let mut ctx = ended_pool();
    ctx.pool_asset_amount = 1_000;
    ctx.pool.total_referred = 0;
    ctx.remaining_accounts = vec![];
    assert_eq!(
        close_pool(&mut ctx, 87_400),
        Ok(Closing {
            assets_settled: false,
            platform_fee_payments: vec![],
            swap_fees_asset: 0,
            swap_fees_share: 0,
            creator_assets: 0,
            creator_shares: 960_000,
            event: Close {
                assets: 0,
                platform_fees: 0,
                swap_fees_asset: 1_000,
                swap_fees_share: 200,
            },
        })
    );
    assert!(ctx.pool.closed);
}

#[test]
fn closing_reports_what_the_pool_cannot_cover() {
    let mut ctx = ended_pool();
    ctx.pool_asset_amount = 999;
    let before = ctx.clone();
    assert_eq!(
        close_pool(&mut ctx, 87_400),
        Err(LbpError::Math(SafeMathError::SubtractionUnderflow))
    );
    assert_eq!(ctx, before);
    let mut ctx = ended_pool();
    ctx.pool.total_referred = 97_001;
    assert_eq!(
        close_pool(&mut ctx, 87_400),
        Err(LbpError::Math(SafeMathError::SubtractionUnderflow))
    );
    let mut ctx = ended_pool();
    ctx.pool_share_amount = 39_999;
    let before = ctx.clone();
    assert_eq!(
        close_pool(&mut ctx, 87_400),
        Err(LbpError::Math(SafeMathError::SubtractionUnderflow))
    );
    assert_eq!(ctx, before);
}

fn closed_pool_with_a_holder() -> RedeemTokens {
    let mut pool = ended_pool().pool;
    pool.closed = true;
    RedeemTokens {
        pool,
        pool_asset_amount: 5_000,
        pool_share_amount: 960_000,
        user_state_in_pool: UserStateInPool {
            purchased_shares: 40_000,
            referred_assets: 500,
            redeemed_shares: 0,
        },
        user: id(7),
    }
}

#[test]
fn redeeming_from_an_open_pool_is_refused() {
    for referred in [false, true] {
        let mut ctx = closed_pool_with_a_holder();
        ctx.pool.closed = false;
        let before = ctx;
        assert_eq!(redeem(&mut ctx, referred), Err(PoolError::RedeemingDisallowed));
        assert_eq!(ctx, before);
    }
}

#[test]
fn redeeming_pays_the_shares_purchased() {
    let mut ctx = closed_pool_with_a_holder();
    assert_eq!(
        redeem(&mut ctx, false),
        Ok(Redemption {
            shares_paid: Some(40_000),
            assets_paid: None,
            event: Some(Redeem { caller: id(7), shares: 40_000 }),
        })
    );
    assert_eq!(
        ctx.user_state_in_pool,
        UserStateInPool { purchased_shares: 0, referred_assets: 500, redeemed_shares: 0 }
    );
    // What was paid out is not paid again.
    assert_eq!(
        redeem(&mut ctx, false),
        Ok(Redemption { shares_paid: None, assets_paid: None, event: None })
    );
}

#[test]
fn redeeming_pays_the_referred_assets_on_request() {
    let mut ctx = closed_pool_with_a_holder();
    assert_eq!(
        redeem(&mut ctx, true),
        Ok(Redemption {
            shares_paid: Some(40_000),
            assets_paid: Some(500),
            event: Some(Redeem { caller: id(7), shares: 40_000 }),
        })
    );
    assert_eq!(
        ctx.user_state_in_pool,
        UserStateInPool { purchased_shares: 0, referred_assets: 0, redeemed_shares: 0 }
    );
    assert_eq!(
        redeem(&mut ctx, true),
        Ok(Redemption { shares_paid: None, assets_paid: None, event: None })
    );
}

#[test]
fn redeeming_pays_no_more_than_the_pool_holds() {
    let mut ctx = closed_pool_with_a_holder();
    ctx.pool_share_amount = 39_999;
    ctx.pool_asset_amount = 499;
    assert_eq!(
        redeem(&mut ctx, true),
        Ok(Redemption {
            shares_paid: Some(39_999),
            assets_paid: Some(499),
            event: Some(Redeem { caller: id(7), shares: 40_000 }),
        })
    );
    assert_eq!(
        ctx.user_state_in_pool,
        UserStateInPool { purchased_shares: 0, referred_assets: 0, redeemed_shares: 0 }
    );
}

#[test]
fn redeeming_from_an_empty_pool_still_settles() {
    let mut ctx = closed_pool_with_a_holder();
    ctx.pool_share_amount = 0;
    ctx.pool_asset_amount = 0;
    assert_eq!(
        redeem(&mut ctx, true),
        Ok(Redemption {
            shares_paid: Some(0),
            assets_paid: Some(0),
            event: Some(Redeem { caller: id(7), shares: 40_000 }),
        })
    );
    assert_eq!(
        ctx.user_state_in_pool,
        UserStateInPool { purchased_shares: 0, referred_assets: 0, redeemed_shares: 0 }
    );
}

#[test]
fn closing_refuses_a_fee_above_one_whole() {
    for (platform, referral, swap) in [(10_001, 0, 0), (0, 10_001, 0), (0, 0, 10_001)] {
        let mut ctx = ended_pool();
        ctx.owner_config.platform_fee = platform;
        ctx.owner_config.referral_fee = referral;
        ctx.owner_config.swap_fee = swap;
        let before = ctx.clone();
        assert_eq!(close_pool(&mut ctx, 87_400), Err(LbpError::Pool(PoolError::MaxFeeExceeded)));
        assert_eq!(ctx, before);
        // The time comes first.
        assert_eq!(
            close_pool(&mut ctx, 87_399),
            Err(LbpError::Pool(PoolError::ClosingDisallowed))
        );
    }
    let mut ctx = ended_pool();
    ctx.treasury.fee_recipients[0].percentage = 10_001;
    let before = ctx.clone();
    assert_eq!(close_pool(&mut ctx, 87_400), Err(LbpError::Pool(PoolError::MaxFeeExceeded)));
    assert_eq!(ctx, before);
    let mut whole = ended_pool();
    whole.owner_config.platform_fee = 10_000;
    whole.pool.total_referred = 0;
    let closing = close_pool(&mut whole, 87_400).unwrap();
    assert_eq!(closing.event.platform_fees, 100_000);
    assert_eq!(closing.creator_assets, 0);
    assert!(closing.assets_settled);
}
