//! Closing a pool and redeeming from a closed pool.

use vstd::prelude::*;
use crate::constants::MAX_FEE_BIPS;
use crate::error::{LbpError, PoolError, SafeMathError};
use crate::events::{Close, Redeem};
use crate::quote::{calculate_fee, calculate_fee_spec};
use crate::safe_math::safe_sub;
use crate::state::{
    percentage_sum, AccountId, FeeMapping, LiquidityBootstrappingPool, OwnerConfig, Treasury,
    UserStateInPool,
};
use crate::swap::lift;

verus! {

/// The address of the token account that a wallet holds for a mint by
/// convention, where one can be derived.
pub uninterp spec fn associated_token_address(wallet: Seq<u8>, mint: Seq<u8>) -> Option<Seq<u8>>;

/// The derivation behind `anchor_spl::associated_token::get_associated_token_address`,
/// made through `Pubkey::try_find_program_address` with the same seeds (the
/// wallet, the token program's id, the mint) under the associated token
/// program's id. It depends on its two arguments alone, and is `None`
/// where no bump seed gives an address off the curve.
#[verifier::external_body]
fn derive_associated_token_address(
    wallet: &[u8; 32],
    mint: &[u8; 32],
) -> (address: Option<[u8; 32]>)
    ensures
        (match address {
            Some(a) => Some(a@),
            None => None,
        }) == associated_token_address(wallet@, mint@),
{
    match anchor_lang::solana_program::pubkey::Pubkey::try_find_program_address(
        &[wallet, anchor_spl::token::ID.as_ref(), mint],
        &anchor_spl::associated_token::ID,
    ) {
        Some((address, _)) => Some(address.to_bytes()),
        None => None,
    }
}

/// An account handed in beside the named ones: its address, and whether it
/// may be written to.
#[derive(Clone, Copy, Debug, PartialEq, Eq)]
pub struct RemainingAccount {
    pub key: AccountId,
    pub is_writable: bool,
}

/// A token account that receives a part of the platform fee.
#[derive(Clone, Copy, Debug, PartialEq, Eq)]
pub struct FeeRecipient {
    pub account: AccountId,
    pub fee_percentage: u16,
}

/// The percentage that belongs to a token account among the first `n`
/// recipients: that of the last of them whose token account for `mint` it is.
pub open spec fn fee_of_account(
    a: Seq<FeeMapping>,
    mint: Seq<u8>,
    key: Seq<u8>,
    n: int,
) -> Option<u16>
    decreases n,
{
    if n <= 0 {
        None
    } else if associated_token_address(a[n - 1].user@, mint) == Some(key) {
        Some(a[n - 1].percentage)
    } else {
        fee_of_account(a, mint, key, n - 1)
    }
}

/// Whether `key` is among the accounts of `found`.
pub open spec fn holds_account(found: Seq<FeeRecipient>, key: Seq<u8>) -> bool {
    exists|j: int| 0 <= j < found.len() && (#[trigger] found[j]).account@ == key
}

/// The recipients found among the first `n` accounts of `b`, in their
/// order, or the first fault: an account that may not be written to, or a
/// recipient's token account that occurs a second time.
pub open spec fn scan_accounts(
    a: Seq<FeeMapping>,
    b: Seq<RemainingAccount>,
    mint: Seq<u8>,
    n: int,
) -> Result<Seq<FeeRecipient>, PoolError>
    decreases n,
{
    if n <= 0 {
        Ok(Seq::empty())
    } else {
        match scan_accounts(a, b, mint, n - 1) {
            Err(err) => Err(err),
            Ok(found) => {
                let account = b[n - 1];
                if !account.is_writable {
                    Err(PoolError::InvalidFeeRecipientWritable)
                } else {
                    match fee_of_account(a, mint, account.key@, a.len() as int) {
                        None => Ok(found),
                        Some(fee_percentage) => if holds_account(found, account.key@) {
                            Err(PoolError::DuplicateFeeRecipient)
                        } else {
                            Ok(found.push(FeeRecipient { account: account.key, fee_percentage }))
                        },
                    }
                }
            },
        }
    }
}

/// Result of [`retrieve_valid_keys`]: the recipients found among all of
/// `b`, which must be as many as `a` names.
pub open spec fn retrieve_valid_keys_spec(
    a: Seq<FeeMapping>,
    b: Seq<RemainingAccount>,
    mint: Seq<u8>,
) -> Result<Seq<FeeRecipient>, PoolError> {
    match scan_accounts(a, b, mint, b.len() as int) {
        Err(err) => Err(err),
        Ok(found) => if a.len() != found.len() {
            Err(PoolError::InvalidFeeRecipients)
        } else {
            Ok(found)
        },
    }
}

/// The token accounts of the recipients `a` for `mint`, in their order.
fn token_accounts_of(a: &Vec<FeeMapping>, mint: &AccountId) -> (atas: Vec<Option<[u8; 32]>>)
    ensures
        atas@.len() == a@.len(),
        forall|k: int|
            0 <= k < a@.len() ==> (match #[trigger] atas@[k] {
                Some(x) => Some(x@),
                None => None,
            }) == associated_token_address(a@[k].user@, mint@),
{
    let mut atas: Vec<Option<[u8; 32]>> = Vec::new();
    let mut k: usize = 0;
    while k < a.len()
        invariant
            k <= a@.len(),
            atas@.len() == k,
            forall|j: int|
                0 <= j < k ==> (match #[trigger] atas@[j] {
                    Some(x) => Some(x@),
                    None => None,
                }) == associated_token_address(a@[j].user@, mint@),
        decreases a@.len() - k,
    {
        let address = derive_associated_token_address(&a[k].user.bytes, &mint.bytes);
        atas.push(address);
        k = k + 1;
    }
    atas
}

/// The percentage that belongs to the token account `key`.
fn find_fee(
    a: &Vec<FeeMapping>,
    atas: &Vec<Option<[u8; 32]>>,
    mint: &AccountId,
    key: &AccountId,
) -> (r: Option<u16>)
    requires
        atas@.len() == a@.len(),
        forall|k: int|
            0 <= k < a@.len() ==> (match #[trigger] atas@[k] {
                Some(x) => Some(x@),
                None => None,
            }) == associated_token_address(a@[k].user@, mint@),
    ensures
        r == fee_of_account(a@, mint@, key@, a@.len() as int),
{
    let mut n: usize = a.len();
    while n > 0
        invariant
            n <= a@.len(),
            atas@.len() == a@.len(),
            forall|k: int|
                0 <= k < a@.len() ==> (match #[trigger] atas@[k] {
                    Some(x) => Some(x@),
                    None => None,
                }) == associated_token_address(a@[k].user@, mint@),
            fee_of_account(a@, mint@, key@, a@.len() as int) == fee_of_account(
                a@,
                mint@,
                key@,
                n as int,
            ),
        decreases n,
    {
        let ghost at = atas@[n - 1];
        match &atas[n - 1] {
            Some(address) => {
                if crate::state::bytes32_eq(address, &key.bytes) {
                    return Some(a[n - 1].percentage);
                }
            },
            None => {},
        }
        n = n - 1;
    }
    None
}

/// Whether `key` is among the accounts found so far.
fn already_found(found: &Vec<FeeRecipient>, key: &AccountId) -> (r: bool)
    ensures
        r == holds_account(found@, key@),
{
    let mut j: usize = 0;
    while j < found.len()
        invariant
            j <= found@.len(),
            forall|i: int| 0 <= i < j ==> (#[trigger] found@[i]).account@ != key@,
        decreases found@.len() - j,
    {
        if found[j].account.same(key) {
            return true;
        }
        j = j + 1;
    }
    false
}

/// Picks from the accounts `b` those that are the token accounts, for
/// `token_mint`, of the recipients `a`, each with its recipient's
/// percentage and in the order of `b`. Every account of `b` must be open to
/// writing, no recipient's account may occur twice, and as many must be
/// found as `a` names.
pub fn retrieve_valid_keys(
    a: &Vec<FeeMapping>,
    b: &Vec<RemainingAccount>,
    token_mint: &AccountId,
) -> (r: Result<Vec<FeeRecipient>, PoolError>)
    ensures
        match retrieve_valid_keys_spec(a@, b@, token_mint@) {
            Ok(found) => r.is_ok() && r.unwrap()@ == found,
            Err(err) => r == Err::<Vec<FeeRecipient>, PoolError>(err),
        },
{
    let atas = token_accounts_of(a, token_mint);
    let mut filtered_b: Vec<FeeRecipient> = Vec::new();
    let mut i: usize = 0;
    while i < b.len()
        invariant
            i <= b@.len(),
            atas@.len() == a@.len(),
            forall|k: int|
                0 <= k < a@.len() ==> (match #[trigger] atas@[k] {
                    Some(x) => Some(x@),
                    None => None,
                }) == associated_token_address(a@[k].user@, token_mint@),
            scan_accounts(a@, b@, token_mint@, i as int) == Ok::<Seq<FeeRecipient>, PoolError>(
                filtered_b@,
            ),
        decreases b@.len() - i,
    {
        let account = b[i];
        if !account.is_writable {
            proof {
                lemma_scan_fault_stays(a@, b@, token_mint@, i as int + 1, b@.len() as int);
            }
            return Err(PoolError::InvalidFeeRecipientWritable);
        }
        match find_fee(a, &atas, token_mint, &account.key) {
            Some(fee_percentage) => {
                if already_found(&filtered_b, &account.key) {
                    proof {
                        lemma_scan_fault_stays(a@, b@, token_mint@, i as int + 1, b@.len() as int);
                    }
                    return Err(PoolError::DuplicateFeeRecipient);
                }
                filtered_b.push(FeeRecipient { account: account.key, fee_percentage });
            },
            None => {},
        }
        i = i + 1;
    }
    if a.len() != filtered_b.len() {
        return Err(PoolError::InvalidFeeRecipients);
    }
    Ok(filtered_b)
}

/// A fault among the first `n` accounts is the fault of every longer scan.
pub proof fn lemma_scan_fault_stays(
    a: Seq<FeeMapping>,
    b: Seq<RemainingAccount>,
    mint: Seq<u8>,
    n: int,
    m: int,
)
    requires
        0 <= n <= m,
        scan_accounts(a, b, mint, n).is_err(),
    ensures
        scan_accounts(a, b, mint, m) == scan_accounts(a, b, mint, n),
    decreases m - n,
{
    if n < m {
        lemma_scan_fault_stays(a, b, mint, n, m - 1);
    }
}

/// What closing a pool reads and what it changes: the pool with its two
/// balances, the treasury and the fee schedule, the accounts named as the
/// pool's creator and as the recipient of the swap fees, and the accounts
/// handed in for the recipients of the platform fee.
#[derive(Clone, Debug, PartialEq, Eq)]
pub struct ClosePool {
    pub asset_token_mint: AccountId,
    pub pool: LiquidityBootstrappingPool,
    /// Assets that the pool holds.
    pub pool_asset_amount: u64,
    /// Shares that the pool holds.
    pub pool_share_amount: u64,
    pub treasury: Treasury,
    pub pool_creator: AccountId,
    pub swap_fee_recipient: AccountId,
    pub owner_config: OwnerConfig,
    pub remaining_accounts: Vec<RemainingAccount>,
}

/// An amount of assets to pay into a token account.
#[derive(Clone, Copy, Debug, PartialEq, Eq)]
pub struct FeePayment {
    pub to: AccountId,
    pub amount: u64,
}

/// What has to leave a pool that was closed.
#[derive(Clone, Debug, PartialEq, Eq)]
pub struct Closing {
    /// Whether the pool held assets beyond the swap fees. Then the parts of
    /// the platform fee, the swap fees and the creator's assets are moved,
    /// each of them even where it is nothing; else none of them is.
    pub assets_settled: bool,
    /// The parts of the platform fee, one for each recipient.
    pub platform_fee_payments: Vec<FeePayment>,
    /// Assets for the recipient of the swap fees.
    pub swap_fees_asset: u64,
    /// Shares for the recipient of the swap fees.
    pub swap_fees_share: u64,
    /// Assets for the creator.
    pub creator_assets: u64,
    /// Unsold shares, for the creator; moved where there are any.
    pub creator_shares: u64,
    pub event: Close,
}

/// The parts of `platform_fees` for the first `n` of `recipients`.
pub open spec fn fee_payments_spec(
    recipients: Seq<FeeRecipient>,
    platform_fees: u64,
    n: int,
) -> Seq<FeePayment> {
    Seq::new(
        n as nat,
        |i: int|
            FeePayment {
                to: recipients[i].account,
                amount: calculate_fee_spec(
                    platform_fees as int,
                    recipients[i].fee_percentage as int,
                ) as u64,
            },
    )
}

/// The figures of a closing, in the model: sequences in place of vectors.
pub struct ClosingFigures {
    pub assets_settled: bool,
    pub platform_fee_payments: Seq<FeePayment>,
    pub swap_fees_asset: u64,
    pub swap_fees_share: u64,
    pub creator_assets: u64,
    pub creator_shares: u64,
    pub event: Close,
}

impl Closing {
    /// The figures of this closing.
    pub open spec fn figures(&self) -> ClosingFigures {
        ClosingFigures {
            assets_settled: self.assets_settled,
            platform_fee_payments: self.platform_fee_payments@,
            swap_fees_asset: self.swap_fees_asset,
            swap_fees_share: self.swap_fees_share,
            creator_assets: self.creator_assets,
            creator_shares: self.creator_shares,
            event: self.event,
        }
    }
}

/// Whether a pool may be closed at `current_time`: it is not closed yet and
/// its sale has ended.
pub open spec fn closing_allowed(pool: LiquidityBootstrappingPool, current_time: i64) -> bool {
    !pool.closed && current_time >= pool.sale_end_time
}

/// Whether one of the recipients has a percentage above one whole.
pub open spec fn recipient_above_whole(recipients: Seq<FeeRecipient>) -> bool {
    exists|i: int|
        0 <= i < recipients.len() && (#[trigger] recipients[i]).fee_percentage > MAX_FEE_BIPS
}

/// Result of [`fee_payments`]: the parts of the fee, unless a percentage is
/// above one whole.
pub open spec fn fee_payments_result_spec(
    recipients: Seq<FeeRecipient>,
    platform_fees: u64,
) -> Result<Seq<FeePayment>, PoolError> {
    if recipient_above_whole(recipients) {
        Err(PoolError::MaxFeeExceeded)
    } else {
        Ok(fee_payments_spec(recipients, platform_fees, recipients.len() as int))
    }
}

/// Result of [`close_pool`]. The platform fee is taken on the assets that
/// the pool holds beyond the swap fees; the creator gets what the platform
/// fee and the referred assets leave of them, and the shares that were not
/// purchased. Where the pool holds no assets beyond the swap fees, no fee is
/// paid out, in assets or in shares. A fee schedule or a recipient with
/// more than one whole is refused.
pub open spec fn close_pool_spec(
    ctx: ClosePool,
    current_time: i64,
) -> Result<ClosingFigures, LbpError> {
    let pool = ctx.pool;
    let total_assets = ctx.pool_asset_amount - pool.total_swap_fees_asset;
    let platform_fees = calculate_fee_spec(total_assets, ctx.owner_config.platform_fee as int);
    let creator_assets = total_assets - platform_fees - pool.total_referred;
    let recipients = retrieve_valid_keys_spec(
        ctx.treasury.fee_recipients@,
        ctx.remaining_accounts@,
        ctx.asset_token_mint@,
    );
    let payments = fee_payments_result_spec(recipients->Ok_0, platform_fees as u64);
    if !closing_allowed(pool, current_time) {
        Err(LbpError::Pool(PoolError::ClosingDisallowed))
    } else if pool.creator@ != ctx.pool_creator@ {
        Err(LbpError::Pool(PoolError::InvalidCreator))
    } else if ctx.treasury.swap_fee_recipient@ != ctx.swap_fee_recipient@ {
        Err(LbpError::Pool(PoolError::InvalidSwapFeeRecipient))
    } else if !ctx.owner_config.wf() {
        Err(LbpError::Pool(PoolError::MaxFeeExceeded))
    } else if total_assets < 0 || creator_assets < 0 {
        Err(LbpError::Math(SafeMathError::SubtractionUnderflow))
    } else if total_assets != 0 && recipients is Err {
        Err(LbpError::Pool(recipients->Err_0))
    } else if total_assets != 0 && payments is Err {
        Err(LbpError::Pool(payments->Err_0))
    } else if ctx.pool_share_amount < pool.total_purchased {
        Err(LbpError::Math(SafeMathError::SubtractionUnderflow))
    } else {
        Ok(
            ClosingFigures {
                assets_settled: total_assets != 0,
                platform_fee_payments: if total_assets != 0 {
                    payments->Ok_0
                } else {
                    Seq::empty()
                },
                swap_fees_asset: if total_assets != 0 {
                    pool.total_swap_fees_asset
                } else {
                    0
                },
                swap_fees_share: if total_assets != 0 {
                    pool.total_swap_fees_share
                } else {
                    0
                },
                creator_assets: if total_assets != 0 {
                    creator_assets as u64
                } else {
                    0
                },
                creator_shares: (ctx.pool_share_amount - pool.total_purchased) as u64,
                event: Close {
                    assets: creator_assets as u64,
                    platform_fees: platform_fees as u64,
                    swap_fees_asset: pool.total_swap_fees_asset,
                    swap_fees_share: pool.total_swap_fees_share,
                },
            },
        )
    }
}

/// The parts of `platform_fees` for the recipients, in their order. A
/// recipient with a percentage above one whole is refused.
pub fn fee_payments(recipients: &Vec<FeeRecipient>, platform_fees: u64) -> (r: Result<
    Vec<FeePayment>,
    PoolError,
>)
    ensures
        match fee_payments_result_spec(recipients@, platform_fees) {
            Ok(payments) => r.is_ok() && r.unwrap()@ == payments,
            Err(err) => r == Err::<Vec<FeePayment>, PoolError>(err),
        },
{
    let mut payments: Vec<FeePayment> = Vec::new();
    let mut i: usize = 0;
    while i < recipients.len()
        invariant
            i <= recipients@.len(),
            forall|j: int| 0 <= j < i ==> (#[trigger] recipients@[j]).fee_percentage <= MAX_FEE_BIPS,
            payments@ == fee_payments_spec(recipients@, platform_fees, i as int),
        decreases recipients@.len() - i,
    {
        let recipient = recipients[i];
        if recipient.fee_percentage > MAX_FEE_BIPS {
            assert(recipients@[i as int].fee_percentage > MAX_FEE_BIPS);
            return Err(PoolError::MaxFeeExceeded);
        }
        let amount = calculate_fee(platform_fees, recipient.fee_percentage);
        payments.push(FeePayment { to: recipient.account, amount });
        i = i + 1;
        assert(payments@ =~= fee_payments_spec(recipients@, platform_fees, i as int));
    }
    Ok(payments)
}

/// Closes a pool whose sale has ended, once, and says what has to leave
/// it: the platform fee for the treasury's recipients, the swap fees for
/// their recipient, and the rest for the creator. Before the end of the
/// sale, and on a closed pool, it fails with `ClosingDisallowed`; where it
/// fails, nothing has changed.
pub fn close_pool(ctx: &mut ClosePool, current_time: i64) -> (r: Result<Closing, LbpError>)
    ensures
        match close_pool_spec(*old(ctx), current_time) {
            Ok(figures) => {
                &&& r.is_ok()
                &&& r.unwrap().figures() == figures
                &&& *final(ctx) == (ClosePool {
                    pool: LiquidityBootstrappingPool { closed: true, ..old(ctx).pool },
                    ..*old(ctx)
                })
            },
            Err(err) => r == Err::<Closing, LbpError>(err) && *final(ctx) == *old(ctx),
        },
        current_time < old(ctx).pool.sale_end_time ==> r == Err::<Closing, LbpError>(
            LbpError::Pool(PoolError::ClosingDisallowed),
        ),
        old(ctx).pool.closed ==> r.is_err(),
        old(ctx).pool.wf() ==> final(ctx).pool.wf(),
        old(ctx).pool.succeeded_by(final(ctx).pool),
        r.is_ok() ==> final(ctx).pool.closed,
{
    if ctx.pool.closed || current_time < ctx.pool.sale_end_time {
        return Err(LbpError::Pool(PoolError::ClosingDisallowed));
    }
    if !ctx.pool.creator.same(&ctx.pool_creator) {
        return Err(LbpError::Pool(PoolError::InvalidCreator));
    }
    if !ctx.treasury.swap_fee_recipient.same(&ctx.swap_fee_recipient) {
        return Err(LbpError::Pool(PoolError::InvalidSwapFeeRecipient));
    }
    if !ctx.owner_config.fees_valid() {
        return Err(LbpError::Pool(PoolError::MaxFeeExceeded));
    }
    let total_assets = lift(safe_sub(ctx.pool_asset_amount, ctx.pool.total_swap_fees_asset))?;
    let platform_fees = calculate_fee(total_assets, ctx.owner_config.platform_fee);
    let total_assets_minus_fees = lift(
        safe_sub(total_assets - platform_fees, ctx.pool.total_referred),
    )?;
    let mut platform_fee_payments: Vec<FeePayment> = Vec::new();
    let mut swap_fees_asset: u64 = 0;
    let mut swap_fees_share: u64 = 0;
    let mut creator_assets: u64 = 0;
    if total_assets != 0 {
        let recipients = match retrieve_valid_keys(
            &ctx.treasury.fee_recipients,
            &ctx.remaining_accounts,
            &ctx.asset_token_mint,
        ) {
            Ok(recipients) => recipients,
            Err(err) => {
                return Err(LbpError::Pool(err));
            },
        };
        platform_fee_payments = match fee_payments(&recipients, platform_fees) {
            Ok(payments) => payments,
            Err(err) => {
                return Err(LbpError::Pool(err));
            },
        };
        swap_fees_asset = ctx.pool.total_swap_fees_asset;
        swap_fees_share = ctx.pool.total_swap_fees_share;
        creator_assets = total_assets_minus_fees;
    }
    let unsold_shares = lift(safe_sub(ctx.pool_share_amount, ctx.pool.total_purchased))?;
    let event = Close {
        assets: total_assets_minus_fees,
        platform_fees,
        swap_fees_asset: ctx.pool.total_swap_fees_asset,
        swap_fees_share: ctx.pool.total_swap_fees_share,
    };
    ctx.pool.closed = true;
    Ok(
        Closing {
            assets_settled: total_assets != 0,
            platform_fee_payments,
            swap_fees_asset,
            swap_fees_share,
            creator_assets,
            creator_shares: unsold_shares,
            event,
        },
    )
}

/// What redeeming reads and what it changes: the pool with its two
/// balances, and the user with the user's position.
#[derive(Clone, Copy, Debug, PartialEq, Eq)]
pub struct RedeemTokens {
    pub pool: LiquidityBootstrappingPool,
    /// Assets that the pool holds.
    pub pool_asset_amount: u64,
    /// Shares that the pool holds.
    pub pool_share_amount: u64,
    pub user_state_in_pool: UserStateInPool,
    pub user: AccountId,
}

/// What a user gets out of a closed pool. An amount that is given is
/// moved, even where it is nothing; one that is not given is not.
#[derive(Clone, Copy, Debug, PartialEq, Eq)]
pub struct Redemption {
    /// Shares to pay to the user: given where the user had purchased shares.
    pub shares_paid: Option<u64>,
    /// Referred assets to pay to the user: given where they were asked for
    /// and the user had any.
    pub assets_paid: Option<u64>,
    /// Reported where the user had purchased shares.
    pub event: Option<Redeem>,
}

/// The smaller of two amounts.
pub open spec fn min_u64(a: u64, b: u64) -> u64 {
    if a < b {
        a
    } else {
        b
    }
}

/// Result of [`redeem`] on a closed pool: the shares purchased, and with
/// `referred` the assets referred, each no more than the pool holds.
pub open spec fn redemption_spec(ctx: RedeemTokens, referred: bool) -> Redemption {
    let shares = ctx.user_state_in_pool.purchased_shares;
    let assets = ctx.user_state_in_pool.referred_assets;
    Redemption {
        shares_paid: if shares != 0 {
            Some(min_u64(ctx.pool_share_amount, shares))
        } else {
            None
        },
        assets_paid: if referred && assets != 0 {
            Some(min_u64(ctx.pool_asset_amount, assets))
        } else {
            None
        },
        event: if shares != 0 {
            Some(Redeem { caller: ctx.user, shares })
        } else {
            None
        },
    }
}

/// The user's position after [`redeem`]: no shares purchased, and with
/// `referred` no assets referred.
pub open spec fn redeemed_state_spec(state: UserStateInPool, referred: bool) -> UserStateInPool {
    UserStateInPool {
        purchased_shares: 0,
        referred_assets: if referred {
            0
        } else {
            state.referred_assets
        },
        redeemed_shares: state.redeemed_shares,
    }
}

/// Pays a user out of a closed pool: the shares purchased, and with
/// `referred` the assets credited for referrals. What is paid out is
/// struck from the user's position. On a pool that is not closed it fails
/// with `RedeemingDisallowed`, and nothing has changed.
pub fn redeem(ctx: &mut RedeemTokens, referred: bool) -> (r: Result<Redemption, PoolError>)
    ensures
        !old(ctx).pool.closed ==> r == Err::<Redemption, PoolError>(
            PoolError::RedeemingDisallowed,
        ) && *final(ctx) == *old(ctx),
        old(ctx).pool.closed ==> r == Ok::<Redemption, PoolError>(
            redemption_spec(*old(ctx), referred),
        ) && *final(ctx) == (RedeemTokens {
            user_state_in_pool: redeemed_state_spec(old(ctx).user_state_in_pool, referred),
            ..*old(ctx)
        }),
{
    if !ctx.pool.closed {
        return Err(PoolError::RedeemingDisallowed);
    }
    let shares = ctx.user_state_in_pool.purchased_shares;
    let mut shares_paid: Option<u64> = None;
    let mut event: Option<Redeem> = None;
    if shares != 0 {
        shares_paid = Some(
            if ctx.pool_share_amount < shares {
                ctx.pool_share_amount
            } else {
                shares
            },
        );
        event = Some(Redeem { caller: ctx.user, shares });
    }
    let mut assets_paid: Option<u64> = None;
    let mut referred_assets = ctx.user_state_in_pool.referred_assets;
    if referred && referred_assets != 0 {
        let assets = referred_assets;
        referred_assets = 0;
        assets_paid = Some(
            if ctx.pool_asset_amount < assets {
                ctx.pool_asset_amount
            } else {
                assets
            },
        );
    }
    ctx.user_state_in_pool.purchased_shares = 0;
    ctx.user_state_in_pool.referred_assets = referred_assets;
    Ok(Redemption { shares_paid, assets_paid, event })
}

/// Sum of the first `n` payments.
pub open spec fn payments_total(payments: Seq<FeePayment>, n: int) -> int
    decreases n,
{
    if n <= 0 {
        0
    } else {
        payments_total(payments, n - 1) + payments[n - 1].amount
    }
}

/// Sum of the percentages of the first `n` recipients.
pub open spec fn recipients_percentage(recipients: Seq<FeeRecipient>, n: int) -> int
    decreases n,
{
    if n <= 0 {
        0
    } else {
        recipients_percentage(recipients, n - 1) + recipients[n - 1].fee_percentage
    }
}

/// The parts of a fee for recipients whose percentages are no more than
/// one whole in all are no more than the fee in all.
pub proof fn lemma_fee_payments_within_fee(recipients: Seq<FeeRecipient>, platform_fees: u64)
    requires
        recipients_percentage(recipients, recipients.len() as int) <= MAX_FEE_BIPS,
    ensures
        payments_total(
            fee_payments_spec(recipients, platform_fees, recipients.len() as int),
            recipients.len() as int,
        ) <= platform_fees,
{
    let n = recipients.len() as int;
    lemma_fee_payments_within_part(recipients, platform_fees, n, n);
    crate::weighted_math::lemma_part_fits(
        platform_fees as int,
        recipients_percentage(recipients, n),
    );
}

/// The payments to the first `k` of the first `n` recipients are no more
/// than the part of the fee that their percentages make up together.
proof fn lemma_fee_payments_within_part(
    recipients: Seq<FeeRecipient>,
    platform_fees: u64,
    n: int,
    k: int,
)
    requires
        0 <= k <= n <= recipients.len(),
        recipients_percentage(recipients, n) <= MAX_FEE_BIPS,
    ensures
        0 <= recipients_percentage(recipients, k) <= recipients_percentage(recipients, n),
        payments_total(fee_payments_spec(recipients, platform_fees, n), k) <= (platform_fees
            * recipients_percentage(recipients, k)) / (MAX_FEE_BIPS as int),
    decreases k,
{
    lemma_percentage_prefix(recipients, k, n);
    if k > 0 {
        lemma_fee_payments_within_part(recipients, platform_fees, n, k - 1);
        let fee = platform_fees as int;
        let before = recipients_percentage(recipients, k - 1);
        let part = recipients[k - 1].fee_percentage as int;
        crate::weighted_math::lemma_part_fits(fee, part);
        assert(fee_payments_spec(recipients, platform_fees, n)[k - 1].amount == (fee * part)
            / 10_000);
        assert(0 <= fee * before && 0 <= fee * part && fee * (before + part) == fee * before + fee
            * part) by (nonlinear_arith)
            requires
                0 <= fee,
                0 <= before,
                0 <= part,
        ;
        crate::quote::lemma_quotient_of_sum(fee * before, fee * part);
    } else {
        assert(platform_fees * 0 == 0);
    }
}

/// The percentages of fewer recipients are no more than those of more.
proof fn lemma_percentage_prefix(recipients: Seq<FeeRecipient>, k: int, n: int)
    requires
        0 <= k <= n <= recipients.len(),
    ensures
        0 <= recipients_percentage(recipients, k) <= recipients_percentage(recipients, n),
    decreases n,
{
    if k < n {
        lemma_percentage_prefix(recipients, k, n - 1);
    } else {
        lemma_percentage_nonnegative(recipients, k);
    }
}

/// A sum of percentages is not negative.
proof fn lemma_percentage_nonnegative(recipients: Seq<FeeRecipient>, k: int)
    requires
        0 <= k <= recipients.len(),
    ensures
        0 <= recipients_percentage(recipients, k),
    decreases k,
{
    if k > 0 {
        lemma_percentage_nonnegative(recipients, k - 1);
    }
}

/// Among the first `n` recipients, the place of the last whose token
/// account for `mint` is `key`; below zero where there is none.
pub open spec fn owner_of_account(a: Seq<FeeMapping>, mint: Seq<u8>, key: Seq<u8>, n: int) -> int
    decreases n,
{
    if n <= 0 {
        -1
    } else if associated_token_address(a[n - 1].user@, mint) == Some(key) {
        n - 1
    } else {
        owner_of_account(a, mint, key, n - 1)
    }
}

/// The percentage that belongs to a token account is that of its owner.
proof fn lemma_owner_of_account(a: Seq<FeeMapping>, mint: Seq<u8>, key: Seq<u8>, n: int)
    requires
        0 <= n <= a.len(),
    ensures
        ({
            let i = owner_of_account(a, mint, key, n);
            &&& -1 <= i < n
            &&& i >= 0 ==> associated_token_address(a[i].user@, mint) == Some(key)
                && fee_of_account(a, mint, key, n) == Some(a[i].percentage)
            &&& i < 0 ==> fee_of_account(a, mint, key, n) is None
        }),
    decreases n,
{
    if n > 0 {
        lemma_owner_of_account(a, mint, key, n - 1);
    }
}

/// The recipients that a scan finds have each the percentage that belongs
/// to their account, and no two of them have the same account.
proof fn lemma_scan_found(a: Seq<FeeMapping>, b: Seq<RemainingAccount>, mint: Seq<u8>, n: int)
    requires
        0 <= n <= b.len(),
        scan_accounts(a, b, mint, n) is Ok,
    ensures
        ({
            let found = scan_accounts(a, b, mint, n)->Ok_0;
            &&& forall|j: int|
                0 <= j < found.len() ==> fee_of_account(
                    a,
                    mint,
                    (#[trigger] found[j]).account@,
                    a.len() as int,
                ) == Some(found[j].fee_percentage)
            &&& forall|j1: int, j2: int|
                0 <= j1 < j2 < found.len() ==> (#[trigger] found[j1]).account@
                    != (#[trigger] found[j2]).account@
        }),
    decreases n,
{
    if n > 0 {
        lemma_scan_found(a, b, mint, n - 1);
    }
}

/// Sum of the percentages at those of the first `k` places of `picks` that
/// lie below `m`.
pub open spec fn picked_sum(percentages: Seq<u16>, picks: Seq<int>, k: int, m: int) -> int
    decreases k,
{
    if k <= 0 {
        0
    } else {
        picked_sum(percentages, picks, k - 1, m) + (if picks[k - 1] < m {
            percentages[picks[k - 1]] as int
        } else {
            0
        })
    }
}

/// Whether `picks` are places in a list of `len` entries, no place twice.
pub open spec fn distinct_places(picks: Seq<int>, len: int) -> bool {
    &&& forall|j: int| 0 <= j < picks.len() ==> 0 <= #[trigger] picks[j] < len
    &&& forall|j1: int, j2: int|
        0 <= j1 < j2 < picks.len() ==> #[trigger] picks[j1] != #[trigger] picks[j2]
}

/// Letting one more place count adds at most the percentage at that place.
proof fn lemma_picked_step(percentages: Seq<u16>, picks: Seq<int>, k: int, m: int)
    requires
        0 <= k <= picks.len(),
        0 <= m < percentages.len(),
        distinct_places(picks, percentages.len() as int),
    ensures
        (forall|j: int| 0 <= j < k ==> picks[j] != m) ==> picked_sum(percentages, picks, k, m + 1)
            == picked_sum(percentages, picks, k, m),
        picked_sum(percentages, picks, k, m + 1) <= picked_sum(percentages, picks, k, m)
            + percentages[m],
    decreases k,
{
    if k > 0 {
        lemma_picked_step(percentages, picks, k - 1, m);
        if picks[k - 1] == m {
            assert forall|j: int| 0 <= j < k - 1 implies picks[j] != m by {
                assert(picks[j] != picks[k - 1]);
            }
        }
    }
}

/// No place lies below the first.
proof fn lemma_picked_none(percentages: Seq<u16>, picks: Seq<int>, k: int)
    requires
        0 <= k <= picks.len(),
        distinct_places(picks, percentages.len() as int),
    ensures
        picked_sum(percentages, picks, k, 0) == 0,
    decreases k,
{
    if k > 0 {
        lemma_picked_none(percentages, picks, k - 1);
    }
}

/// Percentages picked at different places are no more in all than the
/// percentages at all places.
proof fn lemma_picked_within(percentages: Seq<u16>, picks: Seq<int>, m: int)
    requires
        0 <= m <= percentages.len(),
        distinct_places(picks, percentages.len() as int),
    ensures
        picked_sum(percentages, picks, picks.len() as int, m) <= percentage_sum(percentages, m),
    decreases m,
{
    if m == 0 {
        lemma_picked_none(percentages, picks, picks.len() as int);
    } else {
        lemma_picked_within(percentages, picks, m - 1);
        lemma_picked_step(percentages, picks, picks.len() as int, m - 1);
    }
}

/// The percentages of the recipients found are those picked at their
/// owners' places.
proof fn lemma_found_is_picked(
    found: Seq<FeeRecipient>,
    percentages: Seq<u16>,
    picks: Seq<int>,
    k: int,
)
    requires
        0 <= k <= found.len(),
        picks.len() == found.len(),
        distinct_places(picks, percentages.len() as int),
        forall|j: int|
            0 <= j < found.len() ==> (#[trigger] found[j]).fee_percentage == percentages[picks[j]],
    ensures
        recipients_percentage(found, k) == picked_sum(
            percentages,
            picks,
            k,
            percentages.len() as int,
        ),
    decreases k,
{
    if k > 0 {
        lemma_found_is_picked(found, percentages, picks, k - 1);
        assert(found[k - 1].fee_percentage == percentages[picks[k - 1]]);
    }
}

/// The recipients found among the accounts handed in have together no
/// more than the percentages of all recipients of the treasury.
pub proof fn lemma_found_percentages_within(
    treasury: Treasury,
    b: Seq<RemainingAccount>,
    mint: Seq<u8>,
)
    requires
        retrieve_valid_keys_spec(treasury.fee_recipients@, b, mint) is Ok,
    ensures
        ({
            let found = retrieve_valid_keys_spec(treasury.fee_recipients@, b, mint)->Ok_0;
            recipients_percentage(found, found.len() as int) <= percentage_sum(
                treasury.percentages(),
                treasury.percentages().len() as int,
            )
        }),
{
    let a = treasury.fee_recipients@;
    let found = scan_accounts(a, b, mint, b.len() as int)->Ok_0;
    let percentages = treasury.percentages();
    let picks = Seq::new(
        found.len(),
        |j: int| owner_of_account(a, mint, found[j].account@, a.len() as int),
    );
    lemma_scan_found(a, b, mint, b.len() as int);
    assert forall|j: int| 0 <= j < found.len() implies 0 <= #[trigger] picks[j] < a.len()
        && found[j].fee_percentage == percentages[picks[j]] && associated_token_address(
        a[picks[j]].user@,
        mint,
    ) == Some(found[j].account@) by {
        lemma_owner_of_account(a, mint, found[j].account@, a.len() as int);
    }
    assert forall|j1: int, j2: int| 0 <= j1 < j2 < picks.len() implies #[trigger] picks[j1]
        != #[trigger] picks[j2] by {
        assert(found[j1].account@ != found[j2].account@);
        assert(associated_token_address(a[picks[j1]].user@, mint) == Some(found[j1].account@));
        assert(associated_token_address(a[picks[j2]].user@, mint) == Some(found[j2].account@));
    }
    assert(distinct_places(picks, percentages.len() as int));
    lemma_found_is_picked(found, percentages, picks, found.len() as int);
    lemma_picked_within(percentages, picks, percentages.len() as int);
}

/// A closing pays out no more assets than the pool holds: with a treasury
/// whose percentages are one whole in all, the parts of the platform fee
/// are no more than the fee in all, and together with the swap fees, the
/// creator's assets and the assets owed to referrers they are no more than
/// the pool's assets.
pub proof fn lemma_closing_is_covered(ctx: ClosePool, current_time: i64)
    requires
        ctx.treasury.wf(),
        close_pool_spec(ctx, current_time) is Ok,
    ensures
        ({
            let figures = close_pool_spec(ctx, current_time)->Ok_0;
            let paid = payments_total(
                figures.platform_fee_payments,
                figures.platform_fee_payments.len() as int,
            );
            &&& 0 <= paid <= figures.event.platform_fees
            &&& paid + figures.swap_fees_asset + figures.creator_assets + ctx.pool.total_referred
                <= ctx.pool_asset_amount
        }),
{
    let figures = close_pool_spec(ctx, current_time)->Ok_0;
    let total_assets = ctx.pool_asset_amount - ctx.pool.total_swap_fees_asset;
    if total_assets != 0 {
        let found = retrieve_valid_keys_spec(
            ctx.treasury.fee_recipients@,
            ctx.remaining_accounts@,
            ctx.asset_token_mint@,
        )->Ok_0;
        lemma_found_percentages_within(
            ctx.treasury,
            ctx.remaining_accounts@,
            ctx.asset_token_mint@,
        );
        lemma_fee_payments_within_fee(found, figures.event.platform_fees);
        lemma_payments_nonnegative(figures.platform_fee_payments, found.len() as int);
    }
}

/// A sum of payments is not negative.
proof fn lemma_payments_nonnegative(payments: Seq<FeePayment>, k: int)
    requires
        0 <= k <= payments.len(),
    ensures
        0 <= payments_total(payments, k),
    decreases k,
{
    if k > 0 {
        lemma_payments_nonnegative(payments, k - 1);
    }
}

} // verus!
