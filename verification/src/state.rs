//! The records that the ledger keeps: pool, user position, fee
//! configuration and treasury.

use vstd::prelude::*;
use crate::constants::{MAX_FEE_BIPS, MAX_WEIGHT_BIPS, MIN_WEIGHT_BIPS, ONE_DAY_SECONDS};

verus! {

/// Identity of an account: a token, a user, a pool.
#[derive(Clone, Copy, Debug, PartialEq, Eq, Hash)]
pub struct AccountId {
    pub bytes: [u8; 32],
}

/// Whether two byte strings of 32 bytes hold the same bytes.
pub fn bytes32_eq(a: &[u8; 32], b: &[u8; 32]) -> (r: bool)
    ensures
        r == (a@ == b@),
{
    let mut i: usize = 0;
    while i < 32
        invariant
            i <= 32,
            forall|j: int| 0 <= j < i ==> a@[j] == b@[j],
        decreases 32 - i,
    {
        if a[i] != b[i] {
            return false;
        }
        i = i + 1;
    }
    assert(a@ =~= b@);
    true
}

impl View for AccountId {
    type V = Seq<u8>;

    open spec fn view(&self) -> Seq<u8> {
        self.bytes@
    }
}

impl AccountId {
    /// Whether `self` and `other` name the same account.
    pub fn same(&self, other: &AccountId) -> (r: bool)
        ensures
            r == (self@ == other@),
    {
        bytes32_eq(&self.bytes, &other.bytes)
    }
}

/// A liquidity bootstrapping pool: its configuration, fixed at creation,
/// and its running totals.
#[derive(Clone, Copy, Debug, PartialEq, Eq)]
pub struct LiquidityBootstrappingPool {
    /// Collateral token.
    pub asset_token: AccountId,
    /// Project token.
    pub share_token: AccountId,
    /// The creator of the pool.
    pub creator: AccountId,
    pub virtual_assets: u64,
    pub virtual_shares: u64,
    pub max_share_price: u64,
    pub max_shares_out: u64,
    pub max_assets_in: u64,
    pub start_weight_basis_points: u16,
    pub end_weight_basis_points: u16,
    pub sale_start_time: i64,
    pub sale_end_time: i64,
    pub vest_cliff: i64,
    pub vest_end: i64,
    pub selling_allowed: bool,
    /// Shares purchased and not sold back.
    pub total_purchased: u64,
    /// Assets credited to referrers.
    pub total_referred: u64,
    /// Swap fees charged in assets.
    pub total_swap_fees_asset: u64,
    /// Swap fees charged in shares.
    pub total_swap_fees_share: u64,
    /// Set once, when the pool is closed.
    pub closed: bool,
    /// While set, the pool accepts no swap.
    pub paused: bool,
    /// Root of the whitelist; all zero where there is none.
    pub whitelist_merkle_root: [u8; 32],
}

/// Whether a weight in basis points is one that a pool may have.
pub open spec fn weight_in_range(weight: u16) -> bool {
    MIN_WEIGHT_BIPS <= weight <= MAX_WEIGHT_BIPS
}

/// Whether the times of a sale and of its vesting agree: the sale lasts a
/// day at least, and where vesting ends after the sale, its cliff lies
/// before the end of the sale and before the end of vesting.
pub open spec fn schedule_valid(
    sale_start_time: i64,
    sale_end_time: i64,
    vest_cliff: i64,
    vest_end: i64,
) -> bool {
    &&& sale_end_time - sale_start_time >= ONE_DAY_SECONDS
    &&& sale_end_time < vest_end ==> vest_cliff < sale_end_time && vest_cliff < vest_end
}

impl LiquidityBootstrappingPool {
    /// The invariant of a pool.
    pub open spec fn wf(&self) -> bool {
        &&& self.asset_token@ != self.share_token@
        &&& schedule_valid(self.sale_start_time, self.sale_end_time, self.vest_cliff, self.vest_end)
        &&& weight_in_range(self.start_weight_basis_points)
        &&& weight_in_range(self.end_weight_basis_points)
        &&& self.total_purchased <= self.max_shares_out
    }

    /// Whether `later` is this pool at a later time: with the configuration
    /// it was created with, and closed if this one is. Only the running
    /// totals, the pause and the closing may differ.
    pub open spec fn succeeded_by(&self, later: LiquidityBootstrappingPool) -> bool {
        &&& later.asset_token == self.asset_token
        &&& later.share_token == self.share_token
        &&& later.creator == self.creator
        &&& later.virtual_assets == self.virtual_assets
        &&& later.virtual_shares == self.virtual_shares
        &&& later.max_share_price == self.max_share_price
        &&& later.max_shares_out == self.max_shares_out
        &&& later.max_assets_in == self.max_assets_in
        &&& later.start_weight_basis_points == self.start_weight_basis_points
        &&& later.end_weight_basis_points == self.end_weight_basis_points
        &&& later.sale_start_time == self.sale_start_time
        &&& later.sale_end_time == self.sale_end_time
        &&& later.vest_cliff == self.vest_cliff
        &&& later.vest_end == self.vest_end
        &&& later.selling_allowed == self.selling_allowed
        &&& later.whitelist_merkle_root == self.whitelist_merkle_root
        &&& self.closed ==> later.closed
    }
}

/// Position of one user in one pool.
#[derive(Clone, Copy, Debug, PartialEq, Eq, Structural)]
pub struct UserStateInPool {
    pub purchased_shares: u64,
    pub referred_assets: u64,
    pub redeemed_shares: u64,
}

/// Owner and fee schedule, shared by all pools.
#[derive(Clone, Copy, Debug, PartialEq, Eq)]
pub struct OwnerConfig {
    pub owner: AccountId,
    /// A new owner who has been nominated and has not yet accepted.
    pub pending_owner: Option<AccountId>,
    pub platform_fee: u16,
    pub referral_fee: u16,
    pub swap_fee: u16,
}

impl OwnerConfig {
    /// The invariant of a fee schedule: no fee above one whole.
    pub open spec fn wf(&self) -> bool {
        &&& self.platform_fee <= MAX_FEE_BIPS
        &&& self.referral_fee <= MAX_FEE_BIPS
        &&& self.swap_fee <= MAX_FEE_BIPS
    }

    /// Whether no fee of the schedule is above one whole.
    pub fn fees_valid(&self) -> (r: bool)
        ensures
            r == self.wf(),
    {
        self.platform_fee <= MAX_FEE_BIPS && self.referral_fee <= MAX_FEE_BIPS && self.swap_fee
            <= MAX_FEE_BIPS
    }
}

/// One recipient of the platform fee with its part in basis points.
#[derive(Clone, Copy, Debug, PartialEq, Eq)]
pub struct FeeMapping {
    pub user: AccountId,
    pub percentage: u16,
}

/// Recipients of the fees, shared by all pools.
#[derive(Clone, Debug, PartialEq, Eq)]
pub struct Treasury {
    pub swap_fee_recipient: AccountId,
    pub fee_recipients: Vec<FeeMapping>,
}

/// Sum of the first `n` of a list of percentages.
pub open spec fn percentage_sum(percentages: Seq<u16>, n: int) -> int
    decreases n,
{
    if n <= 0 {
        0
    } else {
        percentage_sum(percentages, n - 1) + percentages[n - 1]
    }
}

/// Whether a list of percentages is a split of one whole: none above one
/// whole, and one whole in all.
pub open spec fn percentages_valid(percentages: Seq<u16>) -> bool {
    &&& forall|i: int| 0 <= i < percentages.len() ==> #[trigger] percentages[i] <= MAX_FEE_BIPS
    &&& percentage_sum(percentages, percentages.len() as int) == MAX_FEE_BIPS
}

impl Treasury {
    /// The percentages of the recipients, in their order.
    pub open spec fn percentages(&self) -> Seq<u16> {
        Seq::new(self.fee_recipients@.len(), |i: int| self.fee_recipients@[i].percentage)
    }

    /// The invariant of a treasury: its percentages are a split of one whole.
    pub open spec fn wf(&self) -> bool {
        percentages_valid(self.percentages())
    }
}

} // verus!
