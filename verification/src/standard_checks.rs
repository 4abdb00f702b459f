//! What has to hold before a swap: the pool is not paused, the user is on
//! the whitelist, the sale runs, and for a sale of shares selling is allowed.

use vstd::prelude::*;
use crate::error::PoolError;
use crate::merkle::{merkle_fold, merkle_verify, whitelist_leaf, whitelist_leaf_of};
use crate::state::{AccountId, LiquidityBootstrappingPool};

verus! {

/// Whether a root is all zero: the pool has no whitelist.
pub open spec fn root_is_zero(root: Seq<u8>) -> bool {
    forall|i: int| 0 <= i < root.len() ==> root[i] == 0
}

/// Whether a user passes the whitelist of a pool: the pool has none, or a
/// proof is given and leads from the user's leaf to the root.
pub open spec fn whitelisted(
    root: [u8; 32],
    user: AccountId,
    merkle_proof: Option<Vec<[u8; 32]>>,
) -> bool {
    root_is_zero(root@) || (merkle_proof matches Some(path) && merkle_fold(
        path@,
        whitelist_leaf(user@),
        path@.len() as int,
    ) == root@)
}

/// Whether a sale runs at `current_time`: from its start, short of its end.
pub open spec fn sale_active(pool: LiquidityBootstrappingPool, current_time: i64) -> bool {
    pool.sale_start_time <= current_time < pool.sale_end_time
}

/// Result of [`before_token_swap`]: the first check that fails.
pub open spec fn before_token_swap_spec(
    pool: LiquidityBootstrappingPool,
    user: AccountId,
    current_time: i64,
    merkle_proof: Option<Vec<[u8; 32]>>,
    is_sell: bool,
) -> Result<(), PoolError> {
    if pool.paused {
        Err(PoolError::Paused)
    } else if !whitelisted(pool.whitelist_merkle_root, user, merkle_proof) {
        Err(PoolError::WhitelistProof)
    } else if !sale_active(pool, current_time) {
        Err(PoolError::TradingDisallowed)
    } else if is_sell && !pool.selling_allowed {
        Err(PoolError::SellingDisallowed)
    } else {
        Ok(())
    }
}

/// Whether all 32 bytes are zero.
pub fn is_zero_root(root: &[u8; 32]) -> (r: bool)
    ensures
        r == root_is_zero(root@),
{
    let mut i: usize = 0;
    while i < 32
        invariant
            i <= 32,
            forall|j: int| 0 <= j < i ==> root@[j] == 0,
        decreases 32 - i,
    {
        if root[i] != 0 {
            return false;
        }
        i = i + 1;
    }
    true
}

/// Refuses a user who is not on the pool's whitelist.
pub fn _only_white_listed(
    pool: &LiquidityBootstrappingPool,
    user: &AccountId,
    merkle_proof: &Option<Vec<[u8; 32]>>,
) -> (r: Result<(), PoolError>)
    ensures
        r == (if whitelisted(pool.whitelist_merkle_root, *user, *merkle_proof) {
            Ok::<(), PoolError>(())
        } else {
            Err(PoolError::WhitelistProof)
        }),
{
    if is_zero_root(&pool.whitelist_merkle_root) {
        return Ok(());
    }
    match merkle_proof {
        None => Err(PoolError::WhitelistProof),
        Some(path) => {
            let node = whitelist_leaf_of(&user.bytes);
            if merkle_verify(path.as_slice(), &pool.whitelist_merkle_root, &node) {
                Ok(())
            } else {
                Err(PoolError::WhitelistProof)
            }
        },
    }
}

/// Refuses a swap outside the sale.
pub fn _when_sale_active(
    pool: &LiquidityBootstrappingPool,
    current_time: i64,
) -> (r: Result<(), PoolError>)
    ensures
        r == (if sale_active(*pool, current_time) {
            Ok::<(), PoolError>(())
        } else {
            Err(PoolError::TradingDisallowed)
        }),
{
    if current_time < pool.sale_start_time || current_time >= pool.sale_end_time {
        return Err(PoolError::TradingDisallowed);
    }
    Ok(())
}

/// Refuses a sale of shares where the pool does not allow selling.
pub fn _when_selling_allowed(pool: &LiquidityBootstrappingPool) -> (r: Result<(), PoolError>)
    ensures
        r == (if pool.selling_allowed {
            Ok::<(), PoolError>(())
        } else {
            Err(PoolError::SellingDisallowed)
        }),
{
    if !pool.selling_allowed {
        return Err(PoolError::SellingDisallowed);
    }
    Ok(())
}

/// The checks before a swap, in their order: pause, whitelist, sale window,
/// and for a sale of shares whether selling is allowed.
pub fn before_token_swap(
    pool: &LiquidityBootstrappingPool,
    user: &AccountId,
    current_time: i64,
    merkle_proof: &Option<Vec<[u8; 32]>>,
    is_sell: bool,
) -> (r: Result<(), PoolError>)
    ensures
        r == before_token_swap_spec(*pool, *user, current_time, *merkle_proof, is_sell),
{
    if pool.paused {
        return Err(PoolError::Paused);
    }
    _only_white_listed(pool, user, merkle_proof)?;
    _when_sale_active(pool, current_time)?;
    if is_sell {
        _when_selling_allowed(pool)?;
    }
    Ok(())
}

} // verus!
