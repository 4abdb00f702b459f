//! Constants of the pool engine.

use vstd::prelude::*;

verus! {

/// Length of one day in seconds: the shortest sale.
pub const ONE_DAY_SECONDS: i64 = 86_400;

/// Largest part of the input reserve, in basis points, that one swap may bring in.
pub const MAX_PERCENTAGE_IN: u16 = 3_000;

/// Largest part of the output reserve, in basis points, that one swap may take out.
pub const MAX_PERCENTAGE_OUT: u16 = 3_000;

/// One whole in basis points.
pub const MAX_FEE_BIPS: u16 = 10_000;

/// Lowest weight, in basis points, that a pool may be configured with.
pub const MIN_WEIGHT_BIPS: u16 = 100;

/// Highest weight, in basis points, that a pool may be configured with.
pub const MAX_WEIGHT_BIPS: u16 = 9_900;

} // verus!
