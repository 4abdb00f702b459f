//! Pricing, fee and lifecycle accounting of a time-weighted liquidity
//! bootstrapping pool: a pool of two tokens, the asset and the share, whose
//! weights move in a straight line from a start to an end over the time of a
//! sale.
//!
//! The modules, from the leaves up:
//! - [`safe_math`]: checked fixed-point arithmetic;
//! - [`weighted_math`]: the weight curve and the bonding curve;
//! - [`quote`]: reserves, decimal scaling, previews under the cap on the
//!   share price, and fees;
//! - [`state`], [`events`], [`error`], [`constants`]: the records that the
//!   ledger keeps, what it reports, and how it fails;
//! - [`merkle`], [`standard_checks`]: the whitelist and the checks before a
//!   swap;
//! - [`swap`], [`redemption`], [`pool_management`], [`ownable`], [`views`]:
//!   the operations of the ledger.
//!
//! Every operation is a function of the records it is handed and of the
//! current time. It moves no tokens: it says which amounts have to move.

pub mod constants;
pub mod error;
pub mod events;
pub mod merkle;
pub mod ownable;
pub mod pool_management;
pub mod quote;
pub mod redemption;
pub mod safe_math;
pub mod standard_checks;
pub mod state;
pub mod swap;
pub mod views;
pub mod weighted_math;
