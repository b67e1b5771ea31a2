//! Single-instance ascending-price auction with escrowed deposits.
//!
//! The library is the auction core: the lifecycle state machine, the
//! time-window validator, and the per-bidder bid ledger. Fund movement is
//! delegated to an external ledger substrate: each state-changing operation
//! returns the transfer the substrate must perform atomically with the
//! state change it describes.

use vstd::prelude::*;

pub mod accounts;
pub mod error;
pub mod laws;
pub mod ledger;
pub mod simple_auction;
pub mod state;
pub mod validation;

verus! {

/// A participant identity on the external ledger (an account).
pub type AccountId = u64;

} // verus!
