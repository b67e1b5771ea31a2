use vstd::prelude::*;

verus! {

/// The failure conditions surfaced by the auction core.
///
/// The external ledger substrate may fail a transfer on its own (insufficient
/// funds, missing authorization); those failures propagate unchanged from the
/// substrate and are not represented here.
#[derive(Clone, Copy, Debug, PartialEq, Eq, Structural)]
pub enum AuctionError {
    /// The bidding window is still open, but the operation requires it closed.
    AuctionActive,
    /// The bidding window is closed, but the operation requires it open.
    AuctionInactive,
    /// The bidder holds no open bid record: either they never bid, or they
    /// already claimed their deposit back.
    BidderAlreadyClaimed,
    /// Settlement was already performed.
    AuctionEnded,
    /// Refund requires the auction to be settled first.
    AuctionNotEnded,
    /// A bid must deposit a positive amount.
    InvalidAmount,
    /// The bidder already holds a bid record; a bid cannot be raised.
    DuplicateBid,
    /// Settlement requires at least one bid to pay out.
    NoBids,
    /// The recorded highest bidder may never reclaim their deposit.
    WinnerCannotRefund,
}

} // verus!
