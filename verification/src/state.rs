use vstd::prelude::*;
use crate::AccountId;

verus! {

/// The singleton auction record: seller, escrow account, bidding deadline,
/// the running highest bid, and the settlement flag.
#[derive(Clone, Copy, Debug, PartialEq, Eq, Structural)]
pub struct Auction {
    /// The seller: receives the winning bid at settlement. Fixed at creation.
    pub initializer: AccountId,
    /// The escrow account that custodies every deposit. Fixed at creation.
    pub treasury: AccountId,
    /// The moment the bidding window closes. Fixed at creation.
    pub end_at: i64,
    /// The largest amount bid so far; `None` until the first bid.
    pub highest_bid: Option<u64>,
    /// Who placed the highest bid so far; `None` until the first bid.
    pub bidder: Option<AccountId>,
    /// Set once, by settlement.
    pub ended: bool,
}

impl Auction {
    /// Well-formedness: the highest bid and its bidder are recorded together,
    /// and a settled auction always has a winning bid (settlement of an
    /// auction without bids is refused).
    pub open spec fn wf(self) -> bool {
        &&& self.highest_bid is Some <==> self.bidder is Some
        &&& self.ended ==> self.highest_bid is Some
    }
}

/// One bidder's open bid record: the amount that bidder deposited into the
/// treasury. Created at the bidder's first (and only) bid, consumed when the
/// bidder reclaims the deposit.
#[derive(Clone, Copy, Debug, PartialEq, Eq, Structural)]
pub struct BidInfo {
    /// The deposited amount.
    pub amount: u64,
}

/// A fund movement the external ledger substrate must carry out. The core
/// never touches balances itself: each state-changing operation hands one of
/// these back, and the substrate performs it atomically with the state
/// change, authorized by the `from` party.
#[derive(Clone, Copy, Debug, PartialEq, Eq, Structural)]
pub struct TransferOrder {
    /// The account debited.
    pub from: AccountId,
    /// The account credited.
    pub to: AccountId,
    /// The amount moved.
    pub amount: u64,
}

} // verus!
