use vstd::prelude::*;
use crate::AccountId;
use crate::state::TransferOrder;

verus! {

/// The participants of auction creation: the seller and the escrow account
/// the new auction will use.
#[derive(Clone, Copy, Debug, PartialEq, Eq, Structural)]
pub struct Initialize {
    /// The seller creating the auction.
    pub initializer: AccountId,
    /// The account that will custody all deposits.
    pub treasury: AccountId,
}

/// The participants of a bid: the bidder and the auction's treasury.
#[derive(Clone, Copy, Debug, PartialEq, Eq, Structural)]
pub struct AuctionStart {
    /// The auction's escrow account; must match the auction record.
    pub treasury: AccountId,
    /// The bidder placing the deposit.
    pub bidder: AccountId,
}

/// The participants of settlement: the treasury paying out and the seller
/// receiving the winning bid.
#[derive(Clone, Copy, Debug, PartialEq, Eq, Structural)]
pub struct AuctionEnd {
    /// The auction's escrow account; must match the auction record.
    pub treasury: AccountId,
    /// The seller; must match the auction record.
    pub initializer: AccountId,
}

/// The participants of a refund: the treasury paying out and the bidder
/// reclaiming a deposit.
#[derive(Clone, Copy, Debug, PartialEq, Eq, Structural)]
pub struct AuctionRefund {
    /// The auction's escrow account; must match the auction record.
    pub treasury: AccountId,
    /// The bidder asking for their deposit back.
    pub bidder: AccountId,
}

impl AuctionStart {
    /// The deposit a bid performs: the bidder funds the treasury.
    pub fn into_treasury_transfer_context(&self, amount: u64) -> (t: TransferOrder)
        ensures
            t == (TransferOrder { from: self.bidder, to: self.treasury, amount }),
    {
        TransferOrder { from: self.bidder, to: self.treasury, amount }
    }
}

impl AuctionEnd {
    /// The payout settlement performs: the treasury pays the seller.
    pub fn into_initializer_transfer_context(&self, amount: u64) -> (t: TransferOrder)
        ensures
            t == (TransferOrder { from: self.treasury, to: self.initializer, amount }),
    {
        TransferOrder { from: self.treasury, to: self.initializer, amount }
    }
}

impl AuctionRefund {
    /// The payout a refund performs: the treasury returns a deposit.
    pub fn into_bidder_transfer_context(&self, amount: u64) -> (t: TransferOrder)
        ensures
            t == (TransferOrder { from: self.treasury, to: self.bidder, amount }),
    {
        TransferOrder { from: self.treasury, to: self.bidder, amount }
    }
}

} // verus!
