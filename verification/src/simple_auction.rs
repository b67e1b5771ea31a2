use vstd::prelude::*;
use crate::AccountId;
use crate::accounts::{AuctionEnd, AuctionRefund, AuctionStart, Initialize};
use crate::error::AuctionError;
use crate::ledger::BidLedger;
use crate::state::{Auction, TransferOrder};
use crate::validation::{is_active, validate_auction_active, validate_auction_inactive};

verus! {

/// What auction creation yields: a fresh auction whose deadline is the raw
/// parameter, or a failure when that deadline does not lie ahead of `now`.
///
/// The parameter is consumed as an absolute deadline, not as an offset from
/// the current time: `end_at` stores it unchanged.
pub open spec fn initialize_outcome(accounts: Initialize, now: i64, auction_duration: i64) -> Result<
    Auction,
    AuctionError,
> {
    if is_active(now, auction_duration) {
        Ok(
            Auction {
                initializer: accounts.initializer,
                treasury: accounts.treasury,
                end_at: auction_duration,
                highest_bid: None,
                bidder: None,
                ended: false,
            },
        )
    } else {
        Err(AuctionError::AuctionInactive)
    }
}

/// What a bid yields: the updated auction and ledger together with the
/// deposit the substrate must perform, or the failure that refused the bid.
/// A strictly greater amount takes the highest-bid slot; an equal amount
/// leaves the earlier highest bidder in place.
pub open spec fn bid_outcome(
    a: Auction,
    ledger: Map<AccountId, u64>,
    accounts: AuctionStart,
    now: i64,
    amount: u64,
) -> Result<(Auction, Map<AccountId, u64>, TransferOrder), AuctionError> {
    if !is_active(now, a.end_at) {
        Err(AuctionError::AuctionInactive)
    } else if amount == 0 {
        Err(AuctionError::InvalidAmount)
    } else if ledger.dom().contains(accounts.bidder) {
        Err(AuctionError::DuplicateBid)
    } else {
        let raised = a.highest_bid is None || a.highest_bid->0 < amount;
        let a2 = if raised {
            Auction { highest_bid: Some(amount), bidder: Some(accounts.bidder), ..a }
        } else {
            a
        };
        Ok(
            (
                a2,
                ledger.insert(accounts.bidder, amount),
                TransferOrder { from: accounts.bidder, to: a.treasury, amount },
            ),
        )
    }
}

/// What settlement yields: the auction marked ended together with the payout
/// of the winning bid to the seller, or the failure that refused it. It is
/// refused while bidding is open, after a first settlement, and on an
/// auction nobody bid on.
pub open spec fn end_auction_outcome(a: Auction, now: i64) -> Result<
    (Auction, TransferOrder),
    AuctionError,
> {
    if is_active(now, a.end_at) {
        Err(AuctionError::AuctionActive)
    } else if a.ended {
        Err(AuctionError::AuctionEnded)
    } else if a.highest_bid is None {
        Err(AuctionError::NoBids)
    } else {
        Ok(
            (
                Auction { ended: true, ..a },
                TransferOrder { from: a.treasury, to: a.initializer, amount: a.highest_bid->0 },
            ),
        )
    }
}

/// What a refund yields: the ledger with the claimant's record consumed
/// together with the repayment of their deposit, or the failure that refused
/// it. It is refused while bidding is open, before settlement, for the
/// recorded highest bidder, and for a bidder without an open record.
pub open spec fn refund_outcome(
    a: Auction,
    ledger: Map<AccountId, u64>,
    accounts: AuctionRefund,
    now: i64,
) -> Result<(Map<AccountId, u64>, TransferOrder), AuctionError> {
    if is_active(now, a.end_at) {
        Err(AuctionError::AuctionActive)
    } else if !a.ended {
        Err(AuctionError::AuctionNotEnded)
    } else if a.bidder == Some(accounts.bidder) {
        Err(AuctionError::WinnerCannotRefund)
    } else if !ledger.dom().contains(accounts.bidder) {
        Err(AuctionError::BidderAlreadyClaimed)
    } else {
        Ok(
            (
                ledger.remove(accounts.bidder),
                TransferOrder { from: a.treasury, to: accounts.bidder, amount: ledger[
                    accounts.bidder
                ] },
            ),
        )
    }
}

/// Creates the auction: records seller, treasury and deadline, with no bid
/// yet and settlement pending.
pub fn initialize(accounts: Initialize, now: i64, auction_duration: i64) -> (r: Result<
    Auction,
    AuctionError,
>)
    ensures
        r == initialize_outcome(accounts, now, auction_duration),
        r is Ok ==> r->Ok_0.wf(),
        r is Ok <==> now < auction_duration,
{
    validate_auction_active(now, auction_duration)?;
    Ok(
        Auction {
            initializer: accounts.initializer,
            treasury: accounts.treasury,
            end_at: auction_duration,
            highest_bid: None,
            bidder: None,
            ended: false,
        },
    )
}

/// Places a bid: escrows `amount` with the treasury, opens the bidder's
/// ledger record, and takes the highest-bid slot when the amount strictly
/// exceeds the current highest bid.
///
/// On success the returned order is the deposit the substrate must perform
/// atomically with the recorded state change; on failure nothing changed.
pub fn bid(
    auction: &mut Auction,
    ledger: &mut BidLedger,
    accounts: AuctionStart,
    now: i64,
    amount: u64,
) -> (r: Result<TransferOrder, AuctionError>)
    requires
        old(auction).wf(),
        old(ledger).wf(),
        accounts.treasury == old(auction).treasury,
    ensures
        final(auction).wf(),
        final(ledger).wf(),
        match bid_outcome(*old(auction), old(ledger)@, accounts, now, amount) {
            Ok((a2, l2, t)) => {
                &&& r == Ok::<TransferOrder, AuctionError>(t)
                &&& *final(auction) == a2
                &&& final(ledger)@ == l2
            },
            Err(e) => {
                &&& r == Err::<TransferOrder, AuctionError>(e)
                &&& *final(auction) == *old(auction)
                &&& *final(ledger) == *old(ledger)
            },
        },
        (r is Ok && (old(auction).highest_bid is None || old(auction).highest_bid->0 < amount))
            ==> (final(auction).highest_bid == Some(amount)
            && final(auction).bidder == Some(accounts.bidder)),
        (old(auction).highest_bid is Some && amount <= old(auction).highest_bid->0)
            ==> (final(auction).highest_bid == old(auction).highest_bid
            && final(auction).bidder == old(auction).bidder),
{
    validate_auction_active(now, auction.end_at)?;
    if amount == 0 {
        return Err(AuctionError::InvalidAmount);
    }
    ledger.create(accounts.bidder, amount)?;
    let order = accounts.into_treasury_transfer_context(amount);
    if auction.highest_bid.is_none() || auction.highest_bid.unwrap() < amount {
        auction.highest_bid = Some(amount);
        auction.bidder = Some(accounts.bidder);
    }
    Ok(order)
}

/// Settles the auction: pays the winning bid out of the treasury to the
/// seller and marks the auction ended, once and only once.
///
/// On success the returned order is the payout the substrate must perform
/// atomically with the recorded state change; on failure nothing changed.
pub fn end_auction(auction: &mut Auction, accounts: AuctionEnd, now: i64) -> (r: Result<
    TransferOrder,
    AuctionError,
>)
    requires
        old(auction).wf(),
        accounts.treasury == old(auction).treasury,
        accounts.initializer == old(auction).initializer,
    ensures
        final(auction).wf(),
        match end_auction_outcome(*old(auction), now) {
            Ok((a2, t)) => {
                &&& r == Ok::<TransferOrder, AuctionError>(t)
                &&& *final(auction) == a2
            },
            Err(e) => {
                &&& r == Err::<TransferOrder, AuctionError>(e)
                &&& *final(auction) == *old(auction)
            },
        },
        old(auction).ended ==> r is Err,
        r is Ok ==> final(auction).ended,
{
    validate_auction_inactive(now, auction.end_at)?;
    if auction.ended {
        return Err(AuctionError::AuctionEnded);
    }
    let highest = match auction.highest_bid {
        Some(h) => h,
        None => {
            return Err(AuctionError::NoBids);
        },
    };
    let order = accounts.into_initializer_transfer_context(highest);
    auction.ended = true;
    Ok(order)
}

/// Refunds a losing bidder: returns their escrowed deposit from the treasury
/// and consumes their ledger record, so a second claim fails. The recorded
/// highest bidder is never refunded.
///
/// On success the returned order is the repayment the substrate must perform
/// atomically with the recorded state change; on failure nothing changed.
pub fn refund(auction: &Auction, ledger: &mut BidLedger, accounts: AuctionRefund, now: i64) -> (r:
    Result<TransferOrder, AuctionError>)
    requires
        auction.wf(),
        old(ledger).wf(),
        accounts.treasury == auction.treasury,
    ensures
        final(ledger).wf(),
        match refund_outcome(*auction, old(ledger)@, accounts, now) {
            Ok((l2, t)) => {
                &&& r == Ok::<TransferOrder, AuctionError>(t)
                &&& final(ledger)@ == l2
            },
            Err(e) => {
                &&& r == Err::<TransferOrder, AuctionError>(e)
                &&& *final(ledger) == *old(ledger)
            },
        },
        auction.bidder == Some(accounts.bidder) ==> r is Err,
{
    validate_auction_inactive(now, auction.end_at)?;
    if !auction.ended {
        return Err(AuctionError::AuctionNotEnded);
    }
    let is_winner = match auction.bidder {
        Some(w) => w == accounts.bidder,
        None => false,
    };
    if is_winner {
        return Err(AuctionError::WinnerCannotRefund);
    }
    let amount = ledger.consume(accounts.bidder)?;
    Ok(accounts.into_bidder_transfer_context(amount))
}

} // verus!
