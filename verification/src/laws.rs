use vstd::prelude::*;
use crate::AccountId;
use crate::accounts::{AuctionRefund, AuctionStart};
use crate::error::AuctionError;
use crate::simple_auction::{bid_outcome, end_auction_outcome, refund_outcome};
use crate::state::{Auction, TransferOrder};

verus! {

/// Folds a sequence of bids over the auction, each given as the time it was
/// placed, the bidder, and the amount. Stops at the first refused bid.
pub open spec fn apply_bids(
    a: Auction,
    ledger: Map<AccountId, u64>,
    bids: Seq<(i64, AccountId, u64)>,
) -> Result<(Auction, Map<AccountId, u64>), AuctionError>
    decreases bids.len(),
{
    if bids.len() == 0 {
        Ok((a, ledger))
    } else {
        let step = bid_outcome(
            a,
            ledger,
            AuctionStart { treasury: a.treasury, bidder: bids[0].1 },
            bids[0].0,
            bids[0].2,
        );
        if step is Ok {
            apply_bids(step->Ok_0.0, step->Ok_0.1, bids.drop_first())
        } else {
            Err(step->Err_0)
        }
    }
}

/// The induction behind the highest-bid law, from any auction that already
/// records a highest bid: folding further successful bids leaves the
/// recorded highest bid the maximum of the old one and all new amounts, and
/// the slot moves only to the first bidder who strictly exceeded everything
/// before them.
proof fn lemma_bids_fold(a: Auction, ledger: Map<AccountId, u64>, bids: Seq<(i64, AccountId, u64)>)
    requires
        a.highest_bid is Some,
        a.bidder is Some,
        apply_bids(a, ledger, bids) is Ok,
    ensures
        ({
            let f = apply_bids(a, ledger, bids)->Ok_0.0;
            let h0 = a.highest_bid->0;
            let hb = f.highest_bid->0;
            &&& f.highest_bid is Some
            &&& f.bidder is Some
            &&& hb >= h0
            &&& forall|i: int| 0 <= i < bids.len() ==> (#[trigger] bids[i]).2 <= hb
            &&& (hb == h0 ==> f.bidder == a.bidder)
            &&& (hb > h0 ==> exists|k: int|
                0 <= k < bids.len() && (#[trigger] bids[k]).2 == hb && f.bidder == Some(bids[k].1)
                    && (forall|j: int| 0 <= j < k ==> (#[trigger] bids[j]).2 < hb))
        }),
    decreases bids.len(),
{
    if bids.len() > 0 {
        let step = bid_outcome(
            a,
            ledger,
            AuctionStart { treasury: a.treasury, bidder: bids[0].1 },
            bids[0].0,
            bids[0].2,
        );
        let a1 = step->Ok_0.0;
        let l1 = step->Ok_0.1;
        let rest = bids.drop_first();
        lemma_bids_fold(a1, l1, rest);
        assert(forall|i: int| 0 <= i < rest.len() ==> rest[i] == bids[i + 1]);
        let f = apply_bids(a, ledger, bids)->Ok_0.0;
        let h0 = a.highest_bid->0;
        let h1 = a1.highest_bid->0;
        let hb = f.highest_bid->0;
        let amt = bids[0].2;
        assert forall|i: int| 0 <= i < bids.len() implies (#[trigger] bids[i]).2 <= hb by {
            if i == 0 {
                assert(amt <= h1);
            } else {
                assert(rest[i - 1] == bids[i]);
            }
        }
        if hb > h0 {
            if hb == h1 {
                assert(h1 > h0);
                assert(amt == h1);
                assert(f.bidder == a1.bidder);
                assert((bids[0]).2 == hb && f.bidder == Some(bids[0].1));
            } else {
                let k = choose|k: int|
                    0 <= k < rest.len() && (#[trigger] rest[k]).2 == hb && f.bidder == Some(
                        rest[k].1,
                    ) && (forall|j: int| 0 <= j < k ==> (#[trigger] rest[j]).2 < hb);
                assert(rest[k] == bids[k + 1]);
                assert forall|j: int| 0 <= j < k + 1 implies (#[trigger] bids[j]).2 < hb by {
                    if j == 0 {
                        assert(amt <= h1 < hb);
                    } else {
                        assert(rest[j - 1] == bids[j]);
                    }
                }
                assert((bids[k + 1]).2 == hb && f.bidder == Some(bids[k + 1].1) && (forall|j: int|
                    0 <= j < k + 1 ==> (#[trigger] bids[j]).2 < hb));
            }
        }
    }
}

/// After a sequence of bids on a fresh auction all succeed, the recorded
/// highest bid is the maximum of the amounts bid, and the recorded highest
/// bidder is the first bidder to have bid that maximum: every bid before
/// theirs was strictly smaller.
pub proof fn lemma_highest_bid_is_first_max(
    a: Auction,
    ledger: Map<AccountId, u64>,
    bids: Seq<(i64, AccountId, u64)>,
)
    requires
        a.highest_bid is None,
        a.bidder is None,
        bids.len() > 0,
        apply_bids(a, ledger, bids) is Ok,
    ensures
        ({
            let f = apply_bids(a, ledger, bids)->Ok_0.0;
            &&& f.highest_bid is Some
            &&& forall|i: int| 0 <= i < bids.len() ==> (#[trigger] bids[i]).2 <= f.highest_bid->0
            &&& exists|k: int|
                0 <= k < bids.len() && (#[trigger] bids[k]).2 == f.highest_bid->0 && f.bidder
                    == Some(bids[k].1) && (forall|j: int|
                    0 <= j < k ==> (#[trigger] bids[j]).2 < f.highest_bid->0)
        }),
{
    let step = bid_outcome(
        a,
        ledger,
        AuctionStart { treasury: a.treasury, bidder: bids[0].1 },
        bids[0].0,
        bids[0].2,
    );
    let a1 = step->Ok_0.0;
    let l1 = step->Ok_0.1;
    let rest = bids.drop_first();
    let amt = bids[0].2;
    assert(a1.highest_bid == Some(amt) && a1.bidder == Some(bids[0].1));
    lemma_bids_fold(a1, l1, rest);
    assert(forall|i: int| 0 <= i < rest.len() ==> rest[i] == bids[i + 1]);
    let f = apply_bids(a, ledger, bids)->Ok_0.0;
    let hb = f.highest_bid->0;
    assert forall|i: int| 0 <= i < bids.len() implies (#[trigger] bids[i]).2 <= hb by {
        if i == 0 {
            assert(amt <= hb);
        } else {
            assert(rest[i - 1] == bids[i]);
        }
    }
    if hb == amt {
        if f.bidder == a1.bidder {
            assert((bids[0]).2 == hb && f.bidder == Some(bids[0].1));
        } else {
            let k = choose|k: int|
                0 <= k < rest.len() && (#[trigger] rest[k]).2 == hb && f.bidder == Some(rest[k].1)
                    && (forall|j: int| 0 <= j < k ==> (#[trigger] rest[j]).2 < hb);
            assert((bids[0]).2 == hb && f.bidder == Some(bids[0].1));
        }
    } else {
        let k = choose|k: int|
            0 <= k < rest.len() && (#[trigger] rest[k]).2 == hb && f.bidder == Some(rest[k].1) && (
            forall|j: int| 0 <= j < k ==> (#[trigger] rest[j]).2 < hb);
        assert(rest[k] == bids[k + 1]);
        assert forall|j: int| 0 <= j < k + 1 implies (#[trigger] bids[j]).2 < hb by {
            if j == 0 {
                assert(amt < hb);
            } else {
                assert(rest[j - 1] == bids[j]);
            }
        }
        assert((bids[k + 1]).2 == hb && f.bidder == Some(bids[k + 1].1) && (forall|j: int|
            0 <= j < k + 1 ==> (#[trigger] bids[j]).2 < hb));
    }
}

/// Settlement succeeds at most once: once it has succeeded, any later
/// attempt fails because the auction has ended. Time only moves forward, so
/// the second attempt is no earlier than the successful one.
pub proof fn lemma_end_auction_at_most_once(a: Auction, now1: i64, now2: i64)
    requires
        end_auction_outcome(a, now1) is Ok,
        now2 >= now1,
    ensures
        end_auction_outcome(end_auction_outcome(a, now1)->Ok_0.0, now2) == Err::<
            (Auction, TransferOrder),
            AuctionError,
        >(AuctionError::AuctionEnded),
{
}

/// Once the bidding window has closed, every bid is refused outright: in
/// particular, nothing placed after settlement became possible can ever
/// change the recorded winner.
pub proof fn lemma_no_bid_after_close(
    a: Auction,
    ledger: Map<AccountId, u64>,
    accounts: AuctionStart,
    now: i64,
    amount: u64,
)
    requires
        now >= a.end_at,
    ensures
        bid_outcome(a, ledger, accounts, now, amount) == Err::<
            (Auction, Map<AccountId, u64>, TransferOrder),
            AuctionError,
        >(AuctionError::AuctionInactive),
{
}

/// The recorded highest bidder can never reclaim their deposit, whatever the
/// settlement state, the clock, or the ledger's contents.
pub proof fn lemma_winner_never_refunds(
    a: Auction,
    ledger: Map<AccountId, u64>,
    accounts: AuctionRefund,
    now: i64,
)
    requires
        a.bidder == Some(accounts.bidder),
    ensures
        refund_outcome(a, ledger, accounts, now) is Err,
{
}

/// A losing bidder with an open record is owed their refund: once the
/// auction is settled and the window closed, the claim succeeds and repays
/// exactly the recorded deposit out of the treasury.
pub proof fn lemma_refund_owed_to_loser(
    a: Auction,
    ledger: Map<AccountId, u64>,
    accounts: AuctionRefund,
    now: i64,
)
    requires
        now >= a.end_at,
        a.ended,
        a.bidder != Some(accounts.bidder),
        ledger.dom().contains(accounts.bidder),
    ensures
        refund_outcome(a, ledger, accounts, now) is Ok,
        refund_outcome(a, ledger, accounts, now)->Ok_0.1 == (TransferOrder {
            from: a.treasury,
            to: accounts.bidder,
            amount: ledger[accounts.bidder],
        }),
{
}

/// A refund is paid at most once: after a bidder's claim has succeeded,
/// their next claim fails because their record has been consumed. Time only
/// moves forward, so the second attempt is no earlier than the first.
pub proof fn lemma_refund_at_most_once(
    a: Auction,
    ledger: Map<AccountId, u64>,
    accounts: AuctionRefund,
    now1: i64,
    now2: i64,
)
    requires
        refund_outcome(a, ledger, accounts, now1) is Ok,
        now2 >= now1,
    ensures
        refund_outcome(a, refund_outcome(a, ledger, accounts, now1)->Ok_0.0, accounts, now2)
            == Err::<(Map<AccountId, u64>, TransferOrder), AuctionError>(
            AuctionError::BidderAlreadyClaimed,
        ),
{
}

} // verus!
