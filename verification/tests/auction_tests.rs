use auction::accounts::{AuctionEnd, AuctionRefund, AuctionStart, Initialize};
use auction::error::AuctionError;
use auction::ledger::BidLedger;
use auction::simple_auction::{bid, end_auction, initialize, refund};
use auction::state::{Auction, TransferOrder};

const SELLER: u64 = 1;
const TREASURY: u64 = 2;
const BIDDER_X: u64 = 10;
const BIDDER_Y: u64 = 11;
const BIDDER_Z: u64 = 12;

fn fresh_auction(now: i64, deadline: i64) -> Auction {
    initialize(Initialize { initializer: SELLER, treasury: TREASURY }, now, deadline)
        .expect("deadline lies ahead")
}

fn place(a: &mut Auction, l: &mut BidLedger, bidder: u64, now: i64, amount: u64) -> Result<TransferOrder, AuctionError> {
    bid(a, l, AuctionStart { treasury: TREASURY, bidder }, now, amount)
}

#[test]
fn initialize_records_the_parameters() {
    let a = fresh_auction(0, 100);
    assert_eq!(a.initializer, SELLER);
    assert_eq!(a.treasury, TREASURY);
    assert_eq!(a.end_at, 100);
    assert_eq!(a.highest_bid, None);
    assert_eq!(a.bidder, None);
    assert!(!a.ended);
}

#[test]
fn initialize_rejects_a_deadline_not_ahead() {
    let accounts = Initialize { initializer: SELLER, treasury: TREASURY };
    assert_eq!(initialize(accounts, 100, 100), Err(AuctionError::AuctionInactive));
    assert_eq!(initialize(accounts, 101, 100), Err(AuctionError::AuctionInactive));
}

#[test]
fn first_bid_takes_the_slot_and_orders_the_deposit() {
    let mut a = fresh_auction(0, 100);
    let mut l = BidLedger::new();
    let order = place(&mut a, &mut l, BIDDER_X, 10, 100).expect("bid is open");
    assert_eq!(order, TransferOrder { from: BIDDER_X, to: TREASURY, amount: 100 });
    assert_eq!(a.highest_bid, Some(100));
    assert_eq!(a.bidder, Some(BIDDER_X));
}

#[test]
fn lower_bid_deposits_but_keeps_the_slot() {
    let mut a = fresh_auction(0, 100);
    let mut l = BidLedger::new();
    place(&mut a, &mut l, BIDDER_X, 10, 100).unwrap();
    let order = place(&mut a, &mut l, BIDDER_Y, 20, 50).expect("losing bids still deposit");
    assert_eq!(order, TransferOrder { from: BIDDER_Y, to: TREASURY, amount: 50 });
    assert_eq!(a.highest_bid, Some(100));
    assert_eq!(a.bidder, Some(BIDDER_X));
}

#[test]
fn strictly_greater_bid_updates_equal_bid_never_does() {
    let mut a = fresh_auction(0, 100);
    let mut l = BidLedger::new();
    place(&mut a, &mut l, BIDDER_X, 10, 100).unwrap();
    place(&mut a, &mut l, BIDDER_Y, 20, 100).unwrap();
    assert_eq!(a.highest_bid, Some(100));
    assert_eq!(a.bidder, Some(BIDDER_X), "a tie keeps the earlier highest bidder");
    place(&mut a, &mut l, BIDDER_Z, 30, 101).unwrap();
    assert_eq!(a.highest_bid, Some(101));
    assert_eq!(a.bidder, Some(BIDDER_Z), "a strictly greater bid takes the slot");
}

#[test]
fn highest_bid_is_the_max_over_any_order_of_bids() {
    let mut a = fresh_auction(0, 100);
    let mut l = BidLedger::new();
    place(&mut a, &mut l, BIDDER_X, 1, 40).unwrap();
    place(&mut a, &mut l, BIDDER_Y, 2, 90).unwrap();
    place(&mut a, &mut l, BIDDER_Z, 3, 70).unwrap();
    assert_eq!(a.highest_bid, Some(90));
    assert_eq!(a.bidder, Some(BIDDER_Y));
}

#[test]
fn bid_rejects_a_zero_amount() {
    let mut a = fresh_auction(0, 100);
    let mut l = BidLedger::new();
    assert_eq!(place(&mut a, &mut l, BIDDER_X, 10, 0), Err(AuctionError::InvalidAmount));
    assert_eq!(a.highest_bid, None);
}

#[test]
fn bid_rejects_a_second_bid_by_the_same_bidder() {
    let mut a = fresh_auction(0, 100);
    let mut l = BidLedger::new();
    place(&mut a, &mut l, BIDDER_X, 10, 100).unwrap();
    assert_eq!(place(&mut a, &mut l, BIDDER_X, 20, 200), Err(AuctionError::DuplicateBid));
    assert_eq!(a.highest_bid, Some(100), "a refused bid changes nothing");
}

#[test]
fn bid_rejects_once_the_window_closed() {
    let mut a = fresh_auction(0, 100);
    let mut l = BidLedger::new();
    assert_eq!(place(&mut a, &mut l, BIDDER_X, 100, 50), Err(AuctionError::AuctionInactive));
    assert_eq!(place(&mut a, &mut l, BIDDER_X, 150, 50), Err(AuctionError::AuctionInactive));
}

#[test]
fn end_auction_pays_the_seller_and_marks_ended() {
    let mut a = fresh_auction(0, 100);
    let mut l = BidLedger::new();
    place(&mut a, &mut l, BIDDER_X, 10, 100).unwrap();
    let order = end_auction(&mut a, AuctionEnd { treasury: TREASURY, initializer: SELLER }, 100)
        .expect("window closed, not yet ended");
    assert_eq!(order, TransferOrder { from: TREASURY, to: SELLER, amount: 100 });
    assert!(a.ended);
}

#[test]
fn end_auction_rejects_while_the_window_is_open() {
    let mut a = fresh_auction(0, 100);
    let mut l = BidLedger::new();
    place(&mut a, &mut l, BIDDER_X, 10, 100).unwrap();
    let r = end_auction(&mut a, AuctionEnd { treasury: TREASURY, initializer: SELLER }, 99);
    assert_eq!(r, Err(AuctionError::AuctionActive));
    assert!(!a.ended);
}

#[test]
fn end_auction_succeeds_at_most_once() {
    let mut a = fresh_auction(0, 100);
    let mut l = BidLedger::new();
    place(&mut a, &mut l, BIDDER_X, 10, 100).unwrap();
    let accounts = AuctionEnd { treasury: TREASURY, initializer: SELLER };
    end_auction(&mut a, accounts, 100).unwrap();
    assert_eq!(end_auction(&mut a, accounts, 150), Err(AuctionError::AuctionEnded));
    assert_eq!(end_auction(&mut a, accounts, 1000), Err(AuctionError::AuctionEnded));
}

#[test]
fn end_auction_rejects_an_auction_without_bids() {
    let mut a = fresh_auction(0, 100);
    let r = end_auction(&mut a, AuctionEnd { treasury: TREASURY, initializer: SELLER }, 100);
    assert_eq!(r, Err(AuctionError::NoBids));
    assert!(!a.ended);
}

#[test]
fn refund_rejects_before_settlement() {
    let mut a = fresh_auction(0, 100);
    let mut l = BidLedger::new();
    place(&mut a, &mut l, BIDDER_X, 10, 100).unwrap();
    place(&mut a, &mut l, BIDDER_Y, 20, 50).unwrap();
    let claim = AuctionRefund { treasury: TREASURY, bidder: BIDDER_Y };
    assert_eq!(refund(&a, &mut l, claim, 50), Err(AuctionError::AuctionActive));
    assert_eq!(refund(&a, &mut l, claim, 100), Err(AuctionError::AuctionNotEnded));
}

#[test]
fn refund_by_the_winner_always_fails() {
    let mut a = fresh_auction(0, 100);
    let mut l = BidLedger::new();
    place(&mut a, &mut l, BIDDER_X, 10, 100).unwrap();
    place(&mut a, &mut l, BIDDER_Y, 20, 50).unwrap();
    let claim = AuctionRefund { treasury: TREASURY, bidder: BIDDER_X };
    assert!(refund(&a, &mut l, claim, 50).is_err(), "fails while the window is open");
    assert!(refund(&a, &mut l, claim, 100).is_err(), "fails before settlement");
    end_auction(&mut a, AuctionEnd { treasury: TREASURY, initializer: SELLER }, 100).unwrap();
    assert_eq!(refund(&a, &mut l, claim, 150), Err(AuctionError::WinnerCannotRefund));
}

#[test]
fn refund_pays_a_loser_exactly_once() {
    let mut a = fresh_auction(0, 100);
    let mut l = BidLedger::new();
    place(&mut a, &mut l, BIDDER_X, 10, 100).unwrap();
    place(&mut a, &mut l, BIDDER_Y, 20, 50).unwrap();
    end_auction(&mut a, AuctionEnd { treasury: TREASURY, initializer: SELLER }, 100).unwrap();
    let claim = AuctionRefund { treasury: TREASURY, bidder: BIDDER_Y };
    let order = refund(&a, &mut l, claim, 150).expect("a settled loser is owed their deposit");
    assert_eq!(order, TransferOrder { from: TREASURY, to: BIDDER_Y, amount: 50 });
    assert_eq!(refund(&a, &mut l, claim, 160), Err(AuctionError::BidderAlreadyClaimed));
}

#[test]
fn refund_rejects_a_bidder_without_a_record() {
    let mut a = fresh_auction(0, 100);
    let mut l = BidLedger::new();
    place(&mut a, &mut l, BIDDER_X, 10, 100).unwrap();
    place(&mut a, &mut l, BIDDER_Y, 20, 50).unwrap();
    end_auction(&mut a, AuctionEnd { treasury: TREASURY, initializer: SELLER }, 100).unwrap();
    let claim = AuctionRefund { treasury: TREASURY, bidder: BIDDER_Z };
    assert_eq!(refund(&a, &mut l, claim, 150), Err(AuctionError::BidderAlreadyClaimed));
}

#[test]
fn full_auction_scenario() {
    // Create with deadline 100; X bids 100 and leads; Y bids 50 and does not;
    // settlement is refused while bidding is open, then pays the seller 100;
    // Y reclaims 50; X, the winner, is refused.
    let mut a = fresh_auction(0, 100);
    let mut l = BidLedger::new();
    let dx = place(&mut a, &mut l, BIDDER_X, 10, 100).unwrap();
    assert_eq!(dx, TransferOrder { from: BIDDER_X, to: TREASURY, amount: 100 });
    assert_eq!((a.highest_bid, a.bidder), (Some(100), Some(BIDDER_X)));
    let dy = place(&mut a, &mut l, BIDDER_Y, 20, 50).unwrap();
    assert_eq!(dy, TransferOrder { from: BIDDER_Y, to: TREASURY, amount: 50 });
    assert_eq!((a.highest_bid, a.bidder), (Some(100), Some(BIDDER_X)));
    let settle = AuctionEnd { treasury: TREASURY, initializer: SELLER };
    assert_eq!(end_auction(&mut a, settle, 99), Err(AuctionError::AuctionActive));
    let payout = end_auction(&mut a, settle, 100).unwrap();
    assert_eq!(payout, TransferOrder { from: TREASURY, to: SELLER, amount: 100 });
    assert!(a.ended);
    let back = refund(&a, &mut l, AuctionRefund { treasury: TREASURY, bidder: BIDDER_Y }, 150)
        .unwrap();
    assert_eq!(back, TransferOrder { from: TREASURY, to: BIDDER_Y, amount: 50 });
    let denied = refund(&a, &mut l, AuctionRefund { treasury: TREASURY, bidder: BIDDER_X }, 150);
    assert_eq!(denied, Err(AuctionError::WinnerCannotRefund));
}

#[test]
fn no_bid_auction_cannot_settle() {
    // An auction nobody bid on has nothing to pay out: settlement must fail
    // after the deadline rather than move undefined funds.
    let mut a = fresh_auction(0, 100);
    let r = end_auction(&mut a, AuctionEnd { treasury: TREASURY, initializer: SELLER }, 150);
    assert_eq!(r, Err(AuctionError::NoBids));
    assert!(!a.ended);
}
