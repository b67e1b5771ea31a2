use vstd::prelude::*;
use crate::error::AuctionError;

verus! {

/// The auction is active at `now` iff the deadline lies strictly ahead.
pub open spec fn is_active(now: i64, end_at: i64) -> bool {
    now < end_at
}

/// Succeeds iff the bidding window is still open at `now`.
///
/// Pure and idempotent: no state is read or written.
pub fn validate_auction_active(now: i64, end_at: i64) -> (r: Result<(), AuctionError>)
    ensures
        r is Ok <==> is_active(now, end_at),
        r is Err ==> r->Err_0 == AuctionError::AuctionInactive,
{
    if now < end_at {
        Ok(())
    } else {
        Err(AuctionError::AuctionInactive)
    }
}

/// Succeeds iff the bidding window is closed at `now`.
///
/// Pure and idempotent: no state is read or written.
pub fn validate_auction_inactive(now: i64, end_at: i64) -> (r: Result<(), AuctionError>)
    ensures
        r is Ok <==> !is_active(now, end_at),
        r is Err ==> r->Err_0 == AuctionError::AuctionActive,
{
    if now >= end_at {
        Ok(())
    } else {
        Err(AuctionError::AuctionActive)
    }
}

} // verus!
