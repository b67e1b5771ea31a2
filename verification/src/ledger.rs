use vstd::prelude::*;
use crate::AccountId;
use crate::error::AuctionError;
use crate::state::BidInfo;

verus! {

/// The bid ledger: at most one open record per bidder.
///
/// A record is created at a bidder's first bid and consumed when that bidder
/// reclaims the deposit; no record is ever updated in place, so a bidder
/// cannot raise their own bid. The ledger is modelled as the map from each
/// bidder with an open record to the amount that record holds.
pub struct BidLedger {
    entries: Vec<(AccountId, BidInfo)>,
}

/// No two records belong to the same bidder.
spec fn unique_keys(s: Seq<(AccountId, BidInfo)>) -> bool {
    forall|i: int, j: int|
        0 <= i < j < s.len() ==> (#[trigger] s[i]).0 != (#[trigger] s[j]).0
}

/// The map a sequence of records holds.
spec fn entries_map(s: Seq<(AccountId, BidInfo)>) -> Map<AccountId, u64>
    decreases s.len(),
{
    if s.len() == 0 {
        Map::empty()
    } else {
        entries_map(s.drop_last()).insert(s.last().0, s.last().1.amount)
    }
}

proof fn lemma_entries_map_dom(s: Seq<(AccountId, BidInfo)>, k: AccountId)
    ensures
        entries_map(s).dom().contains(k) <==> exists|i: int|
            0 <= i < s.len() && (#[trigger] s[i]).0 == k,
    decreases s.len(),
{
    if s.len() > 0 {
        lemma_entries_map_dom(s.drop_last(), k);
        if s.last().0 == k {
            assert((s[s.len() - 1]).0 == k);
        } else {
            if entries_map(s).dom().contains(k) {
                let i = choose|i: int|
                    0 <= i < s.drop_last().len() && (#[trigger] s.drop_last()[i]).0 == k;
                assert((s[i]).0 == k);
            }
            if exists|i: int| 0 <= i < s.len() && (#[trigger] s[i]).0 == k {
                let i = choose|i: int| 0 <= i < s.len() && (#[trigger] s[i]).0 == k;
                assert(i < s.len() - 1);
                assert((s.drop_last()[i]).0 == k);
            }
        }
    }
}

proof fn lemma_unique_keys_drop_last(s: Seq<(AccountId, BidInfo)>)
    requires
        unique_keys(s),
        s.len() > 0,
    ensures
        unique_keys(s.drop_last()),
{
    assert forall|i: int, j: int|
        0 <= i < j < s.drop_last().len() implies (#[trigger] s.drop_last()[i]).0
        != (#[trigger] s.drop_last()[j]).0 by {
        assert(s.drop_last()[i] == s[i]);
        assert(s.drop_last()[j] == s[j]);
    }
}

proof fn lemma_entries_map_at(s: Seq<(AccountId, BidInfo)>, i: int)
    requires
        unique_keys(s),
        0 <= i < s.len(),
    ensures
        entries_map(s).dom().contains((s[i]).0),
        entries_map(s)[(s[i]).0] == (s[i]).1.amount,
    decreases s.len(),
{
    if i == s.len() - 1 {
    } else {
        lemma_unique_keys_drop_last(s);
        lemma_entries_map_at(s.drop_last(), i);
        assert(s.drop_last()[i] == s[i]);
        assert((s[s.len() - 1]).0 != (s[i]).0);
    }
}

proof fn lemma_unique_keys_remove(s: Seq<(AccountId, BidInfo)>, i: int)
    requires
        unique_keys(s),
        0 <= i < s.len(),
    ensures
        unique_keys(s.remove(i)),
{
    s.remove_ensures(i);
    assert forall|p: int, q: int|
        0 <= p < q < s.remove(i).len() implies (#[trigger] s.remove(i)[p]).0
        != (#[trigger] s.remove(i)[q]).0 by {
        let psrc: int = if p < i { p } else { p + 1 };
        let qsrc: int = if q < i { q } else { q + 1 };
        assert(s.remove(i)[p] == s[psrc]);
        assert(s.remove(i)[q] == s[qsrc]);
    }
}

proof fn lemma_entries_map_remove(s: Seq<(AccountId, BidInfo)>, i: int)
    requires
        unique_keys(s),
        0 <= i < s.len(),
    ensures
        entries_map(s.remove(i)) =~= entries_map(s).remove((s[i]).0),
    decreases s.len(),
{
    let k = (s[i]).0;
    if i == s.len() - 1 {
        assert(s.remove(i) =~= s.drop_last());
        lemma_entries_map_dom(s.drop_last(), k);
        assert forall|j: int|
            0 <= j < s.drop_last().len() implies (#[trigger] s.drop_last()[j]).0 != k by {
            assert(s.drop_last()[j] == s[j]);
        }
        assert(!entries_map(s.drop_last()).dom().contains(k));
    } else {
        let dl = s.drop_last();
        lemma_unique_keys_drop_last(s);
        lemma_entries_map_remove(dl, i);
        s.remove_ensures(i);
        assert(s.remove(i).len() == s.len() - 1);
        assert(s.remove(i).last() == s[s.len() - 1]);
        assert(s.remove(i).drop_last() =~= dl.remove(i)) by {
            dl.remove_ensures(i);
        }
        assert((s[s.len() - 1]).0 != k);
        assert(entries_map(s.remove(i)) == entries_map(dl.remove(i)).insert(
            (s[s.len() - 1]).0,
            (s[s.len() - 1]).1.amount,
        ));
    }
}

impl View for BidLedger {
    type V = Map<AccountId, u64>;

    closed spec fn view(&self) -> Map<AccountId, u64> {
        entries_map(self.entries@)
    }
}

impl BidLedger {
    /// Well-formedness: no bidder holds two records.
    pub closed spec fn wf(self) -> bool {
        unique_keys(self.entries@)
    }

    /// An empty ledger: nobody has bid yet.
    pub fn new() -> (r: BidLedger)
        ensures
            r.wf(),
            r@ == Map::<AccountId, u64>::empty(),
    {
        BidLedger { entries: Vec::new() }
    }

    /// Opens `bidder`'s record with their deposited `amount`. Record creation
    /// is exclusive: a bidder who already holds a record is refused, so a bid
    /// can never be raised.
    pub fn create(&mut self, bidder: AccountId, amount: u64) -> (r: Result<(), AuctionError>)
        requires
            old(self).wf(),
        ensures
            final(self).wf(),
            r is Ok <==> !old(self)@.dom().contains(bidder),
            r is Ok ==> final(self)@ == old(self)@.insert(bidder, amount),
            r is Err ==> *final(self) == *old(self) && r->Err_0 == AuctionError::DuplicateBid,
    {
        let n = self.entries.len();
        let mut i: usize = 0;
        while i < n
            invariant
                n == self.entries.len(),
                i <= n,
                old(self).wf(),
                *self == *old(self),
                forall|j: int| 0 <= j < i ==> (#[trigger] self.entries@[j]).0 != bidder,
            decreases n - i,
        {
            if self.entries[i].0 == bidder {
                proof {
                    lemma_entries_map_dom(self.entries@, bidder);
                }
                return Err(AuctionError::DuplicateBid);
            }
            i += 1;
        }
        proof {
            lemma_entries_map_dom(self.entries@, bidder);
        }
        let ghost prior = self.entries@;
        self.entries.push((bidder, BidInfo { amount }));
        proof {
            assert(self.entries@.drop_last() =~= prior);
            assert forall|p: int, q: int|
                0 <= p < q < self.entries@.len() implies (#[trigger] self.entries@[p]).0
                != (#[trigger] self.entries@[q]).0 by {
                if q < self.entries@.len() - 1 {
                    assert(self.entries@[p] == prior[p]);
                    assert(self.entries@[q] == prior[q]);
                } else {
                    assert(self.entries@[p] == prior[p]);
                    assert((self.entries@[q]).0 == bidder);
                }
            }
        }
        Ok(())
    }

    /// Looks `bidder`'s open record up; fails if they hold none (they never
    /// bid, or already claimed their deposit back).
    pub fn read(&self, bidder: AccountId) -> (r: Result<u64, AuctionError>)
        requires
            self.wf(),
        ensures
            r is Ok <==> self@.dom().contains(bidder),
            r is Ok ==> r->Ok_0 == self@[bidder],
            r is Err ==> r->Err_0 == AuctionError::BidderAlreadyClaimed,
    {
        let n = self.entries.len();
        let mut i: usize = 0;
        while i < n
            invariant
                n == self.entries.len(),
                i <= n,
                self.wf(),
                forall|j: int| 0 <= j < i ==> (#[trigger] self.entries@[j]).0 != bidder,
            decreases n - i,
        {
            if self.entries[i].0 == bidder {
                proof {
                    lemma_entries_map_at(self.entries@, i as int);
                }
                return Ok(self.entries[i].1.amount);
            }
            i += 1;
        }
        proof {
            lemma_entries_map_dom(self.entries@, bidder);
        }
        Err(AuctionError::BidderAlreadyClaimed)
    }

    /// Closes `bidder`'s record and hands its amount back: the record is
    /// consumed, so a second claim by the same bidder fails.
    pub(crate) fn consume(&mut self, bidder: AccountId) -> (r: Result<u64, AuctionError>)
        requires
            old(self).wf(),
        ensures
            final(self).wf(),
            r is Ok <==> old(self)@.dom().contains(bidder),
            r is Ok ==> r->Ok_0 == old(self)@[bidder] && final(self)@ == old(self)@.remove(
                bidder,
            ),
            r is Err ==> *final(self) == *old(self) && r->Err_0
                == AuctionError::BidderAlreadyClaimed,
    {
        let n = self.entries.len();
        let mut i: usize = 0;
        while i < n
            invariant
                n == self.entries.len(),
                i <= n,
                old(self).wf(),
                *self == *old(self),
                forall|j: int| 0 <= j < i ==> (#[trigger] self.entries@[j]).0 != bidder,
            decreases n - i,
        {
            if self.entries[i].0 == bidder {
                proof {
                    lemma_entries_map_at(self.entries@, i as int);
                    lemma_entries_map_remove(self.entries@, i as int);
                    lemma_unique_keys_remove(self.entries@, i as int);
                }
                let removed = self.entries.remove(i);
                return Ok(removed.1.amount);
            }
            i += 1;
        }
        proof {
            lemma_entries_map_dom(self.entries@, bidder);
        }
        Err(AuctionError::BidderAlreadyClaimed)
    }
}

} // verus!
