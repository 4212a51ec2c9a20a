//! The store of all auctions, keyed by identifier, and the operations on it:
//! creation, bidding, closure and the read-only projections.

use crate::model::{
    copy_bids, end_time_for, lemma_outbid_keeps_increasing, prices_increasing,
    same_principal, Auction, AuctionDetails, AuctionError, AuctionId, AuctionOverview,
    AuctionView, Bid, Item, ItemView,
};
use candid::Principal;
use vstd::prelude::*;

verus! {

/// Every auction ever created, in the order of creation; the identifier of
/// an auction is its position. Auctions are never removed.
pub struct AuctionStore {
    auctions: Vec<Auction>,
}

/// A well-formed store: each auction sits at the position given by its
/// identifier, and its bid prices strictly increase.
pub open spec fn store_wf(s: Seq<AuctionView>) -> bool {
    forall|i: int|
        0 <= i < s.len() ==> (#[trigger] s[i]).id == i && prices_increasing(s[i].bids)
}

/// The auction with identifier `id` in `s`, if any.
pub open spec fn lookup(s: Seq<AuctionView>, id: AuctionId) -> Option<AuctionView> {
    if id < s.len() {
        Some(s[id as int])
    } else {
        None
    }
}

/// How a store may change between two reads: auctions are only added; each
/// keeps its identifier, item and end time; its bids are only appended to;
/// and once closed it stays closed with its bids frozen.
pub open spec fn evolves(s: Seq<AuctionView>, t: Seq<AuctionView>) -> bool {
    &&& s.len() <= t.len()
    &&& forall|i: int|
        0 <= i < s.len() ==> {
            &&& (#[trigger] t[i]).id == s[i].id
            &&& t[i].item == s[i].item
            &&& t[i].end_time == s[i].end_time
            &&& s[i].bids.is_prefix_of(t[i].bids)
            &&& (t[i].remaining_time == s[i].remaining_time || t[i].remaining_time == 0)
            &&& (s[i].remaining_time == 0 ==> t[i].bids == s[i].bids)
        }
}

/// Which auctions a listing shows.
#[derive(Clone, Copy, PartialEq, Eq, Structural, Debug)]
pub enum Selection {
    /// Every auction.
    All,
    /// The auctions that still take bids.
    Active,
    /// The closed auctions.
    Ended,
}

impl Selection {
    /// Whether the listing shows `a`.
    pub open spec fn selects(self, a: AuctionView) -> bool {
        match self {
            Selection::All => true,
            Selection::Active => a.is_active(),
            Selection::Ended => !a.is_active(),
        }
    }

    /// Whether the listing shows `a`.
    pub fn shows(&self, a: &Auction) -> (r: bool)
        ensures
            r == self.selects(a@),
    {
        match self {
            Selection::All => true,
            Selection::Active => a.remaining_time > 0,
            Selection::Ended => a.remaining_time == 0,
        }
    }
}

/// The identifier and item of an auction, as a listing shows them.
pub open spec fn overview_of(a: AuctionView) -> (AuctionId, ItemView) {
    (a.id, a.item)
}

/// The mathematical content of a listing.
pub open spec fn listing_view(v: Seq<AuctionOverview>) -> Seq<(AuctionId, ItemView)> {
    v.map_values(|o: AuctionOverview| (o.id, o.item@))
}

/// The auctions of `s` that `sel` selects, in identifier order, as a
/// listing shows them.
pub open spec fn listing(s: Seq<AuctionView>, sel: Selection) -> Seq<(AuctionId, ItemView)> {
    s.filter(|a: AuctionView| sel.selects(a)).map_values(|a: AuctionView| overview_of(a))
}

impl View for AuctionStore {
    type V = Seq<AuctionView>;

    closed spec fn view(&self) -> Seq<AuctionView> {
        self.auctions@.map_values(|a: Auction| a@)
    }
}

impl AuctionStore {
    /// The store is well formed.
    pub open spec fn wf(&self) -> bool {
        store_wf(self@)
    }

    /// An empty store.
    pub fn new() -> (r: AuctionStore)
        ensures
            r.wf(),
            r@ == Seq::<AuctionView>::empty(),
    {
        let r = AuctionStore { auctions: Vec::new() };
        assert(r@ =~= Seq::<AuctionView>::empty());
        r
    }

    /// The number of auctions created so far.
    pub fn len(&self) -> (r: usize)
        ensures
            r == self@.len(),
    {
        self.auctions.len()
    }

    /// Puts `item` up for auction for `duration` seconds, starting at `now`,
    /// and returns its identifier: the number of auctions created before it.
    /// The caller arms the timer that closes it after `duration` seconds.
    pub fn new_auction(&mut self, item: Item, duration: u64, now: u64) -> (id: AuctionId)
        requires
            old(self).wf(),
            old(self)@.len() < u64::MAX,
        ensures
            final(self).wf(),
            id == old(self)@.len(),
            final(self)@ == old(self)@.push(
                AuctionView {
                    id,
                    item: item@,
                    bids: Seq::empty(),
                    end_time: end_time_for(now, duration),
                    remaining_time: duration,
                },
            ),
            evolves(old(self)@, final(self)@),
    {
        let id: AuctionId = self.auctions.len() as u64;
        let auction = Auction::new(id, item, duration, now);
        self.auctions.push(auction);
        assert(self@ =~= old(self)@.push(auction@));
        assert(prices_increasing(auction@.bids));
        proof {
            assert forall|i: int| 0 <= i < old(self)@.len() implies old(self)@[i].bids.is_prefix_of(
                #[trigger] self@[i].bids,
            ) by {
                assert(old(self)@[i].bids =~= self@[i].bids.subrange(0, old(self)@[i].bids.len() as int));
            }
        }
        id
    }

    /// Takes back a record that was saved earlier, as the next auction: it is
    /// accepted when its identifier is the next one and its bid prices
    /// strictly increase; otherwise the store is left as it was.
    pub fn restore(&mut self, a: Auction) -> (r: bool)
        requires
            old(self).wf(),
        ensures
            final(self).wf(),
            evolves(old(self)@, final(self)@),
            r == (a@.id == old(self)@.len() && prices_increasing(a@.bids)),
            r ==> final(self)@ == old(self)@.push(a@),
            !r ==> final(self)@ == old(self)@,
    {
        proof {
            let s = old(self)@;
            assert forall|i: int| 0 <= i < s.len() implies s[i].bids.is_prefix_of(
                #[trigger] s[i].bids,
            ) by {
                assert(s[i].bids =~= s[i].bids.subrange(0, s[i].bids.len() as int));
            }
        }
        if a.id != self.auctions.len() as u64 {
            return false;
        }
        let n: usize = a.bid_history.len();
        let mut i: usize = 0;
        while i < n
            invariant
                n == a.bid_history.len(),
                i <= n,
                self@ == old(self)@,
                store_wf(self@),
                a.id == self@.len(),
                prices_increasing(a@.bids.subrange(0, i as int)),
            decreases n - i,
        {
            if i > 0 && a.bid_history[i - 1].price >= a.bid_history[i].price {
                assert(!prices_increasing(a@.bids)) by {
                    assert(a@.bids[i - 1].price >= a@.bids[i as int].price);
                }
                return false;
            }
            proof {
                let pre = a@.bids.subrange(0, i as int);
                lemma_outbid_keeps_increasing(pre, a@.bids[i as int]);
                assert(pre.push(a@.bids[i as int]) =~= a@.bids.subrange(0, i + 1));
            }
            i = i + 1;
        }
        assert(a@.bids.subrange(0, n as int) =~= a@.bids);
        let ghost v = a@;
        self.auctions.push(a);
        assert(self@ =~= old(self)@.push(v));
        proof {
            assert forall|i: int| 0 <= i < old(self)@.len() implies old(self)@[i].bids.is_prefix_of(
                #[trigger] self@[i].bids,
            ) by {
                assert(old(self)@[i].bids =~= self@[i].bids.subrange(0, old(self)@[i].bids.len() as int));
            }
        }
        true
    }

    /// Replaces the auction at `id` by `a`.
    fn put(&mut self, id: usize, a: Auction)
        requires
            id < old(self)@.len(),
        ensures
            final(self)@ == old(self)@.update(id as int, a@),
    {
        self.auctions.set(id, a);
        assert(self@ =~= old(self)@.update(id as int, a@));
    }

    /// Offers a bid of `price` on auction `id` by `caller` at `now`. It is
    /// accepted, and appended to the history, when the auction exists, is
    /// open and the price beats the current highest bid; otherwise the store
    /// is left as it was and the reason is returned.
    pub fn make_bid(&mut self, id: AuctionId, price: u64, now: u64, caller: Principal) -> (r:
        Result<(), AuctionError>)
        requires
            old(self).wf(),
        ensures
            final(self).wf(),
            evolves(old(self)@, final(self)@),
            id >= old(self)@.len() ==> r == Err::<(), AuctionError>(AuctionError::AuctionNotFound)
                && final(self)@ == old(self)@,
            id < old(self)@.len() ==> match old(self)@[id as int].bid_refusal(price) {
                None => r is Ok && final(self)@ == old(self)@.update(
                    id as int,
                    old(self)@[id as int].with_bid(price, now, caller),
                ),
                Some(e) => r == Err::<(), AuctionError>(e) && final(self)@ == old(self)@,
            },
    {
        if id >= self.auctions.len() as u64 {
            assert(old(self)@.is_prefix_of(self@));
            return Err(AuctionError::AuctionNotFound);
        }
        let mut auction = self.auctions[id as usize].duplicate();
        let r = auction.place_bid(price, now, caller);
        match r {
            Ok(()) => {
                proof {
                    lemma_outbid_keeps_increasing(
                        old(self)@[id as int].bids,
                        Bid { price, time: now, originator: caller },
                    );
                }
                self.put(id as usize, auction);
                proof {
                    let t = self@;
                    let s = old(self)@;
                    assert(s[id as int].bids =~= t[id as int].bids.subrange(0, s[id as int].bids.len() as int));
                    assert forall|i: int| 0 <= i < s.len() implies s[i].bids.is_prefix_of(
                        #[trigger] t[i].bids,
                    ) by {
                        assert(s[i].bids =~= t[i].bids.subrange(0, s[i].bids.len() as int));
                    }
                }
                Ok(())
            },
            Err(e) => {
                proof {
                    let s = old(self)@;
                    assert forall|i: int| 0 <= i < s.len() implies s[i].bids.is_prefix_of(
                        #[trigger] s[i].bids,
                    ) by {
                        assert(s[i].bids =~= s[i].bids.subrange(0, s[i].bids.len() as int));
                    }
                }
                Err(e)
            },
        }
    }

    /// Closes auction `id` on behalf of `caller`; `self_id` is the ledger's
    /// own identity, the only one allowed to close. Closing a closed or
    /// unknown auction changes nothing.
    pub fn end_auction(&mut self, id: AuctionId, caller: Principal, self_id: Principal) -> (r:
        Result<(), AuctionError>)
        requires
            old(self).wf(),
        ensures
            final(self).wf(),
            evolves(old(self)@, final(self)@),
            caller != self_id ==> r == Err::<(), AuctionError>(AuctionError::Unauthorized)
                && final(self)@ == old(self)@,
            caller == self_id ==> r is Ok && final(self)@ == (if id < old(self)@.len() {
                old(self)@.update(id as int, old(self)@[id as int].closed())
            } else {
                old(self)@
            }),
    {
        proof {
            let s = old(self)@;
            assert forall|i: int| 0 <= i < s.len() implies s[i].bids.is_prefix_of(
                #[trigger] s[i].bids,
            ) by {
                assert(s[i].bids =~= s[i].bids.subrange(0, s[i].bids.len() as int));
            }
        }
        if !same_principal(&caller, &self_id) {
            return Err(AuctionError::Unauthorized);
        }
        if id < self.auctions.len() as u64 {
            let mut auction = self.auctions[id as usize].duplicate();
            assert(auction@ == old(self)@[id as int]);
            auction.close();
            self.put(id as usize, auction);
            assert(self@[id as int] == old(self)@[id as int].closed());
            assert(store_wf(self@)) by {
                assert forall|i: int| 0 <= i < self@.len() implies (#[trigger] self@[i]).id == i
                    && prices_increasing(self@[i].bids) by {
                    if i != id as int {
                        assert(self@[i] == old(self)@[i]);
                    }
                }
            }
        }
        Ok(())
    }

    /// A copy of auction `id`, if it exists.
    pub fn get_auction(&self, id: AuctionId) -> (r: Option<Auction>)
        ensures
            r is Some <==> id < self@.len(),
            r matches Some(a) ==> a@ == self@[id as int],
    {
        if id < self.auctions.len() as u64 {
            Some(self.auctions[id as usize].duplicate())
        } else {
            None
        }
    }

    /// The item, bids and end time of auction `id`, if it exists.
    pub fn get_auction_details(&self, id: AuctionId) -> (r: Option<AuctionDetails>)
        ensures
            r is Some <==> id < self@.len(),
            r matches Some(d) ==> d.item@ == self@[id as int].item && d.bid_history@
                == self@[id as int].bids && d.end_time == self@[id as int].end_time,
    {
        if id < self.auctions.len() as u64 {
            Some(self.auctions[id as usize].details())
        } else {
            None
        }
    }

    /// The time left at `now` in auction `id`, if it exists: nothing once it
    /// is closed.
    pub fn get_remaining_time(&self, id: AuctionId, now: u64) -> (r: Option<u64>)
        ensures
            r == (match lookup(self@, id) {
                Some(a) => Some(a.remaining_at(now)),
                None => None,
            }),
    {
        if id < self.auctions.len() as u64 {
            Some(self.auctions[id as usize].remaining_time_at(now))
        } else {
            None
        }
    }

    /// The highest bid on auction `id`, if it exists and has a bid.
    pub fn get_highest_bid_details(&self, id: AuctionId) -> (r: Option<Bid>)
        ensures
            r == (match lookup(self@, id) {
                Some(a) => if a.bids.len() == 0 {
                    None
                } else {
                    Some(a.bids.last())
                },
                None => None,
            }),
    {
        if id < self.auctions.len() as u64 {
            self.auctions[id as usize].highest_bid()
        } else {
            None
        }
    }

    /// Every bid on auction `id`, in the order they came, if it exists.
    pub fn get_all_bids(&self, id: AuctionId) -> (r: Option<Vec<Bid>>)
        ensures
            r is Some <==> id < self@.len(),
            r matches Some(v) ==> v@ == self@[id as int].bids,
    {
        if id < self.auctions.len() as u64 {
            Some(copy_bids(&self.auctions[id as usize].bid_history))
        } else {
            None
        }
    }

    /// The identifier and item of each auction that `sel` selects, in
    /// identifier order.
    pub fn list(&self, sel: Selection) -> (r: Vec<AuctionOverview>)
        ensures
            listing_view(r@) == listing(self@, sel),
    {
        let mut r: Vec<AuctionOverview> = Vec::new();
        let mut i: usize = 0;
        let n: usize = self.auctions.len();
        while i < n
            invariant
                n == self.auctions.len(),
                n == self@.len(),
                i <= n,
                listing_view(r@) == listing(self@.subrange(0, i as int), sel),
            decreases n - i,
        {
            let a = &self.auctions[i];
            let ghost before = r@;
            let shown = sel.shows(a);
            if shown {
                r.push(a.overview());
            }
            proof {
                let pick = |x: AuctionView| sel.selects(x);
                let s0 = self@.subrange(0, i as int);
                let s1 = self@.subrange(0, i + 1);
                assert(s1.drop_last() =~= s0);
                assert(s1.last() == a@);
                reveal(Seq::filter);
                if shown {
                    assert(s1.filter(pick) == s0.filter(pick).push(a@));
                    assert(listing_view(r@) =~= listing_view(before).push(overview_of(a@)));
                    assert(listing(s1, sel) =~= listing(s0, sel).push(overview_of(a@)));
                } else {
                    assert(s1.filter(pick) == s0.filter(pick));
                    assert(r@ == before);
                }
            }
            i = i + 1;
        }
        assert(self@.subrange(0, n as int) =~= self@);
        r
    }

    /// Every auction, in identifier order.
    pub fn get_overview_list(&self) -> (r: Vec<AuctionOverview>)
        ensures
            listing_view(r@) == listing(self@, Selection::All),
    {
        self.list(Selection::All)
    }

    /// Every auction, in identifier order.
    pub fn get_all_auctions(&self) -> (r: Vec<AuctionOverview>)
        ensures
            listing_view(r@) == listing(self@, Selection::All),
    {
        self.list(Selection::All)
    }

    /// The auctions that still take bids, in identifier order.
    pub fn get_active_auctions(&self) -> (r: Vec<AuctionOverview>)
        ensures
            listing_view(r@) == listing(self@, Selection::Active),
    {
        self.list(Selection::Active)
    }

    /// The closed auctions, in identifier order.
    pub fn get_ended_auctions(&self) -> (r: Vec<AuctionOverview>)
        ensures
            listing_view(r@) == listing(self@, Selection::Ended),
    {
        self.list(Selection::Ended)
    }
}

} // verus!
