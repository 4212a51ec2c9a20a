//! The records kept for each auction, with their mathematical views.

use candid::Principal;
use vstd::prelude::*;

verus! {

/// candid's `Principal`, the identity of a caller as the platform hands it
/// over; the library only stores it and compares two of them.
#[verifier::external_type_specification]
#[verifier::external_body]
pub struct ExPrincipal(Principal);

/// Relies on candid's `PartialEq` for `Principal`, derived over its length
/// and byte buffer: two principals compare equal exactly when they are the
/// same value.
#[verifier::external_body]
pub(crate) fn same_principal(a: &Principal, b: &Principal) -> (r: bool)
    ensures
        r == (*a == *b),
{
    a == b
}

/// Identifier of an auction, assigned at creation.
pub type AuctionId = u64;

/// Nanoseconds in one second: durations are given in seconds, timestamps in
/// nanoseconds.
pub const NANOS_PER_SECOND: u64 = 1_000_000_000;

/// The good that is sold.
pub struct Item {
    pub title: String,
    pub description: String,
    pub image: Vec<u8>,
}

/// The mathematical content of an [`Item`].
pub struct ItemView {
    pub title: Seq<char>,
    pub description: Seq<char>,
    pub image: Seq<u8>,
}

impl View for Item {
    type V = ItemView;

    open spec fn view(&self) -> ItemView {
        ItemView { title: self.title@, description: self.description@, image: self.image@ }
    }
}

/// Copies the bytes of `v` one by one.
fn copy_bytes(v: &Vec<u8>) -> (r: Vec<u8>)
    ensures
        r@ == v@,
{
    let mut r: Vec<u8> = Vec::with_capacity(v.len());
    let mut i: usize = 0;
    while i < v.len()
        invariant
            i <= v.len(),
            r@ == v@.subrange(0, i as int),
        decreases v.len() - i,
    {
        r.push(v[i]);
        i = i + 1;
        assert(r@ =~= v@.subrange(0, i as int));
    }
    assert(v@.subrange(0, v.len() as int) =~= v@);
    r
}

impl Item {
    /// A copy of the item.
    pub fn duplicate(&self) -> (r: Item)
        ensures
            r@ == self@,
    {
        Item {
            title: self.title.clone(),
            description: self.description.clone(),
            image: copy_bytes(&self.image),
        }
    }
}

/// An accepted bid: its price, when it was accepted and who made it.
#[derive(Clone, Copy)]
pub struct Bid {
    pub price: u64,
    pub time: u64,
    pub originator: Principal,
}

/// Copies a bid history entry by entry.
pub(crate) fn copy_bids(v: &Vec<Bid>) -> (r: Vec<Bid>)
    ensures
        r@ == v@,
{
    let mut r: Vec<Bid> = Vec::with_capacity(v.len());
    let mut i: usize = 0;
    while i < v.len()
        invariant
            i <= v.len(),
            r@ == v@.subrange(0, i as int),
        decreases v.len() - i,
    {
        let b: Bid = v[i];
        r.push(b);
        i = i + 1;
        assert(r@ =~= v@.subrange(0, i as int));
    }
    assert(v@.subrange(0, v.len() as int) =~= v@);
    r
}

/// Whether each bid in `bids` outbids every bid before it.
pub open spec fn prices_increasing(bids: Seq<Bid>) -> bool {
    forall|i: int, j: int| 0 <= i < j < bids.len() ==> #[trigger] bids[i].price < #[trigger] bids[j].price
}

/// Whether a bid of `price` may follow `bids`: it must beat the last one.
pub open spec fn outbids(bids: Seq<Bid>, price: u64) -> bool {
    bids.len() == 0 || bids.last().price < price
}

/// Appending a bid that outbids the last one keeps the prices increasing.
pub proof fn lemma_outbid_keeps_increasing(bids: Seq<Bid>, b: Bid)
    requires
        prices_increasing(bids),
        outbids(bids, b.price),
    ensures
        prices_increasing(bids.push(b)),
{
    let s = bids.push(b);
    assert forall|i: int, j: int| 0 <= i < j < s.len() implies #[trigger] s[i].price
        < #[trigger] s[j].price by {
        if j == bids.len() {
            if i < bids.len() - 1 {
                assert(bids[i].price < bids[bids.len() - 1].price);
            }
        }
    }
}

/// Why a request was turned down.
#[derive(Debug, Clone, Copy, PartialEq, Eq, Structural)]
pub enum AuctionError {
    /// No auction has the given identifier.
    AuctionNotFound,
    /// The auction has closed.
    AuctionEnded,
    /// The price does not beat the current highest bid.
    BidTooLow,
    /// Only the ledger itself may close an auction.
    Unauthorized,
}

impl AuctionError {
    /// A sentence that describes the error.
    pub fn message(&self) -> (r: &'static str) {
        match self {
            AuctionError::AuctionNotFound => "Auction not found",
            AuctionError::AuctionEnded => "Auction has ended",
            AuctionError::BidTooLow => "Bid must be higher than the current highest bid",
            AuctionError::Unauthorized => "Only the canister itself can call this function",
        }
    }
}

/// An auction: the item, the accepted bids in the order they came, when it
/// ends, and whether it is still open (`remaining_time` is the original
/// duration while open and 0 once closed).
pub struct Auction {
    pub id: AuctionId,
    pub item: Item,
    pub bid_history: Vec<Bid>,
    pub end_time: u64,
    pub remaining_time: u64,
}

/// The mathematical content of an [`Auction`].
pub struct AuctionView {
    pub id: AuctionId,
    pub item: ItemView,
    pub bids: Seq<Bid>,
    pub end_time: u64,
    pub remaining_time: u64,
}

impl View for Auction {
    type V = AuctionView;

    open spec fn view(&self) -> AuctionView {
        AuctionView {
            id: self.id,
            item: self.item@,
            bids: self.bid_history@,
            end_time: self.end_time,
            remaining_time: self.remaining_time,
        }
    }
}

impl AuctionView {
    /// The auction still takes bids.
    pub open spec fn is_active(self) -> bool {
        self.remaining_time > 0
    }

    /// Time left at `now`: nothing once closed, otherwise the time until
    /// `end_time` (nothing if that has passed).
    pub open spec fn remaining_at(self, now: u64) -> u64 {
        if self.remaining_time == 0 || self.end_time <= now {
            0
        } else {
            (self.end_time - now) as u64
        }
    }

    /// The auction after a bid of `price` by `originator` at `now` was accepted.
    pub open spec fn with_bid(self, price: u64, now: u64, originator: Principal) -> AuctionView {
        AuctionView {
            bids: self.bids.push(Bid { price, time: now, originator }),
            ..self
        }
    }

    /// The auction after it was closed.
    pub open spec fn closed(self) -> AuctionView {
        AuctionView { remaining_time: 0, ..self }
    }

    /// The outcome of offering `price` to this auction: `None` if the bid is
    /// accepted, otherwise the reason it is refused.
    pub open spec fn bid_refusal(self, price: u64) -> Option<AuctionError> {
        if !self.is_active() {
            Some(AuctionError::AuctionEnded)
        } else if !outbids(self.bids, price) {
            Some(AuctionError::BidTooLow)
        } else {
            None
        }
    }
}

/// The timestamp at which an auction of `duration` seconds that starts at
/// `now` ends, held at the largest timestamp where it would not fit.
pub open spec fn end_time_for(now: u64, duration: u64) -> u64 {
    if now + duration * NANOS_PER_SECOND > u64::MAX {
        u64::MAX
    } else {
        (now + duration * NANOS_PER_SECOND) as u64
    }
}

/// An auction's identifier and item, as listings show it.
pub struct AuctionOverview {
    pub id: AuctionId,
    pub item: Item,
}

/// An auction's item, bids and end time.
pub struct AuctionDetails {
    pub item: Item,
    pub bid_history: Vec<Bid>,
    pub end_time: u64,
}

impl Auction {
    /// A new open auction with no bids, created at `now` to run `duration`
    /// seconds.
    pub fn new(id: AuctionId, item: Item, duration: u64, now: u64) -> (r: Auction)
        ensures
            r@ == (AuctionView {
                id,
                item: item@,
                bids: Seq::empty(),
                end_time: end_time_for(now, duration),
                remaining_time: duration,
            }),
    {
        let end_time: u64 = match duration.checked_mul(NANOS_PER_SECOND) {
            Some(span) => now.saturating_add(span),
            None => u64::MAX,
        };
        let r = Auction { id, item, bid_history: Vec::new(), end_time, remaining_time: duration };
        assert(r.bid_history@ =~= Seq::<Bid>::empty());
        r
    }

    /// A copy of the auction.
    pub fn duplicate(&self) -> (r: Auction)
        ensures
            r@ == self@,
    {
        Auction {
            id: self.id,
            item: self.item.duplicate(),
            bid_history: copy_bids(&self.bid_history),
            end_time: self.end_time,
            remaining_time: self.remaining_time,
        }
    }

    /// The auction's item, bids and end time.
    pub fn details(&self) -> (r: AuctionDetails)
        ensures
            r.item@ == self.item@,
            r.bid_history@ == self.bid_history@,
            r.end_time == self.end_time,
    {
        AuctionDetails {
            item: self.item.duplicate(),
            bid_history: copy_bids(&self.bid_history),
            end_time: self.end_time,
        }
    }

    /// The auction's identifier and item.
    pub fn overview(&self) -> (r: AuctionOverview)
        ensures
            r.id == self.id,
            r.item@ == self.item@,
    {
        AuctionOverview { id: self.id, item: self.item.duplicate() }
    }

    /// The last, and so highest, bid, if there is one.
    pub fn highest_bid(&self) -> (r: Option<Bid>)
        ensures
            r == (if self@.bids.len() == 0 {
                None
            } else {
                Some(self@.bids.last())
            }),
    {
        let n: usize = self.bid_history.len();
        if n == 0 {
            None
        } else {
            Some(self.bid_history[n - 1])
        }
    }

    /// Time left at `now`, in the unit of the timestamps.
    pub fn remaining_time_at(&self, now: u64) -> (r: u64)
        ensures
            r == self@.remaining_at(now),
    {
        if self.remaining_time == 0 || self.end_time <= now {
            0
        } else {
            self.end_time - now
        }
    }

    /// Admits a bid of `price` by `originator` at `now`, or refuses it and
    /// leaves the auction as it was.
    pub fn place_bid(&mut self, price: u64, now: u64, originator: Principal) -> (r: Result<
        (),
        AuctionError,
    >)
        ensures
            old(self)@.bid_refusal(price) is None ==> r is Ok && final(self)@ == old(
                self,
            )@.with_bid(price, now, originator),
            old(self)@.bid_refusal(price) matches Some(e) ==> r == Err::<(), AuctionError>(e)
                && final(self)@ == old(self)@,
    {
        if self.remaining_time == 0 {
            return Err(AuctionError::AuctionEnded);
        }
        let n: usize = self.bid_history.len();
        if n > 0 && price <= self.bid_history[n - 1].price {
            return Err(AuctionError::BidTooLow);
        }
        self.bid_history.push(Bid { price, time: now, originator });
        Ok(())
    }

    /// Closes the auction; closing a closed one changes nothing.
    pub fn close(&mut self)
        ensures
            final(self)@ == old(self)@.closed(),
    {
        self.remaining_time = 0;
    }
}

} // verus!
