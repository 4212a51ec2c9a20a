//! Properties that hold across operations on an [`AuctionStore`].

use crate::model::{AuctionId, AuctionView};
use crate::store::{evolves, AuctionStore};
use vstd::prelude::*;

verus! {

/// In every auction of a well-formed store, each bid is priced strictly
/// above every bid that came before it.
pub proof fn lemma_bid_prices_increase(s: AuctionStore, id: AuctionId, i: int, j: int)
    requires
        s.wf(),
        id < s@.len(),
        0 <= i < j < s@[id as int].bids.len(),
    ensures
        s@[id as int].bids[i].price < s@[id as int].bids[j].price,
{
    assert(s@[id as int].id == id);
}

/// Changes of a store compose: a store that changes as the operations allow,
/// twice over, has changed as they allow.
pub proof fn lemma_evolves_transitive(s: Seq<AuctionView>, t: Seq<AuctionView>, u: Seq<AuctionView>)
    requires
        evolves(s, t),
        evolves(t, u),
    ensures
        evolves(s, u),
{
    assert forall|i: int| 0 <= i < s.len() implies s[i].bids.is_prefix_of(#[trigger] u[i].bids) by {
        assert(t[i].bids.is_prefix_of(u[i].bids));
        assert(s[i].bids.is_prefix_of(t[i].bids));
        assert(s[i].bids =~= u[i].bids.subrange(0, s[i].bids.len() as int));
    }
}

/// Whether each state of `trace` follows from the one before by the
/// store's operations.
pub open spec fn is_run(trace: Seq<Seq<AuctionView>>) -> bool {
    forall|k: int| 0 <= k < trace.len() - 1 ==> evolves(#[trigger] trace[k], trace[k + 1])
}

/// Any later state of a run has evolved from any earlier one.
pub proof fn lemma_run_evolves(trace: Seq<Seq<AuctionView>>, k: int, m: int)
    requires
        is_run(trace),
        0 <= k <= m < trace.len(),
    ensures
        evolves(trace[k], trace[m]),
    decreases m - k,
{
    if k == m {
        let s = trace[k];
        assert forall|i: int| 0 <= i < s.len() implies s[i].bids.is_prefix_of(#[trigger] s[i].bids) by {
            assert(s[i].bids =~= s[i].bids.subrange(0, s[i].bids.len() as int));
        }
    } else {
        lemma_run_evolves(trace, k, m - 1);
        assert(evolves(trace[m - 1], trace[m]));
        lemma_evolves_transitive(trace[k], trace[m - 1], trace[m]);
    }
}

/// Once an auction is closed, it reads as closed, with the same bids, in
/// every later state of a run.
pub proof fn lemma_closure_is_permanent(trace: Seq<Seq<AuctionView>>, id: AuctionId, k: int, m: int)
    requires
        is_run(trace),
        0 <= k <= m < trace.len(),
        id < trace[k].len(),
        trace[k][id as int].remaining_time == 0,
    ensures
        trace[m][id as int].remaining_time == 0,
        trace[m][id as int].bids == trace[k][id as int].bids,
{
    lemma_run_evolves(trace, k, m);
}

/// Identifiers handed out by two creations, the second after the first,
/// strictly increase, and so never repeat.
pub proof fn lemma_created_ids_increase(
    before_first: Seq<AuctionView>,
    first: AuctionId,
    after_first: Seq<AuctionView>,
    before_second: Seq<AuctionView>,
    second: AuctionId,
)
    requires
        first == before_first.len(),
        after_first.len() == before_first.len() + 1,
        evolves(after_first, before_second),
        second == before_second.len(),
    ensures
        first < second,
{
}

} // verus!
