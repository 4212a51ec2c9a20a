use auction_backend::{AuctionError, AuctionStore, Item, Selection};
use candid::Principal;

const SECOND: u64 = 1_000_000_000;

fn item(title: &str) -> Item {
    Item {
        title: title.to_string(),
        description: format!("{} for sale", title),
        image: vec![1, 2, 3],
    }
}

fn me() -> Principal {
    Principal::from_slice(&[7, 7, 7])
}

fn alice() -> Principal {
    Principal::from_slice(&[1])
}

fn bob() -> Principal {
    Principal::from_slice(&[2])
}

fn ids(list: &[auction_backend::AuctionOverview]) -> Vec<u64> {
    list.iter().map(|o| o.id).collect()
}

fn highest_price(s: &AuctionStore, id: u64) -> Option<u64> {
    s.get_highest_bid_details(id).map(|b| b.price)
}

#[test]
fn scenario_bidding_on_an_open_auction() {
    let mut s = AuctionStore::new();
    let id = s.new_auction(item("lamp"), 60, 1_000);
    assert_eq!(ids(&s.get_active_auctions()), vec![id]);
    assert!(ids(&s.get_ended_auctions()).is_empty());

    assert_eq!(s.make_bid(id, 100, 2_000, alice()), Ok(()));
    assert_eq!(highest_price(&s, id), Some(100));
    assert_eq!(s.make_bid(id, 50, 3_000, bob()), Err(AuctionError::BidTooLow));
    assert_eq!(highest_price(&s, id), Some(100));
    assert_eq!(s.make_bid(id, 150, 4_000, bob()), Ok(()));
    assert_eq!(highest_price(&s, id), Some(150));

    let top = s.get_highest_bid_details(id).unwrap();
    assert_eq!(top.time, 4_000);
    assert_eq!(top.originator, bob());
}

#[test]
fn scenario_closure_after_duration() {
    let mut s = AuctionStore::new();
    let id = s.new_auction(item("lamp"), 60, 1_000);
    assert_eq!(s.make_bid(id, 100, 2_000, alice()), Ok(()));
    assert_eq!(s.end_auction(id, me(), me()), Ok(()));
    assert_eq!(s.get_auction(id).unwrap().remaining_time, 0);
    assert_eq!(s.get_remaining_time(id, 1_000 + 60 * SECOND), Some(0));
    assert_eq!(s.get_remaining_time(id, 1_000), Some(0));
    assert!(ids(&s.get_active_auctions()).is_empty());
    assert_eq!(ids(&s.get_ended_auctions()), vec![id]);
    assert_eq!(s.make_bid(id, 1000, 3_000, bob()), Err(AuctionError::AuctionEnded));
    assert_eq!(s.get_all_bids(id).unwrap().len(), 1);
}

#[test]
fn scenario_details_of_known_and_unknown_auctions() {
    let mut s = AuctionStore::new();
    assert!(s.get_auction_details(0).is_none());
    let id = s.new_auction(item("vase"), 60, 500);
    assert!(s.get_auction_details(id + 1).is_none());
    assert_eq!(s.make_bid(id, 10, 600, alice()), Ok(()));
    assert_eq!(s.make_bid(id, 20, 700, bob()), Ok(()));
    assert_eq!(s.end_auction(id, me(), me()), Ok(()));
    let d = s.get_auction_details(id).unwrap();
    assert_eq!(d.item.title, "vase");
    assert_eq!(d.item.description, "vase for sale");
    assert_eq!(d.item.image, vec![1, 2, 3]);
    let prices: Vec<u64> = d.bid_history.iter().map(|b| b.price).collect();
    assert_eq!(prices, vec![10, 20]);
    assert_eq!(d.end_time, 500 + 60 * SECOND);
}

#[test]
fn bid_on_unknown_auction_is_not_found() {
    let mut s = AuctionStore::new();
    assert_eq!(s.make_bid(0, 10, 1, alice()), Err(AuctionError::AuctionNotFound));
    let id = s.new_auction(item("lamp"), 60, 1);
    assert_eq!(s.make_bid(id + 1, 10, 1, alice()), Err(AuctionError::AuctionNotFound));
    assert!(s.get_all_bids(id).unwrap().is_empty());
}

#[test]
fn equal_bid_is_too_low_and_changes_nothing() {
    let mut s = AuctionStore::new();
    let id = s.new_auction(item("lamp"), 60, 1);
    assert_eq!(s.make_bid(id, 100, 2, alice()), Ok(()));
    assert_eq!(s.make_bid(id, 100, 3, bob()), Err(AuctionError::BidTooLow));
    let bids = s.get_all_bids(id).unwrap();
    assert_eq!(bids.len(), 1);
    assert_eq!(bids[0].originator, alice());
}

#[test]
fn first_bid_of_zero_is_accepted() {
    let mut s = AuctionStore::new();
    let id = s.new_auction(item("lamp"), 60, 1);
    assert_eq!(s.make_bid(id, 0, 2, alice()), Ok(()));
    assert_eq!(s.make_bid(id, 0, 3, bob()), Err(AuctionError::BidTooLow));
    assert_eq!(highest_price(&s, id), Some(0));
}

#[test]
fn close_by_another_identity_is_unauthorized() {
    let mut s = AuctionStore::new();
    let id = s.new_auction(item("lamp"), 60, 1);
    assert_eq!(s.end_auction(id, alice(), me()), Err(AuctionError::Unauthorized));
    assert_eq!(s.get_auction(id).unwrap().remaining_time, 60);
    assert_eq!(ids(&s.get_active_auctions()), vec![id]);
    assert_eq!(s.make_bid(id, 5, 2, alice()), Ok(()));
}

#[test]
fn closing_twice_or_closing_unknown_is_harmless() {
    let mut s = AuctionStore::new();
    let id = s.new_auction(item("lamp"), 60, 1);
    assert_eq!(s.end_auction(id, me(), me()), Ok(()));
    assert_eq!(s.end_auction(id, me(), me()), Ok(()));
    assert_eq!(s.end_auction(42, me(), me()), Ok(()));
    assert_eq!(s.len(), 1);
    assert_eq!(s.get_auction(id).unwrap().remaining_time, 0);
}

#[test]
fn identifiers_increase_in_creation_order() {
    let mut s = AuctionStore::new();
    let a = s.new_auction(item("a"), 10, 1);
    let b = s.new_auction(item("b"), 20, 2);
    assert_eq!(s.end_auction(a, me(), me()), Ok(()));
    let c = s.new_auction(item("c"), 30, 3);
    assert_eq!((a, b, c), (0, 1, 2));
    assert_eq!(s.get_auction(c).unwrap().id, c);
}

#[test]
fn bid_prices_strictly_increase() {
    let mut s = AuctionStore::new();
    let id = s.new_auction(item("lamp"), 60, 1);
    for (t, p) in [5u64, 3, 9, 9, 12, 1, 40].iter().enumerate() {
        let _ = s.make_bid(id, *p, t as u64, alice());
    }
    let prices: Vec<u64> = s.get_all_bids(id).unwrap().iter().map(|b| b.price).collect();
    assert_eq!(prices, vec![5, 9, 12, 40]);
}

#[test]
fn listings_follow_identifier_order_and_state() {
    let mut s = AuctionStore::new();
    for (i, t) in ["a", "b", "c", "d"].iter().enumerate() {
        s.new_auction(item(t), 10 + i as u64, 1);
    }
    assert_eq!(s.end_auction(1, me(), me()), Ok(()));
    assert_eq!(s.end_auction(3, me(), me()), Ok(()));
    assert_eq!(ids(&s.get_overview_list()), vec![0, 1, 2, 3]);
    assert_eq!(ids(&s.get_all_auctions()), vec![0, 1, 2, 3]);
    assert_eq!(ids(&s.get_active_auctions()), vec![0, 2]);
    assert_eq!(ids(&s.get_ended_auctions()), vec![1, 3]);
    assert_eq!(ids(&s.list(Selection::Active)), vec![0, 2]);
    let titles: Vec<String> = s.get_all_auctions().iter().map(|o| o.item.title.clone()).collect();
    assert_eq!(titles, vec!["a", "b", "c", "d"]);
}

#[test]
fn empty_store_lists_nothing() {
    let s = AuctionStore::new();
    assert_eq!(s.len(), 0);
    assert!(s.get_overview_list().is_empty());
    assert!(s.get_auction(0).is_none());
    assert!(s.get_remaining_time(0, 0).is_none());
    assert!(s.get_highest_bid_details(0).is_none());
    assert!(s.get_all_bids(0).is_none());
}

#[test]
fn remaining_time_counts_down_to_end_time() {
    let mut s = AuctionStore::new();
    let id = s.new_auction(item("lamp"), 60, 5);
    assert_eq!(s.get_auction(id).unwrap().end_time, 5 + 60 * SECOND);
    assert_eq!(s.get_remaining_time(id, 10), Some(60 * SECOND - 5));
    assert_eq!(s.get_remaining_time(id, 5 + 60 * SECOND), Some(0));
    assert_eq!(s.get_remaining_time(id, 6 + 60 * SECOND), Some(0));
    assert!(s.get_highest_bid_details(id).is_none());
}

#[test]
fn end_time_is_held_at_the_largest_timestamp() {
    let mut s = AuctionStore::new();
    let a = s.new_auction(item("a"), u64::MAX, 5);
    let b = s.new_auction(item("b"), 10, u64::MAX - 3);
    assert_eq!(s.get_auction(a).unwrap().end_time, u64::MAX);
    assert_eq!(s.get_auction(b).unwrap().end_time, u64::MAX);
}

#[test]
fn zero_duration_auction_is_recorded_as_closed() {
    let mut s = AuctionStore::new();
    let id = s.new_auction(item("lamp"), 0, 5);
    assert_eq!(s.make_bid(id, 1, 5, alice()), Err(AuctionError::AuctionEnded));
    assert_eq!(ids(&s.get_ended_auctions()), vec![id]);
}

#[test]
fn copies_are_independent_of_the_store() {
    let mut s = AuctionStore::new();
    let id = s.new_auction(item("lamp"), 60, 5);
    let mut copy = s.get_auction(id).unwrap();
    copy.item.image.push(9);
    copy.remaining_time = 0;
    assert_eq!(s.get_auction(id).unwrap().item.image, vec![1, 2, 3]);
    assert_eq!(s.make_bid(id, 1, 6, alice()), Ok(()));
}

#[test]
fn error_messages() {
    assert_eq!(AuctionError::AuctionNotFound.message(), "Auction not found");
    assert_eq!(AuctionError::AuctionEnded.message(), "Auction has ended");
    assert_eq!(
        AuctionError::BidTooLow.message(),
        "Bid must be higher than the current highest bid"
    );
    assert_eq!(
        AuctionError::Unauthorized.message(),
        "Only the canister itself can call this function"
    );
}

#[test]
fn restore_accepts_only_the_next_well_formed_record() {
    let mut s = AuctionStore::new();
    let id = s.new_auction(item("lamp"), 60, 5);
    assert_eq!(s.make_bid(id, 10, 6, alice()), Ok(()));
    assert_eq!(s.make_bid(id, 20, 7, bob()), Ok(()));
    assert_eq!(s.end_auction(id, me(), me()), Ok(()));

    let mut t = AuctionStore::new();
    let saved = s.get_auction(id).unwrap();
    assert!(!t.restore(s.get_auction(id).map(|mut a| { a.id = 3; a }).unwrap()));
    let mut bad = s.get_auction(id).unwrap();
    bad.bid_history.swap(0, 1);
    assert!(!t.restore(bad));
    assert_eq!(t.len(), 0);
    assert!(t.restore(saved));
    assert_eq!(t.len(), 1);
    assert_eq!(t.get_all_bids(id).unwrap().len(), 2);
    assert_eq!(t.make_bid(id, 30, 8, alice()), Err(AuctionError::AuctionEnded));
    assert_eq!(t.new_auction(item("next"), 1, 9), 1);
}
