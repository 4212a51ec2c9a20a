//! A ledger of timed English auctions: items are put up for a fixed duration,
//! bids must strictly outbid the current highest one, and an auction closes
//! once, for good, when its duration has run out.

pub mod model;
pub mod laws;
pub mod store;

pub use model::{Auction, AuctionDetails, AuctionError, AuctionId, AuctionOverview, Bid, Item};
pub use store::{AuctionStore, Selection};
