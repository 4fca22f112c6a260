//! The bid side of the order book: a list of bid orders, highest price first.

use vstd::prelude::*;

use crate::error::{
    DropsetError,
    DropsetResult,
};
use crate::state::market::{
    at_or_nil,
    ListKind,
    Market,
};
use crate::state::order::{
    crossing_check,
    find_order_next_index,
    insert_pos,
    list_prices,
    may_post,
    opposite,
    Order,
    OrdersCollection,
};
use crate::state::sector::SectorIndex;

verus! {

/// The bid orders of a market.
pub struct BidOrders;

impl OrdersCollection for BidOrders {
    open spec fn side() -> ListKind {
        ListKind::Bids
    }

    fn kind() -> (r: ListKind) {
        ListKind::Bids
    }

    /// Bids are kept in descending price order, so the top of the book is the highest price. A
    /// new bid goes after every bid at its own price (time priority): it is linked before the
    /// first bid with a lower price, or at the end.
    fn find_new_order_next_index(market: &Market, new_order: &Order) -> (r: SectorIndex) {
        find_order_next_index(market, ListKind::Bids, new_order.encoded_price())
    }

    /// A post-only bid may rest only below the lowest ask (or when there are no asks), since it
    /// would immediately fill otherwise.
    fn post_only_crossing_check(order: &Order, market: &Market) -> (r: DropsetResult) {
        crossing_check(market, ListKind::Bids, order.encoded_price())
    }
}

} // verus!
