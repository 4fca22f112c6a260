//! The ask side of the order book: a list of ask orders, lowest price first.

use vstd::prelude::*;

use crate::error::{
    DropsetError,
    DropsetResult,
};
use crate::state::market::{
    at_or_nil,
    ListKind,
    Market,
};
use crate::state::order::{
    crossing_check,
    find_order_next_index,
    insert_pos,
    list_prices,
    may_post,
    opposite,
    Order,
    OrdersCollection,
};
use crate::state::sector::SectorIndex;

verus! {

/// The ask orders of a market.
pub struct AskOrders;

impl OrdersCollection for AskOrders {
    open spec fn side() -> ListKind {
        ListKind::Asks
    }

    fn kind() -> (r: ListKind) {
        ListKind::Asks
    }

    /// Asks are kept in ascending price order, so the top of the book is the lowest price. A new
    /// ask goes after every ask at its own price (time priority): it is linked before the first
    /// ask with a greater price, or at the end.
    fn find_new_order_next_index(market: &Market, new_order: &Order) -> (r: SectorIndex) {
        find_order_next_index(market, ListKind::Asks, new_order.encoded_price())
    }

    /// A post-only ask may rest only above the highest bid (or when there are no bids), since it
    /// would immediately fill otherwise.
    fn post_only_crossing_check(order: &Order, market: &Market) -> (r: DropsetResult) {
        crossing_check(market, ListKind::Asks, order.encoded_price())
    }
}

} // verus!
