//! The market-state part of posting a post-only order: pricing it, checking that it would rest,
//! linking it into its side of the book and locking the collateral in the owner's seat.

use vstd::prelude::*;

use crate::error::{
    from_order_info_error_spec,
    DropsetError,
};
use crate::price::{
    order_info_spec,
    to_order_info,
    OrderInfoArgs,
};
use crate::processor::withdraw::{
    available,
    seat_at,
    with_available,
};
use crate::shared::order_operations::insert_order;
use crate::shared::seat_operations::{
    find_seat_with_hint,
    write_seat,
};
use crate::state::asks_dll::AskOrders;
use crate::state::bids_dll::BidOrders;
use crate::state::linked_list::{
    other_lists_unchanged,
    payloads_unchanged_except,
};
use crate::state::market::{
    ListKind,
    Market,
};
use crate::state::market_seat::{
    lemma_seat_round_trip,
    seat_user_of,
    MarketSeat,
};
use crate::state::order::{
    book_sorted,
    book_uncrossed,
    insert_pos,
    lemma_insert_pos,
    list_prices,
    may_post,
    opposite,
    Order,
    OrdersCollection,
};
use crate::state::sector::SectorIndex;
use crate::state::transmutable::Transmutable;
use crate::state::user_order_sectors::OrderSlot;
use crate::state::Pubkey;

use crate::events::DropsetEvent;

verus! {

/// The side of the book an order rests on.
pub open spec fn side_of(is_bid: bool) -> ListKind {
    if is_bid {
        ListKind::Bids
    } else {
        ListKind::Asks
    }
}

/// The collateral an order locks: quote atoms for a bid, base atoms for an ask.
pub open spec fn collateral(is_bid: bool, base_atoms: u64, quote_atoms: u64) -> u64 {
    if is_bid {
        quote_atoms
    } else {
        base_atoms
    }
}

/// The seat after it posts an order at `price` in sector `sector` on the bid side when `is_bid`
/// and else on the ask side: `amount` left available in the collateral's mint and the order
/// recorded in the seat's order map.
pub open spec fn posted_seat(
    s: MarketSeat,
    is_bid: bool,
    amount: u64,
    price: u32,
    sector: SectorIndex,
) -> MarketSeat {
    MarketSeat {
        user_order_sectors: s.user_order_sectors.with_slot(is_bid, OrderSlot { price, sector }),
        ..with_available(s, !is_bid, amount)
    }
}

/// What posting an order does to a market, given the priced order: the outcome and the market
/// after it. The errors found once the order is linked leave it linked with the seat untouched;
/// the runtime discards that market.
pub open spec fn post_outcome(
    m: Market,
    f: Market,
    r: Result<SectorIndex, DropsetError>,
    user: Seq<u8>,
    order: Order,
    is_bid: bool,
    hint: SectorIndex,
) -> bool {
    let kind = side_of(is_bid);
    let price = order.encoded_price;
    let x = m.free@[0];
    let pos = insert_pos(list_prices(m, kind), kind, price);
    let placed = if hint == x {
        order.encode_spec()
    } else {
        m.payload_at(hint)
    };
    let s = MarketSeat::decode_spec(placed);
    let need = collateral(is_bid, order.base_remaining, order.quote_remaining);
    let avail = available(s, !is_bid);
    // The order linked into its side, before the seat is touched.
    let linked = {
        &&& f.header.discriminant == m.header.discriminant
        &&& f.free@ == m.free@.drop_first()
        &&& f.list(kind) == m.list(kind).insert(pos, x)
        &&& other_lists_unchanged(m, f, kind)
        &&& f.payload_at(x) == order.encode_spec()
        &&& payloads_unchanged_except(m, f, x)
    };
    if !may_post(kind, price, list_prices(m, opposite(kind))) {
        r == Err::<SectorIndex, DropsetError>(DropsetError::PostOnlyWouldImmediatelyFill)
            && f.same_as(m)
    } else if m.free@.len() == 0 {
        r == Err::<SectorIndex, DropsetError>(DropsetError::NoFreeNodesLeft) && f.same_as(m)
    } else if hint >= m.sectors@.len() {
        r == Err::<SectorIndex, DropsetError>(DropsetError::IndexOutOfBounds) && linked
    } else if seat_user_of(placed) != user {
        r == Err::<SectorIndex, DropsetError>(DropsetError::InvalidIndexHint) && linked
    } else if need > avail {
        r == Err::<SectorIndex, DropsetError>(DropsetError::InsufficientUserBalance) && linked
    } else if s.user_order_sectors.slot(is_bid).holds(price) {
        r == Err::<SectorIndex, DropsetError>(DropsetError::OrderWithPriceAlreadyExists) && linked
    } else if !s.user_order_sectors.slot(is_bid).is_empty() {
        r == Err::<SectorIndex, DropsetError>(DropsetError::UserHasMaxOrders) && linked
    } else {
        &&& r == Ok::<SectorIndex, DropsetError>(x)
        &&& f.header.discriminant == m.header.discriminant
        &&& f.free@ == m.free@.drop_first()
        &&& f.list(kind) == m.list(kind).insert(pos, x)
        &&& other_lists_unchanged(m, f, kind)
        &&& f.sectors@.len() == m.sectors@.len()
        &&& f.payload_at(hint) == posted_seat(
            s,
            is_bid,
            (avail - need) as u64,
            price,
            x,
        ).encode_spec()
        &&& hint != x ==> f.payload_at(x) == order.encode_spec()
        &&& forall|i: int|
            0 <= i < m.sectors@.len() && i != x && i != hint ==> #[trigger] f.sectors@[i].payload
                == m.sectors@[i].payload
    }
}

/// Law: each of a seat's orders on a side of the book has its own price. A post at a price that
/// the seat's order map already holds on that side fails, and a successful post makes the map
/// send the order's price to the order's sector.
pub proof fn lemma_order_prices_unique(
    m: Market,
    f: Market,
    r: Result<SectorIndex, DropsetError>,
    user: Pubkey,
    order: Order,
    is_bid: bool,
)
    requires
        m.wf(),
        m.seats@.contains(order.user_seat),
        post_outcome(m, f, r, user@, order, is_bid, order.user_seat),
    ensures
        seat_at(m, order.user_seat).user_order_sectors.slot(is_bid).holds(order.encoded_price)
            ==> r is Err,
        r is Ok ==> seat_at(f, order.user_seat).user_order_sectors.slot(is_bid) == (OrderSlot {
            price: order.encoded_price,
            sector: r->Ok_0,
        }),
{
    let hint = order.user_seat;
    if m.free@.len() > 0 {
        let x = m.free@[0];
        assert(m.free@.contains(x));
        assert(hint != x);
        let s = seat_at(m, hint);
        let need = collateral(is_bid, order.base_remaining, order.quote_remaining);
        let avail = available(s, !is_bid);
        lemma_seat_round_trip(posted_seat(s, is_bid, (avail - need) as u64, order.encoded_price, x));
    }
}

/// Prices an order from `order_info_args`, checks that it would rest without crossing the
/// opposite side (post-only), links it into its side of the book, owned by the seat in sector
/// `user_sector_index_hint`, locks its collateral in that seat (quote for a bid, base for an ask)
/// and records the order's price and sector in the seat's order map. Returns the order's sector.
///
/// Fails with the pricing error when the order cannot be priced, with
/// `PostOnlyWouldImmediatelyFill` when it would cross, with `NoFreeNodesLeft` when no sector is
/// free, with `IndexOutOfBounds` when the hint is not a sector, with `InvalidIndexHint` when the
/// sector does not hold `user`'s seat, with `InsufficientUserBalance` when the seat cannot cover
/// the collateral, with `OrderWithPriceAlreadyExists` when the seat already has an order at that
/// price on that side and with `UserHasMaxOrders` when it has one at another price there. The
/// first three change nothing; the others leave the order linked and the seat untouched, a market
/// the runtime discards.
pub fn apply_post_order(
    market: &mut Market,
    user: &Pubkey,
    order_info_args: OrderInfoArgs,
    is_bid: bool,
    user_sector_index_hint: SectorIndex,
    events: &mut Vec<DropsetEvent>,
) -> (r: Result<SectorIndex, DropsetError>)
    requires
        old(market).wf(),
    ensures
        r is Err ==> final(events)@ == old(events)@,
        r matches Ok(x) ==> order_info_spec(order_info_args) matches Ok((_, base_atoms, quote_atoms))
            && final(events)@ == old(events)@.push(
            DropsetEvent::PostOrder {
                is_bid,
                user_seat_sector_index: user_sector_index_hint,
                order_sector_index: x,
                base_atoms,
                quote_atoms,
            },
        ),
        final(market).wf(),
        old(market).all_sectors_accounted() ==> final(market).all_sectors_accounted(),
        match order_info_spec(order_info_args) {
            Err(e) => r == Err::<SectorIndex, DropsetError>(from_order_info_error_spec(e))
                && final(market).same_as(*old(market)),
            Ok((price, base_atoms, quote_atoms)) => post_outcome(
                *old(market),
                *final(market),
                r,
                user@,
                Order {
                    encoded_price: price,
                    user_seat: user_sector_index_hint,
                    base_remaining: base_atoms,
                    quote_remaining: quote_atoms,
                },
                is_bid,
                user_sector_index_hint,
            ),
        },
        r is Ok && old(market).seats@.contains(user_sector_index_hint) && book_sorted(
            list_prices(*old(market), side_of(is_bid)),
            side_of(is_bid),
        ) ==> book_sorted(list_prices(*final(market), side_of(is_bid)), side_of(is_bid)),
        r is Ok && old(market).seats@.contains(user_sector_index_hint) && book_uncrossed(
            *old(market),
        ) ==> book_uncrossed(*final(market)),
{
    let ghost m0 = *market;
    let order_info = match to_order_info(order_info_args) {
        Ok(info) => info,
        Err(e) => return Err(DropsetError::from(e)),
    };
    let base_atoms = order_info.base_atoms;
    let quote_atoms = order_info.quote_atoms;
    let order = Order::new(order_info, user_sector_index_hint);
    let ghost kind = side_of(is_bid);
    let order_sector_index = if is_bid {
        BidOrders::post_only_crossing_check(&order, market)?;
        insert_order::<BidOrders>(market, order)?
    } else {
        AskOrders::post_only_crossing_check(&order, market)?;
        insert_order::<AskOrders>(market, order)?
    };
    let ghost m1 = *market;
    market.check_in_bounds(user_sector_index_hint)?;
    proof {
        crate::state::order::lemma_order_round_trip(order);
    }
    let mut seat = find_seat_with_hint(market, user_sector_index_hint, user)?;
    proof {
        crate::state::market_seat::lemma_seat_round_trip(seat);
    }
    if is_bid {
        seat.try_decrement_quote_available(quote_atoms)?;
    } else {
        seat.try_decrement_base_available(base_atoms)?;
    }
    // Each of the seat's orders on a side has its own price: record this one in the seat's map.
    seat.user_order_sectors.add(is_bid, order.encoded_price(), order_sector_index)?;
    write_seat(market, user_sector_index_hint, &seat);
    proof {
        let x = m0.free@[0];
        assert(order_sector_index == x);
        assert(market.list(kind) == m1.list(kind));
        if m0.seats@.contains(user_sector_index_hint) {
            let l = m1.list(kind);
            assert(m1.list_wf(kind)) by {
                if is_bid {} else {}
            }
            assert(!l.contains(user_sector_index_hint)) by {
                assert(m1.seats@ == m0.seats@);
                if is_bid {} else {}
            }
            let a = list_prices(*market, kind);
            let b = list_prices(m1, kind);
            assert forall|k: int| 0 <= k < a.len() implies a[k] == b[k] by {
                assert(l[k] != user_sector_index_hint);
                assert(l[k] < m1.sectors@.len());
                assert(market.sectors@[l[k] as int].payload == m1.sectors@[l[k] as int].payload);
            }
            assert(a =~= b);
            // The opposite side keeps its orders and their prices.
            let ok = opposite(kind);
            let lo = m0.list(ok);
            assert(m0.list_wf(ok)) by {
                if is_bid {} else {}
            }
            assert(market.list(ok) == lo);
            assert forall|k: int| 0 <= k < lo.len() implies #[trigger] list_prices(*market, ok)[k]
                == list_prices(m0, ok)[k] by {
                assert(lo.contains(lo[k]));
                assert(m0.free@.contains(x));
                if is_bid {
                    assert(m0.asks@.contains(lo[k]));
                } else {
                    assert(m0.bids@.contains(lo[k]));
                }
                assert(lo[k] != x && lo[k] != user_sector_index_hint);
                assert(market.sectors@[lo[k] as int].payload == m0.sectors@[lo[k] as int].payload);
            }
            assert(list_prices(*market, ok) =~= list_prices(m0, ok));
            // The new order is the best on its side only when it goes first, and then the
            // crossing check keeps it off the opposite side's best price.
            let pk = list_prices(m0, kind);
            let p = order.encoded_price;
            let pos = insert_pos(pk, kind, p);
            lemma_insert_pos(pk, kind, p);
            assert(a == pk.insert(pos, p));
            assert(may_post(kind, p, list_prices(m0, ok)));
            assert(a[0] == if pos == 0 {
                p
            } else {
                pk[0]
            });
        }
    }
    events.push(
        DropsetEvent::PostOrder {
            is_bid,
            user_seat_sector_index: user_sector_index_hint,
            order_sector_index,
            base_atoms,
            quote_atoms,
        },
    );
    Ok(order_sector_index)
}

} // verus!
