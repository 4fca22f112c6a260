//! The market-state part of cancelling an order: finding the user's order at a price, releasing
//! its remaining collateral to the owner's seat and unlinking it from the book.

use vstd::prelude::*;

use crate::error::{
    DropsetError,
    DropsetResult,
};
use crate::processor::post_order::{
    collateral,
    post_outcome,
    posted_seat,
    side_of,
};
use crate::processor::withdraw::{
    available,
    hint_names_seat_of,
    seat_at,
    with_available,
};
use crate::shared::order_operations::load_order_from_sector_index;
use crate::shared::seat_operations::{
    find_seat_with_hint,
    write_seat,
};
use crate::state::linked_list::other_lists_unchanged;
use crate::state::market::{
    at_or_nil,
    ListKind,
    Market,
};
use crate::state::market_seat::{
    lemma_seat_bytes_round_trip,
    lemma_seat_round_trip,
};
use crate::state::node::NODE_PAYLOAD_SIZE;
use crate::state::order::{
    book_sorted,
    book_uncrossed,
    insert_pos,
    lemma_insert_pos,
    lemma_remove_keeps_book_sorted,
    lemma_order_round_trip,
    list_prices,
    opposite,
    Order,
};
use crate::state::sector::{
    SectorIndex,
    NIL,
};
use crate::state::market_seat::MarketSeat;
use crate::state::transmutable::Transmutable;
use crate::state::user_order_sectors::OrderSlot;
use crate::state::Pubkey;

use crate::events::DropsetEvent;

verus! {

/// The seat after it cancels its order on the bid side when `is_bid` and else on the ask side:
/// `amount` available in the collateral's mint and the order gone from the seat's order map.
pub open spec fn cancelled_seat(s: MarketSeat, is_bid: bool, amount: u64) -> MarketSeat {
    MarketSeat {
        user_order_sectors: s.user_order_sectors.with_slot(is_bid, OrderSlot::empty_spec()),
        ..with_available(s, !is_bid, amount)
    }
}

/// What cancelling the order of `user`'s seat in sector `hint` at price `price` does to a market:
/// the outcome and the market after it. The seat's order map names the order's sector.
pub open spec fn cancel_outcome(
    m: Market,
    f: Market,
    r: DropsetResult,
    user: Seq<u8>,
    price: u32,
    is_bid: bool,
    hint: SectorIndex,
) -> bool {
    let kind = side_of(is_bid);
    let l = m.list(kind);
    let s = seat_at(m, hint);
    let slot = s.user_order_sectors.slot(is_bid);
    let x = slot.sector;
    let pos = l.index_of(x);
    let o = Order::decode_spec(m.payload_at(x));
    let released = if is_bid {
        o.quote_remaining
    } else {
        o.base_remaining
    };
    let sum = available(s, !is_bid) + released;
    if hint >= m.sectors@.len() {
        r == Err::<(), DropsetError>(DropsetError::IndexOutOfBounds) && f.same_as(m)
    } else if !hint_names_seat_of(m, hint, user) {
        r == Err::<(), DropsetError>(DropsetError::InvalidIndexHint) && f.same_as(m)
    } else if !slot.holds(price) || !l.contains(x) {
        r == Err::<(), DropsetError>(DropsetError::OrderNotFound) && f.same_as(m)
    } else if sum > u64::MAX {
        r == Err::<(), DropsetError>(DropsetError::ArithmeticOverflow) && f.same_as(m)
    } else {
        &&& r is Ok
        &&& f.list(kind) == l.remove(pos)
        &&& other_lists_unchanged(m, f, kind)
        &&& f.free@ == seq![x] + m.free@
        &&& f.sectors@.len() == m.sectors@.len()
        &&& f.payload_at(x) == Seq::new(NODE_PAYLOAD_SIZE as nat, |i: int| 0u8)
        &&& hint != x ==> f.payload_at(hint) == cancelled_seat(s, is_bid, sum as u64).encode_spec()
        &&& forall|i: int|
            0 <= i < m.sectors@.len() && i != hint && i != x ==> #[trigger] f.sectors@[i].payload
                == m.sectors@[i].payload
    }
}

/// Law: cancelling an order right after posting it, with the same seat, price and side, gives
/// back the four lists, the free stack, the seat (its amounts and its order map) and every other
/// sector but the order's. A priced order's encoded price is never zero. The seat's sector is not
/// the one the order takes (the top of the free stack): a post naming that sector overwrites the
/// order it just linked with the seat.
pub proof fn lemma_cancel_undoes_post(
    m0: Market,
    m1: Market,
    m2: Market,
    user: Pubkey,
    order: Order,
    is_bid: bool,
    r1: Result<SectorIndex, DropsetError>,
    r2: DropsetResult,
)
    requires
        m0.wf(),
        order.user_seat != m0.free@[0],
        order.encoded_price != 0,
        post_outcome(m0, m1, r1, user@, order, is_bid, order.user_seat),
        r1 is Ok,
        cancel_outcome(m1, m2, r2, user@, order.encoded_price, is_bid, order.user_seat),
    ensures
        r2 is Ok,
        forall|k: ListKind| #[trigger] m2.list(k) == m0.list(k),
        m2.free@ == m0.free@,
        m2.sectors@.len() == m0.sectors@.len(),
        m2.payload_at(order.user_seat) == m0.payload_at(order.user_seat),
        forall|i: int|
            0 <= i < m0.sectors@.len() && i != m0.free@[0] ==> #[trigger] m2.sectors@[i].payload
                == m0.sectors@[i].payload,
{
    let kind = side_of(is_bid);
    let hint = order.user_seat;
    let price = order.encoded_price;
    let l0 = m0.list(kind);
    let x = m0.free@[0];
    let pos = insert_pos(list_prices(m0, kind), kind, price);
    let s0 = seat_at(m0, hint);
    let need = collateral(is_bid, order.base_remaining, order.quote_remaining);
    let avail = available(s0, !is_bid);
    assert(m0.free@.len() > 0);
    assert(m0.free@.contains(x));
    assert(hint != x);
    assert(m0.list_wf(kind)) by {
        if is_bid {} else {}
    }
    lemma_insert_pos(list_prices(m0, kind), kind, price);
    let l1 = m1.list(kind);
    assert(l1 == l0.insert(pos, x));
    // The seat's order map, empty on that side before the post, now names the order's sector.
    assert(s0.user_order_sectors.slot(is_bid).is_empty());
    let s1 = posted_seat(s0, is_bid, (avail - need) as u64, price, x);
    lemma_seat_round_trip(s1);
    assert(seat_at(m1, hint) == s1);
    assert(s1.user_order_sectors.slot(is_bid) == OrderSlot { price, sector: x });
    assert(l1[pos] == x);
    assert(l1.contains(x));
    assert(!l0.contains(x)) by {
        if is_bid {
            assert(!m0.bids@.contains(x));
        } else {
            assert(!m0.asks@.contains(x));
        }
    }
    assert(l1.index_of(x) == pos) by {
        let i = l1.index_of(x);
        assert(0 <= i < l1.len() && l1[i] == x);
        if i < pos {
            assert(l1[i] == l0[i]);
        } else if i > pos {
            assert(l1[i] == l0[i - 1]);
        }
    }
    // The order there holds the collateral the post locked.
    lemma_order_round_trip(order);
    crate::le_bytes::lemma_array_from_seq_view::<32>(m0.payload_at(hint).subrange(0, 32));
    assert(hint_names_seat_of(m1, hint, user@));
    assert(cancelled_seat(s1, is_bid, avail) == s0) by {
        if is_bid {
            assert(s0.user_order_sectors.with_slot(is_bid, OrderSlot { price, sector: x }).with_slot(
                is_bid,
                OrderSlot::empty_spec(),
            ) == s0.user_order_sectors);
        } else {
            assert(s0.user_order_sectors.with_slot(is_bid, OrderSlot { price, sector: x }).with_slot(
                is_bid,
                OrderSlot::empty_spec(),
            ) == s0.user_order_sectors);
        }
    }
    lemma_seat_bytes_round_trip(m0.payload_at(hint));
    assert(m2.list(kind) =~= l0);
    assert(m2.free@ =~= m0.free@);
    assert forall|k: ListKind| #[trigger] m2.list(k) == m0.list(k) by {
        if k != kind {
            assert(m1.list(k) == m0.list(k));
        }
    }
    assert(m2.sectors@[hint as int].payload@ == m0.sectors@[hint as int].payload@);
    assert forall|i: int|
        0 <= i < m0.sectors@.len() && i != m0.free@[0] implies #[trigger] m2.sectors@[i].payload
        == m0.sectors@[i].payload by {
        if i == hint {
            assert(m2.sectors@[i].payload@ =~= m0.sectors@[i].payload@);
        }
    }
}

/// Cancels `user`'s order at `encoded_price` on the bid side when `is_bid` and else on the ask
/// side: the order's remaining collateral (quote for a bid, base for an ask) goes back to the
/// seat in sector `user_sector_index_hint` and the order is unlinked, its sector going back onto
/// the free stack.
///
/// The seat's order map names the order's sector, and the order leaves the map.
///
/// Fails with `IndexOutOfBounds` when the hint is not a sector, with `InvalidIndexHint` when the
/// sector does not hold `user`'s seat, with `OrderNotFound` when the seat's map holds no order at
/// that price on that side (or names a sector that is not on that side), and with
/// `ArithmeticOverflow` when the released amount does not fit; in each case nothing changes.
pub fn apply_cancel_order(
    market: &mut Market,
    user: &Pubkey,
    encoded_price: u32,
    is_bid: bool,
    user_sector_index_hint: SectorIndex,
    events: &mut Vec<DropsetEvent>,
) -> (r: DropsetResult)
    requires
        old(market).wf(),
    ensures
        r is Ok ==> final(events)@ == old(events)@.push(
            DropsetEvent::CancelOrder { is_bid, user_seat_sector_index: user_sector_index_hint },
        ),
        r is Err ==> final(events)@ == old(events)@,
        final(market).wf(),
        old(market).all_sectors_accounted() ==> final(market).all_sectors_accounted(),
        cancel_outcome(
            *old(market),
            *final(market),
            r,
            user@,
            encoded_price,
            is_bid,
            user_sector_index_hint,
        ),
        r is Ok && old(market).seats@.contains(user_sector_index_hint) && book_sorted(
            list_prices(*old(market), side_of(is_bid)),
            side_of(is_bid),
        ) ==> book_sorted(list_prices(*final(market), side_of(is_bid)), side_of(is_bid)),
        r is Ok && old(market).seats@.contains(user_sector_index_hint) && book_sorted(
            list_prices(*old(market), side_of(is_bid)),
            side_of(is_bid),
        ) && book_uncrossed(*old(market)) ==> book_uncrossed(*final(market)),
{
    let ghost m0 = *market;
    market.check_in_bounds(user_sector_index_hint)?;
    let mut seat = find_seat_with_hint(market, user_sector_index_hint, user)?;
    proof {
        crate::state::market_seat::lemma_seat_round_trip(seat);
    }
    let kind = if is_bid {
        ListKind::Bids
    } else {
        ListKind::Asks
    };
    // The seat's order map names the order's sector.
    let order_sector_index = seat.user_order_sectors.remove(is_bid, encoded_price)?;
    let ghost l = m0.list(kind);
    let ghost pos = l.index_of(order_sector_index);
    proof {
        assert(m0.list_wf(kind)) by {
            if is_bid {} else {}
        }
    }
    if !market.list_contains(kind, order_sector_index) {
        return Err(DropsetError::OrderNotFound);
    }
    proof {
        assert(0 <= pos < l.len() && l[pos] == order_sector_index);
        assert(l[pos] < m0.sectors@.len());
    }
    let order = load_order_from_sector_index(market, order_sector_index);
    if is_bid {
        seat.try_increment_quote_available(order.quote_remaining())?;
    } else {
        seat.try_increment_base_available(order.base_remaining())?;
    }
    write_seat(market, user_sector_index_hint, &seat);
    let ghost m1 = *market;
    proof {
        assert(m1.list(kind) == l);
    }
    market.remove_at(kind, order_sector_index);
    proof {
        if m0.seats@.contains(user_sector_index_hint) && book_sorted(list_prices(m0, kind), kind) {
            let p0 = list_prices(m0, kind);
            lemma_remove_keeps_book_sorted(p0, kind, pos);
            assert(m0.seats@.contains(user_sector_index_hint));
            assert forall|j: int| 0 <= j < l.len() && j != pos implies #[trigger] l[j]
                != user_sector_index_hint && l[j] != l[pos] by {
                assert(l.contains(l[j]));
                if is_bid {
                    assert(m0.bids@.contains(l[j]));
                } else {
                    assert(m0.asks@.contains(l[j]));
                }
            }
            assert(list_prices(*market, kind) =~= p0.remove(pos)) by {
                let f = market.list(kind);
                assert forall|k: int| 0 <= k < f.len() implies #[trigger] list_prices(*market, kind)[k]
                    == p0.remove(pos)[k] by {
                    let sk = if k < pos { k } else { k + 1 };
                    assert(f[k] == l[sk]);
                    assert(l[sk] < m0.sectors@.len());
                    assert(market.sectors@[l[sk] as int].payload == m0.sectors@[l[sk] as int].payload);
                }
            }
            // The opposite side keeps its orders and their prices.
            let ok = opposite(kind);
            let lo = m0.list(ok);
            assert(m0.list_wf(ok)) by {
                if is_bid {} else {}
            }
            assert(market.list(ok) == lo);
            assert forall|k: int| 0 <= k < lo.len() implies #[trigger] list_prices(*market, ok)[k]
                == list_prices(m0, ok)[k] by {
                assert(lo.contains(lo[k]));
                assert(l.contains(l[pos]));
                if is_bid {
                    assert(m0.asks@.contains(lo[k]));
                    assert(m0.bids@.contains(l[pos]));
                } else {
                    assert(m0.bids@.contains(lo[k]));
                    assert(m0.asks@.contains(l[pos]));
                }
                assert(lo[k] != l[pos] && lo[k] != user_sector_index_hint);
                assert(market.sectors@[lo[k] as int].payload == m0.sectors@[lo[k] as int].payload);
            }
            assert(list_prices(*market, ok) =~= list_prices(m0, ok));
            if p0.len() > 1 {
                assert(!crate::state::order::goes_before(kind, p0[1], p0[0]));
            }
        }
        assert forall|k: ListKind| k != kind implies #[trigger] market.list(k) == m0.list(k) by {
            assert(m1.list(k) == m0.list(k));
        }
    }
    events.push(
        DropsetEvent::CancelOrder { is_bid, user_seat_sector_index: user_sector_index_hint },
    );
    Ok(())
}

} // verus!
