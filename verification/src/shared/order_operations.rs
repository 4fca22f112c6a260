//! Inserting orders into a side of the order book and reading them back.

use vstd::prelude::*;

use crate::error::DropsetError;
use crate::state::linked_list::{
    other_lists_unchanged,
    payloads_unchanged_except,
    same_identity,
};
use crate::state::market::{
    at_or_nil,
    ListKind,
    Market,
};
use crate::state::order::{
    book_sorted,
    insert_pos,
    lemma_insert_keeps_book_sorted,
    lemma_insert_pos,
    list_prices,
    order_price_of,
    Order,
    OrdersCollection,
};
use crate::state::sector::{
    SectorIndex,
    NIL,
};
use crate::state::transmutable::Transmutable;

verus! {

/// Linking a new sector into a list, with its payload written and every other payload kept,
/// inserts the new payload's price into the list's prices at the same position.
proof fn lemma_prices_after_insert(m1: Market, m2: Market, kind: ListKind, pos: int, x: SectorIndex)
    requires
        m1.wf(),
        m1.list_wf(kind),
        0 <= pos <= m1.list(kind).len(),
        !m1.list(kind).contains(x),
        m2.list(kind) == m1.list(kind).insert(pos, x),
        payloads_unchanged_except(m1, m2, x),
    ensures
        list_prices(m2, kind) == list_prices(m1, kind).insert(
            pos,
            order_price_of(m2.payload_at(x)),
        ),
{
    let l1 = m1.list(kind);
    let l2 = m2.list(kind);
    let a = list_prices(m2, kind);
    let b = list_prices(m1, kind).insert(pos, order_price_of(m2.payload_at(x)));
    assert forall|k: int| 0 <= k < a.len() implies a[k] == b[k] by {
        if k < pos {
            assert(l2[k] == l1[k]);
            assert(l1[k] != x);
            assert(l1[k] < m1.sectors@.len());
            assert(m2.sectors@[l1[k] as int].payload == m1.sectors@[l1[k] as int].payload);
        } else if k > pos {
            assert(l2[k] == l1[k - 1]);
            assert(l1[k - 1] != x);
            assert(l1[k - 1] < m1.sectors@.len());
            assert(m2.sectors@[l1[k - 1] as int].payload == m1.sectors@[l1[k - 1] as int].payload);
        }
    }
    assert(a =~= b);
}

/// Links `order` into its side of the book after every resting order that it does not go
/// before (price priority, then time priority), taking the sector from the free stack, and
/// returns the sector index. Fails with `NoFreeNodesLeft`, changing nothing, when no free sector
/// is left.
///
/// Only the book is changed: the owner's seat is neither checked nor updated.
pub fn insert_order<T: OrdersCollection>(market: &mut Market, order: Order) -> (r: Result<
    SectorIndex,
    DropsetError,
>)
    requires
        old(market).wf(),
    ensures
        final(market).wf(),
        old(market).all_sectors_accounted() ==> final(market).all_sectors_accounted(),
        same_identity(final(market).header, old(market).header),
        old(market).free@.len() == 0 ==> r == Err::<SectorIndex, DropsetError>(
            DropsetError::NoFreeNodesLeft,
        ) && final(market).same_as(*old(market)),
        old(market).free@.len() > 0 ==> {
            let kind = T::side();
            let pos = insert_pos(list_prices(*old(market), kind), kind, order.encoded_price);
            let x = old(market).free@[0];
            &&& r == Ok::<SectorIndex, DropsetError>(x)
            &&& final(market).free@ == old(market).free@.drop_first()
            &&& final(market).list(kind) == old(market).list(kind).insert(pos, x)
            &&& other_lists_unchanged(*old(market), *final(market), kind)
            &&& final(market).payload_at(x) == order.encode_spec()
            &&& payloads_unchanged_except(*old(market), *final(market), x)
            &&& list_prices(*final(market), kind) == list_prices(*old(market), kind).insert(
                pos,
                order.encoded_price,
            )
        },
        book_sorted(list_prices(*old(market), T::side()), T::side()) ==> book_sorted(
            list_prices(*final(market), T::side()),
            T::side(),
        ),
{
    let ghost m0 = *market;
    let kind = T::kind();
    let ghost l = m0.list(kind);
    let ghost prices = list_prices(m0, kind);
    let ghost pos = insert_pos(prices, kind, order.encoded_price);
    proof {
        assert(m0.list_wf(kind)) by {
            match kind {
                ListKind::Seats => {},
                ListKind::Bids => {},
                ListKind::Asks => {},
            }
        }
        lemma_insert_pos(prices, kind, order.encoded_price);
        if pos < l.len() {
            assert(l[pos] < m0.sectors@.len());
        }
        if l.len() > 0 {
            assert(l[0] < m0.sectors@.len());
        }
    }
    let next_index = T::find_new_order_next_index(market, &order);
    let order_bytes = order.as_bytes();
    let r = if next_index == market.head(kind) {
        proof {
            if l.len() > 0 && pos > 0 {
                if pos < l.len() {
                    assert(l[pos] == l[0]);
                }
                assert(false);
            }
            assert(pos == 0);
        }
        market.push_front(kind, &order_bytes)
    } else if next_index == NIL {
        proof {
            if pos < l.len() {
                assert(l[pos] < m0.sectors@.len());
            }
        }
        market.push_back(kind, &order_bytes)
    } else {
        proof {
            assert(pos < l.len());
            assert(l.contains(next_index)) by {
                assert(l[pos] == next_index);
            }
            assert(l.index_of(next_index) == pos) by {
                let i = l.index_of(next_index);
                assert(l[pos] == next_index);
                assert(0 <= i < l.len() && l[i] == next_index);
            }
        }
        market.insert_before(kind, next_index, &order_bytes)
    };
    proof {
        if m0.free@.len() == 0 {
            assert(market.same_as(m0));
        } else {
            let x = m0.free@[0];
            assert(!l.contains(x)) by {
                assert(m0.free@.contains(x));
                match kind {
                    ListKind::Seats => {},
                    ListKind::Bids => {},
                    ListKind::Asks => {},
                }
            }
            assert(seq![x] + l =~= l.insert(0, x));
            assert(l.push(x) =~= l.insert(l.len() as int, x));
            crate::state::order::lemma_order_round_trip(order);
            lemma_prices_after_insert(m0, *market, kind, pos, x);
            if book_sorted(prices, kind) {
                lemma_insert_keeps_book_sorted(prices, kind, order.encoded_price);
            }
        }
    }
    r
}

/// The order stored in sector `index` of a market.
pub fn load_order_from_sector_index(market: &Market, index: SectorIndex) -> (r: Order)
    requires
        index < market.sectors@.len(),
    ensures
        r == Order::decode_spec(market.payload_at(index)),
{
    let node = market.node(index);
    Order::from_payload(&node.payload)
}

} // verus!
