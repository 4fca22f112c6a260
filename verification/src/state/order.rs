//! A resting order, stored as the payload of a bid or ask node.

use vstd::prelude::*;

use crate::error::{
    DropsetError,
    DropsetResult,
};
use crate::le_bytes::{
    le_u32,
    le_u32_at,
    le_u64,
    le_u64_at,
    lemma_le_round_trip,
    push_u32,
    push_u64,
    push_zeros,
    read_array,
    read_u32,
    read_u64,
    zeros,
};
use crate::price::OrderInfo;
use crate::state::market::{
    at_or_nil,
    ListKind,
    Market,
};
use crate::state::node::NODE_PAYLOAD_SIZE;
use crate::state::sector::{
    SectorIndex,
    NIL,
};
use crate::state::transmutable::Transmutable;

verus! {

/// The encoded price of an order payload: its first four bytes, little-endian.
pub open spec fn order_price_of(payload: Seq<u8>) -> u32 {
    le_u32_at(payload, 0)
}

/// A resting order: its encoded price, the sector of its owner's seat and the amounts left to
/// fill.
///
/// Encoded little-endian in declaration order, followed by zero padding up to the payload size.
#[derive(Clone, Copy, Debug, PartialEq, Eq, Structural)]
pub struct Order {
    /// The encoded price.
    pub encoded_price: u32,
    /// The sector index of the seat of the user that posted the order.
    pub user_seat: SectorIndex,
    /// The base atoms left to fill.
    pub base_remaining: u64,
    /// The quote atoms left to fill.
    pub quote_remaining: u64,
}

impl Order {
    /// An order for the whole size of `order_info`, owned by the seat at `user_seat`.
    pub fn new(order_info: OrderInfo, user_seat: SectorIndex) -> (r: Order)
        ensures
            r == (Order {
                encoded_price: order_info.encoded_price.value(),
                user_seat,
                base_remaining: order_info.base_atoms,
                quote_remaining: order_info.quote_atoms,
            }),
    {
        Order {
            encoded_price: order_info.encoded_price.as_u32(),
            user_seat,
            base_remaining: order_info.base_atoms,
            quote_remaining: order_info.quote_atoms,
        }
    }

    pub fn encoded_price(&self) -> (r: u32)
        ensures
            r == self.encoded_price,
    {
        self.encoded_price
    }

    /// The encoded price as little-endian bytes.
    pub fn le_encoded_price(&self) -> (r: [u8; 4])
        ensures
            r@ == le_u32(self.encoded_price),
    {
        let mut v: Vec<u8> = Vec::new();
        push_u32(&mut v, self.encoded_price);
        proof {
            lemma_le_round_trip();
        }
        read_array(v.as_slice(), 0)
    }

    pub fn user_seat(&self) -> (r: SectorIndex)
        ensures
            r == self.user_seat,
    {
        self.user_seat
    }

    pub fn base_remaining(&self) -> (r: u64)
        ensures
            r == self.base_remaining,
    {
        self.base_remaining
    }

    pub fn quote_remaining(&self) -> (r: u64)
        ensures
            r == self.quote_remaining,
    {
        self.quote_remaining
    }

    /// Reads the order stored in a node payload.
    pub fn from_payload(payload: &[u8; NODE_PAYLOAD_SIZE]) -> (r: Order)
        ensures
            r == Order::decode_spec(payload@),
            r.encoded_price == order_price_of(payload@),
    {
        Order::load_unchecked(payload.as_slice())
    }

    /// The order as node payload bytes.
    pub fn as_bytes(&self) -> (r: [u8; NODE_PAYLOAD_SIZE])
        ensures
            r@ == self.encode_spec(),
            order_price_of(r@) == self.encoded_price,
    {
        let v = self.to_bytes();
        proof {
            lemma_order_round_trip(*self);
        }
        let r: [u8; NODE_PAYLOAD_SIZE] = read_array(v.as_slice(), 0);
        assert(v@.subrange(0, 64) =~= v@);
        r
    }
}

impl Transmutable for Order {
    open spec fn byte_len() -> nat {
        NODE_PAYLOAD_SIZE as nat
    }

    fn len() -> (r: usize) {
        NODE_PAYLOAD_SIZE
    }

    open spec fn valid_bit_pattern(bytes: Seq<u8>) -> bool {
        true
    }

    open spec fn decode_spec(bytes: Seq<u8>) -> Order {
        Order {
            encoded_price: le_u32_at(bytes, 0),
            user_seat: le_u32_at(bytes, 4),
            base_remaining: le_u64_at(bytes, 8),
            quote_remaining: le_u64_at(bytes, 16),
        }
    }

    open spec fn encode_spec(&self) -> Seq<u8> {
        le_u32(self.encoded_price) + le_u32(self.user_seat) + le_u64(self.base_remaining) + le_u64(
            self.quote_remaining,
        ) + zeros(40)
    }

    fn validate_bit_patterns(bytes: &[u8]) -> (r: DropsetResult) {
        // All bit patterns are valid: no enums, bools, or other types with invalid states.
        Ok(())
    }

    fn load_unchecked(bytes: &[u8]) -> (r: Order) {
        Order {
            encoded_price: read_u32(bytes, 0),
            user_seat: read_u32(bytes, 4),
            base_remaining: read_u64(bytes, 8),
            quote_remaining: read_u64(bytes, 16),
        }
    }

    fn to_bytes(&self) -> (r: Vec<u8>) {
        let mut out: Vec<u8> = Vec::new();
        push_u32(&mut out, self.encoded_price);
        push_u32(&mut out, self.user_seat);
        push_u64(&mut out, self.base_remaining);
        push_u64(&mut out, self.quote_remaining);
        push_zeros(&mut out, 40);
        proof {
            lemma_le_round_trip();
        }
        out
    }
}

/// Decoding the bytes of an order gives the order back.
pub proof fn lemma_order_round_trip(order: Order)
    ensures
        order.encode_spec().len() == NODE_PAYLOAD_SIZE,
        Order::decode_spec(order.encode_spec()) == order,
        order_price_of(order.encode_spec()) == order.encoded_price,
{
    lemma_le_round_trip();
    let b = order.encode_spec();
    assert(b.subrange(0, 4) =~= le_u32(order.encoded_price));
    assert(b.subrange(4, 8) =~= le_u32(order.user_seat));
    assert(b.subrange(8, 16) =~= le_u64(order.base_remaining));
    assert(b.subrange(16, 24) =~= le_u64(order.quote_remaining));
}

/// The encoded prices of the orders of a list, head first.
pub open spec fn list_prices(m: Market, kind: ListKind) -> Seq<u32> {
    m.list(kind).map_values(|i: SectorIndex| order_price_of(m.sectors@[i as int].payload@))
}

/// Whether a new order at price `p` goes before a resting order at price `e` on side `kind`:
/// asks rest lowest price first and bids highest price first, and an order never goes before
/// one at its own price (time priority).
pub open spec fn goes_before(kind: ListKind, p: u32, e: u32) -> bool {
    match kind {
        ListKind::Asks => p < e,
        ListKind::Bids => p > e,
        ListKind::Seats => false,
    }
}

/// The position at which an order at price `p` joins the resting prices of side `kind`: before
/// the first one that it goes before, or at the end.
pub open spec fn insert_pos(prices: Seq<u32>, kind: ListKind, p: u32) -> int
    decreases prices.len(),
{
    if prices.len() == 0 {
        0
    } else if goes_before(kind, p, prices[0]) {
        0
    } else {
        1 + insert_pos(prices.drop_first(), kind, p)
    }
}

/// `pos` is a position that no earlier price is passed over at, and at which the price there
/// (if any) is one the new order goes before.
pub open spec fn is_insert_pos(prices: Seq<u32>, kind: ListKind, p: u32, pos: int) -> bool {
    &&& 0 <= pos <= prices.len()
    &&& forall|k: int| 0 <= k < pos ==> !goes_before(kind, p, #[trigger] prices[k])
    &&& pos < prices.len() ==> goes_before(kind, p, prices[pos])
}

/// Resting prices are in book order: no price goes before an earlier one.
pub open spec fn book_sorted(prices: Seq<u32>, kind: ListKind) -> bool {
    forall|i: int, j: int|
        0 <= i < j < prices.len() ==> !goes_before(kind, #[trigger] prices[j], #[trigger] prices[i])
}

/// Whether an order at price `p` on side `kind` may rest without crossing the best price of the
/// opposite side, whose resting prices are `opposite`: an ask must be above the best bid and a bid
/// below the best ask; an empty opposite side never crosses.
pub open spec fn may_post(kind: ListKind, p: u32, opposite: Seq<u32>) -> bool {
    opposite.len() == 0 || match kind {
        ListKind::Asks => p > opposite[0],
        ListKind::Bids => p < opposite[0],
        ListKind::Seats => true,
    }
}

/// Whether the book is not crossed: the best bid is below the best ask, when both sides rest
/// orders.
pub open spec fn book_uncrossed(m: Market) -> bool {
    let bids = list_prices(m, ListKind::Bids);
    let asks = list_prices(m, ListKind::Asks);
    bids.len() == 0 || asks.len() == 0 || bids[0] < asks[0]
}

/// Whether both sides of the book rest the same prices in `a` and `b`.
pub open spec fn book_prices_unchanged(a: Market, b: Market) -> bool {
    &&& list_prices(b, ListKind::Bids) == list_prices(a, ListKind::Bids)
    &&& list_prices(b, ListKind::Asks) == list_prices(a, ListKind::Asks)
}

/// Both sides of the book keep their prices when their lists are unchanged and only a sector off
/// them changes its payload.
pub proof fn lemma_book_prices_kept(a: Market, b: Market, changed: SectorIndex)
    requires
        a.wf(),
        b.bids@ == a.bids@,
        b.asks@ == a.asks@,
        !a.bids@.contains(changed),
        !a.asks@.contains(changed),
        forall|i: int|
            0 <= i < a.sectors@.len() && i != changed ==> #[trigger] b.sectors@[i].payload
                == a.sectors@[i].payload,
    ensures
        book_prices_unchanged(a, b),
{
    assert(a.list_wf(ListKind::Bids));
    assert(a.list_wf(ListKind::Asks));
    let lb = a.bids@;
    let la = a.asks@;
    assert forall|k: int| 0 <= k < lb.len() implies #[trigger] list_prices(b, ListKind::Bids)[k]
        == list_prices(a, ListKind::Bids)[k] by {
        assert(lb.contains(lb[k]));
        assert(b.sectors@[lb[k] as int].payload == a.sectors@[lb[k] as int].payload);
    }
    assert forall|k: int| 0 <= k < la.len() implies #[trigger] list_prices(b, ListKind::Asks)[k]
        == list_prices(a, ListKind::Asks)[k] by {
        assert(la.contains(la[k]));
        assert(b.sectors@[la[k] as int].payload == a.sectors@[la[k] as int].payload);
    }
    assert(list_prices(b, ListKind::Bids) =~= list_prices(a, ListKind::Bids));
    assert(list_prices(b, ListKind::Asks) =~= list_prices(a, ListKind::Asks));
}

/// The side opposite to `kind`.
pub open spec fn opposite(kind: ListKind) -> ListKind {
    match kind {
        ListKind::Asks => ListKind::Bids,
        ListKind::Bids => ListKind::Asks,
        ListKind::Seats => ListKind::Seats,
    }
}

/// [`insert_pos`] is the one position with the property [`is_insert_pos`].
pub proof fn lemma_insert_pos(prices: Seq<u32>, kind: ListKind, p: u32)
    ensures
        is_insert_pos(prices, kind, p, insert_pos(prices, kind, p)),
        forall|pos: int| is_insert_pos(prices, kind, p, pos) ==> pos == insert_pos(prices, kind, p),
    decreases prices.len(),
{
    if prices.len() > 0 {
        let t = prices.drop_first();
        lemma_insert_pos(t, kind, p);
        if !goes_before(kind, p, prices[0]) {
            let q = insert_pos(t, kind, p);
            assert forall|k: int| 0 <= k < q + 1 implies !goes_before(kind, p, #[trigger] prices[k]) by {
                if k > 0 {
                    assert(prices[k] == t[k - 1]);
                }
            }
            assert forall|pos: int| is_insert_pos(prices, kind, p, pos) implies pos == q + 1 by {
                assert(pos != 0);
                assert(is_insert_pos(t, kind, p, pos - 1)) by {
                    assert forall|k: int| 0 <= k < pos - 1 implies !goes_before(kind, p, #[trigger] t[k]) by {
                        assert(t[k] == prices[k + 1]);
                    }
                    if pos - 1 < t.len() {
                        assert(t[pos - 1] == prices[pos]);
                    }
                }
            }
            if q + 1 < prices.len() {
                assert(prices[q + 1] == t[q]);
            }
        }
    }
}

/// Law: an order joins its side of the book in book order. Inserting price `p` at
/// [`insert_pos`] into sorted resting prices leaves them sorted.
pub proof fn lemma_insert_keeps_book_sorted(prices: Seq<u32>, kind: ListKind, p: u32)
    requires
        book_sorted(prices, kind),
    ensures
        book_sorted(prices.insert(insert_pos(prices, kind, p), p), kind),
{
    lemma_insert_pos(prices, kind, p);
    let pos = insert_pos(prices, kind, p);
    let t = prices.insert(pos, p);
    assert forall|i: int, j: int| 0 <= i < j < t.len() implies !goes_before(
        kind,
        #[trigger] t[j],
        #[trigger] t[i],
    ) by {
        if j < pos {
            assert(t[i] == prices[i] && t[j] == prices[j]);
        } else if j == pos {
            assert(t[i] == prices[i]);
        } else if i > pos {
            assert(t[i] == prices[i - 1] && t[j] == prices[j - 1]);
        } else if i == pos {
            assert(t[j] == prices[j - 1]);
            assert(!goes_before(kind, prices[j - 1], prices[pos]) || j - 1 == pos);
        } else {
            assert(t[i] == prices[i] && t[j] == prices[j - 1]);
        }
    }
}

/// Removing an order from sorted resting prices leaves them sorted.
pub proof fn lemma_remove_keeps_book_sorted(prices: Seq<u32>, kind: ListKind, pos: int)
    requires
        book_sorted(prices, kind),
        0 <= pos < prices.len(),
    ensures
        book_sorted(prices.remove(pos), kind),
{
    let t = prices.remove(pos);
    assert forall|i: int, j: int| 0 <= i < j < t.len() implies !goes_before(
        kind,
        #[trigger] t[j],
        #[trigger] t[i],
    ) by {
        let si = if i < pos { i } else { i + 1 };
        let sj = if j < pos { j } else { j + 1 };
        assert(t[i] == prices[si] && t[j] == prices[sj]);
    }
}

/// Law (time priority): on a sorted side, a new order goes after every resting order at its own
/// price.
pub proof fn lemma_time_priority(prices: Seq<u32>, kind: ListKind, p: u32, k: int)
    requires
        book_sorted(prices, kind),
        0 <= k < prices.len(),
        prices[k] == p,
    ensures
        k < insert_pos(prices, kind, p),
{
    lemma_insert_pos(prices, kind, p);
    let pos = insert_pos(prices, kind, p);
    if k >= pos {
        assert(pos < prices.len());
        assert(goes_before(kind, p, prices[pos]));
        if k > pos {
            assert(!goes_before(kind, prices[k], prices[pos]));
        }
    }
}

/// The encoded price of the order stored in sector `index` of a market.
pub fn order_price_at(market: &Market, index: SectorIndex) -> (r: u32)
    requires
        index < market.sectors@.len(),
    ensures
        r == order_price_of(market.payload_at(index)),
{
    let node = market.node(index);
    Order::from_payload(&node.payload).encoded_price()
}

/// Whether a new order at price `p` goes before a resting order at price `e` on side `kind`.
pub fn order_goes_before(kind: ListKind, p: u32, e: u32) -> (r: bool)
    ensures
        r == goes_before(kind, p, e),
{
    match kind {
        ListKind::Asks => p < e,
        ListKind::Bids => p > e,
        ListKind::Seats => false,
    }
}

/// The sector of the first resting order of side `kind` that a new order at price `p` goes
/// before, or [`NIL`] when it goes after all of them.
pub fn find_order_next_index(market: &Market, kind: ListKind, p: u32) -> (r: SectorIndex)
    requires
        market.wf(),
    ensures
        r == at_or_nil(market.list(kind), insert_pos(list_prices(*market, kind), kind, p)),
{
    let ghost l = market.list(kind);
    let ghost prices = list_prices(*market, kind);
    proof {
        assert(market.list_wf(kind)) by {
            match kind {
                ListKind::Seats => {},
                ListKind::Bids => {},
                ListKind::Asks => {},
            }
        }
        lemma_insert_pos(prices, kind, p);
    }
    let mut curr = market.head(kind);
    let ghost mut k: int = 0;
    while curr != NIL
        invariant
            market.wf(),
            market.list_wf(kind),
            l == market.list(kind),
            prices == list_prices(*market, kind),
            0 <= k <= l.len(),
            curr == at_or_nil(l, k),
            forall|j: int| 0 <= j < k ==> !goes_before(kind, p, #[trigger] prices[j]),
            forall|pos: int| is_insert_pos(prices, kind, p, pos) ==> pos == insert_pos(prices, kind, p),
        decreases l.len() - k,
    {
        proof {
            if k == l.len() {
                assert(false);
            }
            assert(l[k] < market.sectors@.len());
        }
        let e = order_price_at(market, curr);
        assert(e == prices[k]);
        if order_goes_before(kind, p, e) {
            assert(is_insert_pos(prices, kind, p, k));
            return curr;
        }
        let next = market.node(curr).next;
        assert(next == at_or_nil(l, k + 1));
        curr = next;
        proof {
            k = k + 1;
        }
    }
    proof {
        if k < l.len() {
            assert(l[k] < market.sectors@.len());
        }
        assert(is_insert_pos(prices, kind, p, k));
    }
    NIL
}

/// The two sides of the order book, as lists of resting orders.
pub trait OrdersCollection {
    /// The list this side's orders rest in.
    spec fn side() -> ListKind;

    /// The list this side's orders rest in.
    fn kind() -> (r: ListKind)
        ensures
            r == Self::side(),
    ;

    /// The sector before which a new order is linked to keep the side in book order (price
    /// priority, then time priority), or [`NIL`] when it goes at the end.
    fn find_new_order_next_index(market: &Market, new_order: &Order) -> (r: SectorIndex)
        requires
            market.wf(),
        ensures
            r == at_or_nil(
                market.list(Self::side()),
                insert_pos(list_prices(*market, Self::side()), Self::side(), new_order.encoded_price),
            ),
    ;

    /// Checks that a post-only order would rest instead of immediately filling against the best
    /// price of the opposite side.
    fn post_only_crossing_check(order: &Order, market: &Market) -> (r: DropsetResult)
        requires
            market.wf(),
        ensures
            r == if may_post(
                Self::side(),
                order.encoded_price,
                list_prices(*market, opposite(Self::side())),
            ) {
                Ok::<(), DropsetError>(())
            } else {
                Err(DropsetError::PostOnlyWouldImmediatelyFill)
            },
    ;
}

/// Checks that an order at price `p` on side `kind` would not cross the opposite side.
pub fn crossing_check(market: &Market, kind: ListKind, p: u32) -> (r: DropsetResult)
    requires
        market.wf(),
    ensures
        r == if may_post(kind, p, list_prices(*market, opposite(kind))) {
            Ok::<(), DropsetError>(())
        } else {
            Err(DropsetError::PostOnlyWouldImmediatelyFill)
        },
{
    let other = match kind {
        ListKind::Asks => ListKind::Bids,
        ListKind::Bids => ListKind::Asks,
        ListKind::Seats => ListKind::Seats,
    };
    let ghost l = market.list(other);
    proof {
        assert(market.list_wf(other)) by {
            match other {
                ListKind::Seats => {},
                ListKind::Bids => {},
                ListKind::Asks => {},
            }
        }
    }
    let top = market.head(other);
    if top == NIL {
        proof {
            if l.len() > 0 {
                assert(l[0] < market.sectors@.len());
            }
        }
        return Ok(());
    }
    let best = order_price_at(market, top);
    let ok = match kind {
        ListKind::Asks => p > best,
        ListKind::Bids => p < best,
        ListKind::Seats => true,
    };
    if ok {
        Ok(())
    } else {
        Err(DropsetError::PostOnlyWouldImmediatelyFill)
    }
}

impl crate::state::node::NodePayload for Order {}

impl crate::state::node::AllBitPatternsValid for Order {}

} // verus!
