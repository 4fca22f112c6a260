//! Read-only views of a market account's data: its header and the nodes of its three lists, in
//! list order.

use vstd::prelude::*;

use crate::pubkey::pubkey_eq;
use crate::state::market::{
    decodes_from,
    head_of,
    walk,
    ListKind,
    Market,
};
use crate::state::market_header::{
    MarketHeader,
    MARKET_HEADER_SIZE,
};
use crate::state::market_seat::MarketSeat;
use crate::state::node::Node;
use crate::state::user_order_sectors::UserOrderSectors;
use crate::state::order::Order;
use crate::state::sector::SectorIndex;
use crate::state::transmutable::Transmutable;
use crate::state::Pubkey;

verus! {

/// The header of a market, field by field.
#[derive(Clone, Copy, Debug, PartialEq, Eq)]
pub struct MarketHeaderView {
    pub discriminant: u64,
    pub num_seats: u32,
    pub num_bids: u32,
    pub num_asks: u32,
    pub num_free_sectors: u32,
    pub free_stack_top: SectorIndex,
    pub seats_dll_head: SectorIndex,
    pub seats_dll_tail: SectorIndex,
    pub bids_dll_head: SectorIndex,
    pub bids_dll_tail: SectorIndex,
    pub asks_dll_head: SectorIndex,
    pub asks_dll_tail: SectorIndex,
    pub base_mint: Pubkey,
    pub quote_mint: Pubkey,
    pub market_bump: u8,
    /// The market's total number of events.
    pub nonce: u64,
    pub _padding: [u8; 3],
}

/// A seat node: its links, its sector and the seat it holds.
#[derive(Clone, Copy, Debug, PartialEq, Eq)]
pub struct MarketSeatView {
    pub prev_index: SectorIndex,
    pub index: SectorIndex,
    pub next_index: SectorIndex,
    pub user: Pubkey,
    pub base_available: u64,
    pub quote_available: u64,
    pub user_order_sectors: UserOrderSectors,
}

/// An order node: its links, its sector and the order it holds.
#[derive(Clone, Copy, Debug, PartialEq, Eq, Structural)]
pub struct OrderView {
    pub prev_index: SectorIndex,
    pub index: SectorIndex,
    pub next_index: SectorIndex,
    pub encoded_price: u32,
    pub user_seat: SectorIndex,
    pub base_remaining: u64,
    pub quote_remaining: u64,
}

/// A market's header and the nodes of one kind, decoded as `T`.
#[derive(Debug)]
pub struct MarketView<T> {
    pub header: MarketHeaderView,
    pub sectors: Vec<T>,
}

/// A market's header and the nodes of its three lists, each in list order.
#[derive(Debug)]
pub struct MarketViewAll {
    pub header: MarketHeaderView,
    pub seats: Vec<MarketSeatView>,
    pub bids: Vec<OrderView>,
    pub asks: Vec<OrderView>,
}

/// Why account data is not shown as a market.
#[derive(Clone, Copy, Debug, PartialEq, Eq, Structural)]
pub enum ViewError {
    /// The account is not owned by the market program.
    NotOwnedByProgram,
    /// The account data is shorter than a market header.
    Uninitialized,
}

/// The description of each view error.
pub open spec fn view_error_message_spec(e: ViewError) -> Seq<char> {
    match e {
        ViewError::NotOwnedByProgram => "Account isn't owned by dropset program"@,
        ViewError::Uninitialized => "Account is uninitialized"@,
    }
}

impl ViewError {
    /// A description of the error.
    pub fn message(&self) -> (r: &'static str)
        ensures
            r@ == view_error_message_spec(*self),
    {
        match self {
            ViewError::NotOwnedByProgram => "Account isn't owned by dropset program",
            ViewError::Uninitialized => "Account is uninitialized",
        }
    }
}

impl MarketHeaderView {
    pub open spec fn from_header_spec(h: MarketHeader) -> MarketHeaderView {
        MarketHeaderView {
            discriminant: h.discriminant,
            num_seats: h.num_seats,
            num_bids: h.num_bids,
            num_asks: h.num_asks,
            num_free_sectors: h.num_free_sectors,
            free_stack_top: h.free_stack_top,
            seats_dll_head: h.seats_dll_head,
            seats_dll_tail: h.seats_dll_tail,
            bids_dll_head: h.bids_dll_head,
            bids_dll_tail: h.bids_dll_tail,
            asks_dll_head: h.asks_dll_head,
            asks_dll_tail: h.asks_dll_tail,
            base_mint: h.base_mint,
            quote_mint: h.quote_mint,
            market_bump: h.market_bump,
            nonce: h.num_events,
            _padding: [0u8, 0u8, 0u8],
        }
    }

    /// The header's fields; the padding shows as zeros.
    pub fn from_header(h: &MarketHeader) -> (r: MarketHeaderView)
        ensures
            r == Self::from_header_spec(*h),
    {
        MarketHeaderView {
            discriminant: h.discriminant(),
            num_seats: h.num_seats(),
            num_bids: h.num_bids(),
            num_asks: h.num_asks(),
            num_free_sectors: h.num_free_sectors(),
            free_stack_top: h.free_stack_top(),
            seats_dll_head: h.seats_dll_head(),
            seats_dll_tail: h.seats_dll_tail(),
            bids_dll_head: h.bids_dll_head(),
            bids_dll_tail: h.bids_dll_tail(),
            asks_dll_head: h.asks_dll_head(),
            asks_dll_tail: h.asks_dll_tail(),
            base_mint: h.base_mint,
            quote_mint: h.quote_mint,
            market_bump: h.market_bump,
            nonce: h.num_events(),
            _padding: [0u8, 0u8, 0u8],
        }
    }
}

impl MarketSeatView {
    pub open spec fn from_node_spec(index: SectorIndex, node: Node) -> MarketSeatView {
        let seat = MarketSeat::decode_spec(node.payload@);
        MarketSeatView {
            prev_index: node.prev,
            index,
            next_index: node.next,
            user: seat.user,
            base_available: seat.base_available,
            quote_available: seat.quote_available,
            user_order_sectors: seat.user_order_sectors,
        }
    }

    /// The node in sector `index`, read as a seat.
    pub fn from_node(index: SectorIndex, node: &Node) -> (r: MarketSeatView)
        ensures
            r == Self::from_node_spec(index, *node),
    {
        let seat = MarketSeat::from_payload(&node.payload);
        MarketSeatView {
            prev_index: node.prev(),
            index,
            next_index: node.next(),
            user: seat.user,
            base_available: seat.base_available(),
            quote_available: seat.quote_available(),
            user_order_sectors: seat.user_order_sectors,
        }
    }
}

impl OrderView {
    pub open spec fn from_node_spec(index: SectorIndex, node: Node) -> OrderView {
        let order = Order::decode_spec(node.payload@);
        OrderView {
            prev_index: node.prev,
            index,
            next_index: node.next,
            encoded_price: order.encoded_price,
            user_seat: order.user_seat,
            base_remaining: order.base_remaining,
            quote_remaining: order.quote_remaining,
        }
    }

    /// The node in sector `index`, read as an order.
    pub fn from_node(index: SectorIndex, node: &Node) -> (r: OrderView)
        ensures
            r == Self::from_node_spec(index, *node),
    {
        let order = Order::from_payload(&node.payload);
        OrderView {
            prev_index: node.prev(),
            index,
            next_index: node.next(),
            encoded_price: order.encoded_price(),
            user_seat: order.user_seat(),
            base_remaining: order.base_remaining(),
            quote_remaining: order.quote_remaining(),
        }
    }
}

/// The seat views of the nodes at `indices`, in order.
fn seat_views(market: &Market, indices: &Vec<SectorIndex>) -> (r: Vec<MarketSeatView>)
    requires
        forall|k: int| 0 <= k < indices@.len() ==> #[trigger] indices@[k] < market.sectors@.len(),
    ensures
        r@.len() == indices@.len(),
        forall|k: int|
            0 <= k < indices@.len() ==> #[trigger] r@[k] == MarketSeatView::from_node_spec(
                indices@[k],
                market.sectors@[indices@[k] as int],
            ),
{
    let mut out: Vec<MarketSeatView> = Vec::new();
    let mut k: usize = 0;
    while k < indices.len()
        invariant
            k <= indices@.len(),
            out@.len() == k,
            forall|k: int| 0 <= k < indices@.len() ==> #[trigger] indices@[k] < market.sectors@.len(),
            forall|j: int|
                0 <= j < k ==> #[trigger] out@[j] == MarketSeatView::from_node_spec(
                    indices@[j],
                    market.sectors@[indices@[j] as int],
                ),
        decreases indices@.len() - k,
    {
        let index = indices[k];
        out.push(MarketSeatView::from_node(index, &market.sectors[index as usize]));
        k = k + 1;
    }
    out
}

/// The order views of the nodes at `indices`, in order.
fn order_views(market: &Market, indices: &Vec<SectorIndex>) -> (r: Vec<OrderView>)
    requires
        forall|k: int| 0 <= k < indices@.len() ==> #[trigger] indices@[k] < market.sectors@.len(),
    ensures
        r@.len() == indices@.len(),
        forall|k: int|
            0 <= k < indices@.len() ==> #[trigger] r@[k] == OrderView::from_node_spec(
                indices@[k],
                market.sectors@[indices@[k] as int],
            ),
{
    let mut out: Vec<OrderView> = Vec::new();
    let mut k: usize = 0;
    while k < indices.len()
        invariant
            k <= indices@.len(),
            out@.len() == k,
            forall|k: int| 0 <= k < indices@.len() ==> #[trigger] indices@[k] < market.sectors@.len(),
            forall|j: int|
                0 <= j < k ==> #[trigger] out@[j] == OrderView::from_node_spec(
                    indices@[j],
                    market.sectors@[indices@[j] as int],
                ),
        decreases indices@.len() - k,
    {
        let index = indices[k];
        out.push(OrderView::from_node(index, &market.sectors[index as usize]));
        k = k + 1;
    }
    out
}

/// The indices a walk visits are in bounds.
proof fn lemma_walk_in_bounds(nodes: Seq<Node>, curr: SectorIndex, fuel: nat)
    ensures
        forall|k: int|
            0 <= k < walk(nodes, curr, fuel).len() ==> #[trigger] walk(nodes, curr, fuel)[k]
                < nodes.len(),
    decreases fuel,
{
    if !(fuel == 0 || curr == crate::state::sector::NIL || curr >= nodes.len()) {
        let rest = walk(nodes, nodes[curr as int].next, (fuel - 1) as nat);
        lemma_walk_in_bounds(nodes, nodes[curr as int].next, (fuel - 1) as nat);
        assert forall|k: int| 0 <= k < walk(nodes, curr, fuel).len() implies #[trigger] walk(
            nodes,
            curr,
            fuel,
        )[k] < nodes.len() by {
            if k > 0 {
                assert(walk(nodes, curr, fuel)[k] == rest[k - 1]);
            }
        }
    }
}

/// The views of every node of the list `kind` reached from its head, in order.
pub open spec fn list_reached(m: Market, kind: ListKind) -> Seq<SectorIndex> {
    walk(m.sectors@, head_of(m.header, kind), m.sectors@.len())
}

/// `v` shows `market`: its header and the nodes of the three lists reached from their heads, each
/// in list order.
pub open spec fn views_market(v: MarketViewAll, market: Market) -> bool {
    &&& v.header == MarketHeaderView::from_header_spec(market.header)
    &&& v.seats@.len() == list_reached(market, ListKind::Seats).len()
    &&& forall|k: int|
        0 <= k < v.seats@.len() ==> #[trigger] v.seats@[k] == MarketSeatView::from_node_spec(
            list_reached(market, ListKind::Seats)[k],
            market.sectors@[list_reached(market, ListKind::Seats)[k] as int],
        )
    &&& v.bids@.len() == list_reached(market, ListKind::Bids).len()
    &&& forall|k: int|
        0 <= k < v.bids@.len() ==> #[trigger] v.bids@[k] == OrderView::from_node_spec(
            list_reached(market, ListKind::Bids)[k],
            market.sectors@[list_reached(market, ListKind::Bids)[k] as int],
        )
    &&& v.asks@.len() == list_reached(market, ListKind::Asks).len()
    &&& forall|k: int|
        0 <= k < v.asks@.len() ==> #[trigger] v.asks@[k] == OrderView::from_node_spec(
            list_reached(market, ListKind::Asks)[k],
            market.sectors@[list_reached(market, ListKind::Asks)[k] as int],
        )
}

impl MarketViewAll {
    /// The header and the nodes of the three lists reached from their heads, each in list order.
    /// On a well-formed market these are exactly the lists.
    pub fn from_market(market: &Market) -> (r: MarketViewAll)
        ensures
            views_market(r, *market),
            market.wf() ==> r.seats@.len() == market.seats@.len() && r.bids@.len()
                == market.bids@.len() && r.asks@.len() == market.asks@.len(),
    {
        let seats = market.list_indices(ListKind::Seats);
        let bids = market.list_indices(ListKind::Bids);
        let asks = market.list_indices(ListKind::Asks);
        proof {
            lemma_walk_in_bounds(market.sectors@, market.header.seats_dll_head, market.sectors@.len());
            lemma_walk_in_bounds(market.sectors@, market.header.bids_dll_head, market.sectors@.len());
            lemma_walk_in_bounds(market.sectors@, market.header.asks_dll_head, market.sectors@.len());
        }
        MarketViewAll {
            header: MarketHeaderView::from_header(&market.header),
            seats: seat_views(market, &seats),
            bids: order_views(market, &bids),
            asks: order_views(market, &asks),
        }
    }
}

/// Reads account data as a market and views it, after checking that the account is owned by the
/// program and holds at least a header. Fails with `NotOwnedByProgram`, then with
/// `Uninitialized`; otherwise the view shows the market the data decodes to.
pub fn try_market_view_all_from_owner_and_data(
    account_owner: &Pubkey,
    program_id: &Pubkey,
    account_data: &[u8],
) -> (r: Result<MarketViewAll, ViewError>)
    ensures
        account_owner@ != program_id@ ==> r matches Err(ViewError::NotOwnedByProgram),
        account_owner@ == program_id@ && account_data@.len() < MARKET_HEADER_SIZE ==> r matches Err(
            ViewError::Uninitialized,
        ),
        account_owner@ == program_id@ && account_data@.len() >= MARKET_HEADER_SIZE ==> r is Ok,
        r is Ok ==> exists|m: Market|
            #[trigger] decodes_from(m, account_data@) && views_market(r->Ok_0, m),
{
    if !pubkey_eq(account_owner, program_id) {
        return Err(ViewError::NotOwnedByProgram);
    }
    if account_data.len() < MARKET_HEADER_SIZE {
        return Err(ViewError::Uninitialized);
    }
    let market = Market::from_bytes(account_data);
    let v = MarketViewAll::from_market(&market);
    assert(exists|m: Market| #[trigger] decodes_from(m, account_data@) && views_market(v, m));
    Ok(v)
}

} // verus!
