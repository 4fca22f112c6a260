//! The map in a seat from the prices of the seat's orders to their sectors, one entry per side of
//! the book, so that each of a user's orders on a side has its own price.
//!
//! Encoded as the bid entry then the ask entry, each the encoded price and then the sector, as
//! little-endian `u32`s; an entry of zeros is empty.

use vstd::prelude::*;

use crate::error::{
    DropsetError,
    DropsetResult,
};
use crate::le_bytes::{
    le_u32,
    le_u32_at,
    lemma_le_round_trip,
    push_u32,
    read_u32,
};
use crate::state::sector::SectorIndex;

verus! {

/// The number of bytes of the map.
pub const USER_ORDER_SECTORS_SIZE: usize = 16;

/// One side's entry: the encoded price of the seat's order on that side and the order's sector,
/// or zeros when the seat has no order there.
#[derive(Clone, Copy, Debug, PartialEq, Eq, Structural)]
pub struct OrderSlot {
    pub price: u32,
    pub sector: SectorIndex,
}

impl OrderSlot {
    /// The empty entry.
    pub open spec fn empty_spec() -> OrderSlot {
        OrderSlot { price: 0, sector: 0 }
    }

    /// Whether the entry holds no order.
    pub open spec fn is_empty(self) -> bool {
        self == OrderSlot::empty_spec()
    }

    /// Whether the entry holds an order at `price`.
    pub open spec fn holds(self, price: u32) -> bool {
        !self.is_empty() && self.price == price
    }
}

/// A seat's map from order prices to order sectors: one entry for its bid and one for its ask.
#[derive(Clone, Copy, Debug, PartialEq, Eq, Structural)]
pub struct UserOrderSectors {
    pub bids: OrderSlot,
    pub asks: OrderSlot,
}

impl UserOrderSectors {
    /// The map with no order.
    pub open spec fn empty_spec() -> UserOrderSectors {
        UserOrderSectors { bids: OrderSlot::empty_spec(), asks: OrderSlot::empty_spec() }
    }

    /// The map with no order.
    pub fn empty() -> (r: UserOrderSectors)
        ensures
            r == UserOrderSectors::empty_spec(),
    {
        UserOrderSectors {
            bids: OrderSlot { price: 0, sector: 0 },
            asks: OrderSlot { price: 0, sector: 0 },
        }
    }

    /// The entry of the bid side when `is_bid`, else of the ask side.
    pub open spec fn slot(self, is_bid: bool) -> OrderSlot {
        if is_bid {
            self.bids
        } else {
            self.asks
        }
    }

    /// The map with the entry of one side replaced.
    pub open spec fn with_slot(self, is_bid: bool, slot: OrderSlot) -> UserOrderSectors {
        if is_bid {
            UserOrderSectors { bids: slot, ..self }
        } else {
            UserOrderSectors { asks: slot, ..self }
        }
    }

    /// The map's bytes.
    pub open spec fn encode_spec(self) -> Seq<u8> {
        le_u32(self.bids.price) + le_u32(self.bids.sector) + le_u32(self.asks.price) + le_u32(
            self.asks.sector,
        )
    }

    /// The map that 16 bytes encode.
    pub open spec fn decode_spec(bytes: Seq<u8>) -> UserOrderSectors {
        UserOrderSectors {
            bids: OrderSlot { price: le_u32_at(bytes, 0), sector: le_u32_at(bytes, 4) },
            asks: OrderSlot { price: le_u32_at(bytes, 8), sector: le_u32_at(bytes, 12) },
        }
    }

    /// Records the order in sector `sector` at `price` on one side. Fails, changing nothing,
    /// with `OrderWithPriceAlreadyExists` when the side already holds an order at that price and
    /// with `UserHasMaxOrders` when it holds an order at another price.
    pub fn add(&mut self, is_bid: bool, price: u32, sector: SectorIndex) -> (r: DropsetResult)
        ensures
            old(self).slot(is_bid).holds(price) ==> r == Err::<(), DropsetError>(
                DropsetError::OrderWithPriceAlreadyExists,
            ) && *final(self) == *old(self),
            !old(self).slot(is_bid).is_empty() && !old(self).slot(is_bid).holds(price) ==> r
                == Err::<(), DropsetError>(DropsetError::UserHasMaxOrders) && *final(self) == *old(
                self,
            ),
            old(self).slot(is_bid).is_empty() ==> r is Ok && *final(self) == old(self).with_slot(
                is_bid,
                OrderSlot { price, sector },
            ),
    {
        let slot = if is_bid {
            self.bids
        } else {
            self.asks
        };
        let empty = slot.price == 0 && slot.sector == 0;
        if !empty && slot.price == price {
            return Err(DropsetError::OrderWithPriceAlreadyExists);
        }
        if !empty {
            return Err(DropsetError::UserHasMaxOrders);
        }
        if is_bid {
            self.bids = OrderSlot { price, sector };
        } else {
            self.asks = OrderSlot { price, sector };
        }
        Ok(())
    }

    /// Takes the order at `price` off one side and returns its sector. Fails, changing nothing,
    /// with `OrderNotFound` when the side holds no order at that price.
    pub fn remove(&mut self, is_bid: bool, price: u32) -> (r: Result<SectorIndex, DropsetError>)
        ensures
            old(self).slot(is_bid).holds(price) ==> r == Ok::<SectorIndex, DropsetError>(
                old(self).slot(is_bid).sector,
            ) && *final(self) == old(self).with_slot(is_bid, OrderSlot::empty_spec()),
            !old(self).slot(is_bid).holds(price) ==> r == Err::<SectorIndex, DropsetError>(
                DropsetError::OrderNotFound,
            ) && *final(self) == *old(self),
    {
        let slot = if is_bid {
            self.bids
        } else {
            self.asks
        };
        if (slot.price == 0 && slot.sector == 0) || slot.price != price {
            return Err(DropsetError::OrderNotFound);
        }
        if is_bid {
            self.bids = OrderSlot { price: 0, sector: 0 };
        } else {
            self.asks = OrderSlot { price: 0, sector: 0 };
        }
        Ok(slot.sector)
    }

    /// Reads the map from the 16 bytes at `offset`.
    pub fn read(bytes: &[u8], offset: usize) -> (r: UserOrderSectors)
        requires
            offset + USER_ORDER_SECTORS_SIZE <= bytes@.len(),
        ensures
            r == UserOrderSectors::decode_spec(
                bytes@.subrange(offset as int, offset + USER_ORDER_SECTORS_SIZE),
            ),
    {
        let _len = bytes.len();
        let ghost b = bytes@.subrange(offset as int, offset + USER_ORDER_SECTORS_SIZE);
        proof {
            assert(bytes@.subrange(offset as int, offset + 4) =~= b.subrange(0, 4));
            assert(bytes@.subrange(offset + 4, offset + 8) =~= b.subrange(4, 8));
            assert(bytes@.subrange(offset + 8, offset + 12) =~= b.subrange(8, 12));
            assert(bytes@.subrange(offset + 12, offset + 16) =~= b.subrange(12, 16));
        }
        UserOrderSectors {
            bids: OrderSlot { price: read_u32(bytes, offset), sector: read_u32(bytes, offset + 4) },
            asks: OrderSlot {
                price: read_u32(bytes, offset + 8),
                sector: read_u32(bytes, offset + 12),
            },
        }
    }

    /// Appends the map's bytes.
    pub fn write(&self, out: &mut Vec<u8>)
        ensures
            final(out)@ == old(out)@ + self.encode_spec(),
    {
        let ghost start = out@;
        push_u32(out, self.bids.price);
        push_u32(out, self.bids.sector);
        push_u32(out, self.asks.price);
        push_u32(out, self.asks.sector);
        assert(out@ =~= start + self.encode_spec());
    }
}

/// Decoding the bytes of a map gives the map back, and the bytes are 16 long.
pub proof fn lemma_user_order_sectors_round_trip(u: UserOrderSectors)
    ensures
        u.encode_spec().len() == USER_ORDER_SECTORS_SIZE,
        UserOrderSectors::decode_spec(u.encode_spec()) == u,
{
    lemma_le_round_trip();
    let b = u.encode_spec();
    assert(b.subrange(0, 4) =~= le_u32(u.bids.price));
    assert(b.subrange(4, 8) =~= le_u32(u.bids.sector));
    assert(b.subrange(8, 12) =~= le_u32(u.asks.price));
    assert(b.subrange(12, 16) =~= le_u32(u.asks.sector));
}

/// Encoding the map that any 16 bytes decode to gives those bytes back.
pub proof fn lemma_user_order_sectors_bytes_round_trip(b: Seq<u8>)
    requires
        b.len() == USER_ORDER_SECTORS_SIZE,
    ensures
        UserOrderSectors::decode_spec(b).encode_spec() == b,
{
    vstd::bytes::lemma_auto_spec_u32_to_from_le_bytes();
    let u = UserOrderSectors::decode_spec(b);
    assert(le_u32(u.bids.price) == b.subrange(0, 4));
    assert(le_u32(u.bids.sector) == b.subrange(4, 8));
    assert(le_u32(u.asks.price) == b.subrange(8, 12));
    assert(le_u32(u.asks.sector) == b.subrange(12, 16));
    assert(u.encode_spec() =~= b);
}

} // verus!
