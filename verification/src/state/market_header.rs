//! The header of a market account: counts, the roots of the free stack and of the seat, bid
//! and ask lists, the mints and the market bump.

use vstd::prelude::*;

use crate::error::{
    DropsetError,
    DropsetResult,
};
use crate::le_bytes::{
    array_from_seq,
    le_u32,
    le_u32_at,
    le_u64,
    le_u64_at,
    lemma_array_from_seq,
    lemma_le_round_trip,
    push_bytes,
    push_u32,
    push_u64,
    read_array,
    read_u32,
    read_u64,
};
use crate::state::sector::{
    SectorIndex,
    NIL,
};
use crate::state::transmutable::Transmutable;
use crate::state::Pubkey;

verus! {

/// The discriminant that marks an initialized market account.
pub const MARKET_ACCOUNT_DISCRIMINANT: u64 = 0xd00d00b00b00f00d;

/// The size in bytes of an encoded [`MarketHeader`].
pub const MARKET_HEADER_SIZE: usize = 128;

/// `x + 1`, saturating at `u32::MAX`.
pub open spec fn saturating_inc(x: u32) -> u32 {
    if x == u32::MAX {
        x
    } else {
        (x + 1) as u32
    }
}

/// `x - 1`, saturating at zero.
pub open spec fn saturating_dec(x: u32) -> u32 {
    if x == 0 {
        x
    } else {
        (x - 1) as u32
    }
}

/// The metadata needed to interpret a market account's `sectors` region.
///
/// Encoded little-endian in declaration order, followed by three bytes of padding.
#[derive(Clone, Copy, Debug, PartialEq, Eq)]
pub struct MarketHeader {
    /// The market account discriminant.
    pub discriminant: u64,
    /// The total number of seats.
    pub num_seats: u32,
    /// The total number of bid orders.
    pub num_bids: u32,
    /// The total number of ask orders.
    pub num_asks: u32,
    /// The number of sectors counted as free.
    pub num_free_sectors: u32,
    /// The sector index of the top node of the free stack.
    pub free_stack_top: u32,
    /// The sector index of the first seat node.
    pub seats_dll_head: u32,
    /// The sector index of the last seat node.
    pub seats_dll_tail: u32,
    /// The sector index of the first bid node.
    pub bids_dll_head: u32,
    /// The sector index of the last bid node.
    pub bids_dll_tail: u32,
    /// The sector index of the first ask node.
    pub asks_dll_head: u32,
    /// The sector index of the last ask node.
    pub asks_dll_tail: u32,
    /// The market's base mint public key.
    pub base_mint: Pubkey,
    /// The market's quote mint public key.
    pub quote_mint: Pubkey,
    /// The bump of the market PDA.
    pub market_bump: u8,
    /// The number of events emitted by the market.
    pub num_events: u64,
    /// Extra padding bytes.
    pub padding: [u8; 3],
}

impl MarketHeader {
    /// The header of a freshly registered market: empty structures and zero counts.
    pub open spec fn init_spec(market_bump: u8, base_mint: Pubkey, quote_mint: Pubkey) -> MarketHeader {
        MarketHeader {
            discriminant: MARKET_ACCOUNT_DISCRIMINANT,
            num_seats: 0,
            num_bids: 0,
            num_asks: 0,
            num_free_sectors: 0,
            free_stack_top: NIL,
            seats_dll_head: NIL,
            seats_dll_tail: NIL,
            bids_dll_head: NIL,
            bids_dll_tail: NIL,
            asks_dll_head: NIL,
            asks_dll_tail: NIL,
            base_mint,
            quote_mint,
            market_bump,
            num_events: 0,
            padding: [0u8, 0u8, 0u8],
        }
    }

    /// Returns the header of a freshly registered market.
    pub fn init(market_bump: u8, base_mint: &Pubkey, quote_mint: &Pubkey) -> (r: MarketHeader)
        ensures
            r == MarketHeader::init_spec(market_bump, *base_mint, *quote_mint),
    {
        MarketHeader {
            discriminant: MARKET_ACCOUNT_DISCRIMINANT,
            num_seats: 0,
            num_bids: 0,
            num_asks: 0,
            num_free_sectors: 0,
            free_stack_top: NIL,
            seats_dll_head: NIL,
            seats_dll_tail: NIL,
            bids_dll_head: NIL,
            bids_dll_tail: NIL,
            asks_dll_head: NIL,
            asks_dll_tail: NIL,
            base_mint: *base_mint,
            quote_mint: *quote_mint,
            market_bump,
            num_events: 0,
            padding: [0u8, 0u8, 0u8],
        }
    }

    /// Fails with `InvalidAccountDiscriminant` unless the header is a market header.
    pub fn verify_discriminant(&self) -> (r: DropsetResult)
        ensures
            r is Ok <==> self.discriminant == MARKET_ACCOUNT_DISCRIMINANT,
            r is Err ==> r == Err::<(), DropsetError>(DropsetError::InvalidAccountDiscriminant),
    {
        if self.discriminant != MARKET_ACCOUNT_DISCRIMINANT {
            return Err(DropsetError::InvalidAccountDiscriminant);
        }
        Ok(())
    }

    pub fn discriminant(&self) -> (r: u64)
        ensures
            r == self.discriminant,
    {
        self.discriminant
    }


    pub fn num_seats(&self) -> (r: u32)
        ensures
            r == self.num_seats,
    {
        self.num_seats
    }


    /// Adds one, saturating at `u32::MAX`.
    pub fn increment_num_seats(&mut self)
        ensures
            *final(self) == (MarketHeader { num_seats: saturating_inc(old(self).num_seats), ..*old(self) }),
    {
        self.num_seats = self.num_seats.saturating_add(1);
    }

    /// Subtracts one, saturating at zero.
    pub fn decrement_num_seats(&mut self)
        ensures
            *final(self) == (MarketHeader { num_seats: saturating_dec(old(self).num_seats), ..*old(self) }),
    {
        self.num_seats = self.num_seats.saturating_sub(1);
    }


    pub fn num_bids(&self) -> (r: u32)
        ensures
            r == self.num_bids,
    {
        self.num_bids
    }


    /// Adds one, saturating at `u32::MAX`.
    pub fn increment_num_bids(&mut self)
        ensures
            *final(self) == (MarketHeader { num_bids: saturating_inc(old(self).num_bids), ..*old(self) }),
    {
        self.num_bids = self.num_bids.saturating_add(1);
    }

    /// Subtracts one, saturating at zero.
    pub fn decrement_num_bids(&mut self)
        ensures
            *final(self) == (MarketHeader { num_bids: saturating_dec(old(self).num_bids), ..*old(self) }),
    {
        self.num_bids = self.num_bids.saturating_sub(1);
    }


    pub fn num_asks(&self) -> (r: u32)
        ensures
            r == self.num_asks,
    {
        self.num_asks
    }


    /// Adds one, saturating at `u32::MAX`.
    pub fn increment_num_asks(&mut self)
        ensures
            *final(self) == (MarketHeader { num_asks: saturating_inc(old(self).num_asks), ..*old(self) }),
    {
        self.num_asks = self.num_asks.saturating_add(1);
    }

    /// Subtracts one, saturating at zero.
    pub fn decrement_num_asks(&mut self)
        ensures
            *final(self) == (MarketHeader { num_asks: saturating_dec(old(self).num_asks), ..*old(self) }),
    {
        self.num_asks = self.num_asks.saturating_sub(1);
    }


    pub fn num_free_sectors(&self) -> (r: u32)
        ensures
            r == self.num_free_sectors,
    {
        self.num_free_sectors
    }


    /// Adds one, saturating at `u32::MAX`.
    pub fn increment_num_free_sectors(&mut self)
        ensures
            *final(self) == (MarketHeader { num_free_sectors: saturating_inc(old(self).num_free_sectors), ..*old(self) }),
    {
        self.num_free_sectors = self.num_free_sectors.saturating_add(1);
    }

    /// Subtracts one, saturating at zero.
    pub fn decrement_num_free_sectors(&mut self)
        ensures
            *final(self) == (MarketHeader { num_free_sectors: saturating_dec(old(self).num_free_sectors), ..*old(self) }),
    {
        self.num_free_sectors = self.num_free_sectors.saturating_sub(1);
    }


    pub fn free_stack_top(&self) -> (r: SectorIndex)
        ensures
            r == self.free_stack_top,
    {
        self.free_stack_top
    }


    pub fn set_free_stack_top(&mut self, index: SectorIndex)
        ensures
            *final(self) == (MarketHeader { free_stack_top: index, ..*old(self) }),
    {
        self.free_stack_top = index;
    }


    pub fn seats_dll_head(&self) -> (r: SectorIndex)
        ensures
            r == self.seats_dll_head,
    {
        self.seats_dll_head
    }


    pub fn set_seats_dll_head(&mut self, index: SectorIndex)
        ensures
            *final(self) == (MarketHeader { seats_dll_head: index, ..*old(self) }),
    {
        self.seats_dll_head = index;
    }


    pub fn seats_dll_tail(&self) -> (r: SectorIndex)
        ensures
            r == self.seats_dll_tail,
    {
        self.seats_dll_tail
    }


    pub fn set_seats_dll_tail(&mut self, index: SectorIndex)
        ensures
            *final(self) == (MarketHeader { seats_dll_tail: index, ..*old(self) }),
    {
        self.seats_dll_tail = index;
    }


    pub fn bids_dll_head(&self) -> (r: SectorIndex)
        ensures
            r == self.bids_dll_head,
    {
        self.bids_dll_head
    }


    pub fn set_bids_dll_head(&mut self, index: SectorIndex)
        ensures
            *final(self) == (MarketHeader { bids_dll_head: index, ..*old(self) }),
    {
        self.bids_dll_head = index;
    }


    pub fn bids_dll_tail(&self) -> (r: SectorIndex)
        ensures
            r == self.bids_dll_tail,
    {
        self.bids_dll_tail
    }


    pub fn set_bids_dll_tail(&mut self, index: SectorIndex)
        ensures
            *final(self) == (MarketHeader { bids_dll_tail: index, ..*old(self) }),
    {
        self.bids_dll_tail = index;
    }


    pub fn asks_dll_head(&self) -> (r: SectorIndex)
        ensures
            r == self.asks_dll_head,
    {
        self.asks_dll_head
    }


    pub fn set_asks_dll_head(&mut self, index: SectorIndex)
        ensures
            *final(self) == (MarketHeader { asks_dll_head: index, ..*old(self) }),
    {
        self.asks_dll_head = index;
    }


    pub fn asks_dll_tail(&self) -> (r: SectorIndex)
        ensures
            r == self.asks_dll_tail,
    {
        self.asks_dll_tail
    }


    pub fn set_asks_dll_tail(&mut self, index: SectorIndex)
        ensures
            *final(self) == (MarketHeader { asks_dll_tail: index, ..*old(self) }),
    {
        self.asks_dll_tail = index;
    }


    pub fn num_events(&self) -> (r: u64)
        ensures
            r == self.num_events,
    {
        self.num_events
    }


    /// Adds `amount` to the number of events, saturating at `u64::MAX`.
    pub fn increment_num_events_by(&mut self, amount: u64)
        ensures
            *final(self) == (MarketHeader {
                num_events: if old(self).num_events + amount > u64::MAX {
                    u64::MAX
                } else {
                    (old(self).num_events + amount) as u64
                },
                ..*old(self)
            }),
    {
        self.num_events = self.num_events.saturating_add(amount);
    }
}

impl Transmutable for MarketHeader {
    open spec fn byte_len() -> nat {
        MARKET_HEADER_SIZE as nat
    }

    fn len() -> (r: usize) {
        MARKET_HEADER_SIZE
    }

    open spec fn valid_bit_pattern(bytes: Seq<u8>) -> bool {
        true
    }

    open spec fn decode_spec(bytes: Seq<u8>) -> MarketHeader {
        MarketHeader {
            discriminant: le_u64_at(bytes, 0),
            num_seats: le_u32_at(bytes, 8),
            num_bids: le_u32_at(bytes, 12),
            num_asks: le_u32_at(bytes, 16),
            num_free_sectors: le_u32_at(bytes, 20),
            free_stack_top: le_u32_at(bytes, 24),
            seats_dll_head: le_u32_at(bytes, 28),
            seats_dll_tail: le_u32_at(bytes, 32),
            bids_dll_head: le_u32_at(bytes, 36),
            bids_dll_tail: le_u32_at(bytes, 40),
            asks_dll_head: le_u32_at(bytes, 44),
            asks_dll_tail: le_u32_at(bytes, 48),
            base_mint: array_from_seq::<32>(bytes.subrange(52, 84)),
            quote_mint: array_from_seq::<32>(bytes.subrange(84, 116)),
            market_bump: bytes[116],
            num_events: le_u64_at(bytes, 117),
            padding: array_from_seq::<3>(bytes.subrange(125, 128)),
        }
    }

    open spec fn encode_spec(&self) -> Seq<u8> {
        le_u64(self.discriminant)
            + le_u32(self.num_seats)
            + le_u32(self.num_bids)
            + le_u32(self.num_asks)
            + le_u32(self.num_free_sectors)
            + le_u32(self.free_stack_top)
            + le_u32(self.seats_dll_head)
            + le_u32(self.seats_dll_tail)
            + le_u32(self.bids_dll_head)
            + le_u32(self.bids_dll_tail)
            + le_u32(self.asks_dll_head)
            + le_u32(self.asks_dll_tail)
            + self.base_mint@
            + self.quote_mint@
            + seq![self.market_bump]
            + le_u64(self.num_events)
            + self.padding@
    }

    fn validate_bit_patterns(bytes: &[u8]) -> (r: DropsetResult) {
        // All bit patterns are valid: no enums, bools, or other types with invalid states.
        Ok(())
    }

    fn load_unchecked(bytes: &[u8]) -> (r: MarketHeader) {
        let base_mint: Pubkey = read_array(bytes, 52);
        let quote_mint: Pubkey = read_array(bytes, 84);
        let padding: [u8; 3] = read_array(bytes, 125);
        proof {
            lemma_array_from_seq(base_mint);
            lemma_array_from_seq(quote_mint);
            lemma_array_from_seq(padding);
        }
        MarketHeader {
            discriminant: read_u64(bytes, 0),
            num_seats: read_u32(bytes, 8),
            num_bids: read_u32(bytes, 12),
            num_asks: read_u32(bytes, 16),
            num_free_sectors: read_u32(bytes, 20),
            free_stack_top: read_u32(bytes, 24),
            seats_dll_head: read_u32(bytes, 28),
            seats_dll_tail: read_u32(bytes, 32),
            bids_dll_head: read_u32(bytes, 36),
            bids_dll_tail: read_u32(bytes, 40),
            asks_dll_head: read_u32(bytes, 44),
            asks_dll_tail: read_u32(bytes, 48),
            base_mint,
            quote_mint,
            market_bump: bytes[116],
            num_events: read_u64(bytes, 117),
            padding,
        }
    }

    fn to_bytes(&self) -> (r: Vec<u8>) {
        let mut out: Vec<u8> = Vec::new();
        push_u64(&mut out, self.discriminant);
        push_u32(&mut out, self.num_seats);
        push_u32(&mut out, self.num_bids);
        push_u32(&mut out, self.num_asks);
        push_u32(&mut out, self.num_free_sectors);
        push_u32(&mut out, self.free_stack_top);
        push_u32(&mut out, self.seats_dll_head);
        push_u32(&mut out, self.seats_dll_tail);
        push_u32(&mut out, self.bids_dll_head);
        push_u32(&mut out, self.bids_dll_tail);
        push_u32(&mut out, self.asks_dll_head);
        push_u32(&mut out, self.asks_dll_tail);
        push_bytes(&mut out, self.base_mint.as_slice());
        push_bytes(&mut out, self.quote_mint.as_slice());
        out.push(self.market_bump);
        push_u64(&mut out, self.num_events);
        push_bytes(&mut out, self.padding.as_slice());
        proof {
            lemma_le_round_trip();
        }
        out
    }
}

/// Decoding the bytes of a header gives the header back.
pub proof fn lemma_header_round_trip(header: MarketHeader)
    ensures
        header.encode_spec().len() == MARKET_HEADER_SIZE,
        MarketHeader::decode_spec(header.encode_spec()) == header,
{
    lemma_le_round_trip();
    let b = header.encode_spec();
    assert(b.subrange(0, 8) =~= le_u64(header.discriminant));
    assert(b.subrange(8, 12) =~= le_u32(header.num_seats));
    assert(b.subrange(12, 16) =~= le_u32(header.num_bids));
    assert(b.subrange(16, 20) =~= le_u32(header.num_asks));
    assert(b.subrange(20, 24) =~= le_u32(header.num_free_sectors));
    assert(b.subrange(24, 28) =~= le_u32(header.free_stack_top));
    assert(b.subrange(28, 32) =~= le_u32(header.seats_dll_head));
    assert(b.subrange(32, 36) =~= le_u32(header.seats_dll_tail));
    assert(b.subrange(36, 40) =~= le_u32(header.bids_dll_head));
    assert(b.subrange(40, 44) =~= le_u32(header.bids_dll_tail));
    assert(b.subrange(44, 48) =~= le_u32(header.asks_dll_head));
    assert(b.subrange(48, 52) =~= le_u32(header.asks_dll_tail));
    assert(b.subrange(52, 84) =~= header.base_mint@);
    assert(b.subrange(84, 116) =~= header.quote_mint@);
    assert(b.subrange(117, 125) =~= le_u64(header.num_events));
    assert(b.subrange(125, 128) =~= header.padding@);
    lemma_array_from_seq(header.base_mint);
    lemma_array_from_seq(header.quote_mint);
    lemma_array_from_seq(header.padding);
}

/// Encoding the header that any 128 bytes decode to gives those bytes back.
pub proof fn lemma_header_bytes_round_trip(b: Seq<u8>)
    requires
        b.len() == MARKET_HEADER_SIZE,
    ensures
        MarketHeader::decode_spec(b).encode_spec() == b,
{
    vstd::bytes::lemma_auto_spec_u64_to_from_le_bytes();
    vstd::bytes::lemma_auto_spec_u32_to_from_le_bytes();
    crate::le_bytes::lemma_array_from_seq_view::<32>(b.subrange(52, 84));
    crate::le_bytes::lemma_array_from_seq_view::<32>(b.subrange(84, 116));
    crate::le_bytes::lemma_array_from_seq_view::<3>(b.subrange(125, 128));
    let h = MarketHeader::decode_spec(b);
    assert(le_u64(h.discriminant) == b.subrange(0, 8));
    assert(le_u32(h.num_seats) == b.subrange(8, 12));
    assert(le_u32(h.num_bids) == b.subrange(12, 16));
    assert(le_u32(h.num_asks) == b.subrange(16, 20));
    assert(le_u32(h.num_free_sectors) == b.subrange(20, 24));
    assert(le_u32(h.free_stack_top) == b.subrange(24, 28));
    assert(le_u32(h.seats_dll_head) == b.subrange(28, 32));
    assert(le_u32(h.seats_dll_tail) == b.subrange(32, 36));
    assert(le_u32(h.bids_dll_head) == b.subrange(36, 40));
    assert(le_u32(h.bids_dll_tail) == b.subrange(40, 44));
    assert(le_u32(h.asks_dll_head) == b.subrange(44, 48));
    assert(le_u32(h.asks_dll_tail) == b.subrange(48, 52));
    assert(le_u64(h.num_events) == b.subrange(117, 125));
    assert(h.encode_spec() =~= b);
}

} // verus!
