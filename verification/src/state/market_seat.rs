//! A user's position within a market, stored as the payload of a seat node.

use vstd::prelude::*;

use crate::error::{
    DropsetError,
    DropsetResult,
};
use crate::le_bytes::{
    array_from_seq,
    le_u64,
    le_u64_at,
    lemma_array_from_seq,
    lemma_le_round_trip,
    push_bytes,
    push_u64,
    read_array,
    read_u64,
};
use crate::state::node::NODE_PAYLOAD_SIZE;
use crate::state::user_order_sectors::{
    lemma_user_order_sectors_bytes_round_trip,
    lemma_user_order_sectors_round_trip,
    UserOrderSectors,
};
use crate::state::transmutable::Transmutable;
use crate::state::Pubkey;

verus! {

/// The user that a seat payload belongs to: its first 32 bytes.
pub open spec fn seat_user_of(payload: Seq<u8>) -> Seq<u8> {
    payload.subrange(0, 32)
}

/// A user's position within a market: the amounts of base and quote the user can withdraw and
/// the map from the user's order prices to their order sectors.
///
/// Encoded as the user key, the two amounts (little-endian) and the order sector map bytes.
#[derive(Clone, Copy, Debug, PartialEq, Eq)]
pub struct MarketSeat {
    /// The user's public key.
    pub user: Pubkey,
    /// The amount of base the maker can withdraw.
    pub base_available: u64,
    /// The amount of quote the maker can withdraw.
    pub quote_available: u64,
    /// The mapping from the user's order prices to order sector indices.
    pub user_order_sectors: UserOrderSectors,
}

impl MarketSeat {
    pub fn new(user: Pubkey, base: u64, quote: u64) -> (r: Self)
        ensures
            r.user == user,
            r.base_available == base,
            r.quote_available == quote,
            r.user_order_sectors == UserOrderSectors::empty_spec(),
    {
        MarketSeat {
            user,
            base_available: base,
            quote_available: quote,
            user_order_sectors: UserOrderSectors::empty(),
        }
    }

    pub fn base_available(&self) -> (r: u64)
        ensures
            r == self.base_available,
    {
        self.base_available
    }

    pub fn set_base_available(&mut self, amount: u64)
        ensures
            *final(self) == (MarketSeat { base_available: amount, ..*old(self) }),
    {
        self.base_available = amount;
    }

    pub fn quote_available(&self) -> (r: u64)
        ensures
            r == self.quote_available,
    {
        self.quote_available
    }

    pub fn set_quote_available(&mut self, amount: u64)
        ensures
            *final(self) == (MarketSeat { quote_available: amount, ..*old(self) }),
    {
        self.quote_available = amount;
    }

    /// Takes `amount` from the base available, failing with `InsufficientUserBalance` (and
    /// leaving the seat as it was) when there is not enough.
    pub fn try_decrement_base_available(&mut self, amount: u64) -> (r: DropsetResult)
        ensures
            r is Ok <==> amount <= old(self).base_available,
            r is Ok ==> *final(self) == (MarketSeat {
                base_available: (old(self).base_available - amount) as u64,
                ..*old(self)
            }),
            r is Err ==> r == Err::<(), DropsetError>(DropsetError::InsufficientUserBalance)
                && *final(self) == *old(self),
    {
        if amount > self.base_available {
            return Err(DropsetError::InsufficientUserBalance);
        }
        self.base_available = self.base_available - amount;
        Ok(())
    }

    /// Takes `amount` from the quote available, failing with `InsufficientUserBalance` (and
    /// leaving the seat as it was) when there is not enough.
    pub fn try_decrement_quote_available(&mut self, amount: u64) -> (r: DropsetResult)
        ensures
            r is Ok <==> amount <= old(self).quote_available,
            r is Ok ==> *final(self) == (MarketSeat {
                quote_available: (old(self).quote_available - amount) as u64,
                ..*old(self)
            }),
            r is Err ==> r == Err::<(), DropsetError>(DropsetError::InsufficientUserBalance)
                && *final(self) == *old(self),
    {
        if amount > self.quote_available {
            return Err(DropsetError::InsufficientUserBalance);
        }
        self.quote_available = self.quote_available - amount;
        Ok(())
    }

    /// Adds `amount` to the base available, failing with `ArithmeticOverflow` (and leaving the
    /// seat as it was) when the sum does not fit.
    pub fn try_increment_base_available(&mut self, amount: u64) -> (r: DropsetResult)
        ensures
            r is Ok <==> old(self).base_available + amount <= u64::MAX,
            r is Ok ==> *final(self) == (MarketSeat {
                base_available: (old(self).base_available + amount) as u64,
                ..*old(self)
            }),
            r is Err ==> r == Err::<(), DropsetError>(DropsetError::ArithmeticOverflow)
                && *final(self) == *old(self),
    {
        match self.base_available.checked_add(amount) {
            Some(v) => {
                self.base_available = v;
                Ok(())
            },
            None => Err(DropsetError::ArithmeticOverflow),
        }
    }

    /// Adds `amount` to the quote available, failing with `ArithmeticOverflow` (and leaving the
    /// seat as it was) when the sum does not fit.
    pub fn try_increment_quote_available(&mut self, amount: u64) -> (r: DropsetResult)
        ensures
            r is Ok <==> old(self).quote_available + amount <= u64::MAX,
            r is Ok ==> *final(self) == (MarketSeat {
                quote_available: (old(self).quote_available + amount) as u64,
                ..*old(self)
            }),
            r is Err ==> r == Err::<(), DropsetError>(DropsetError::ArithmeticOverflow)
                && *final(self) == *old(self),
    {
        match self.quote_available.checked_add(amount) {
            Some(v) => {
                self.quote_available = v;
                Ok(())
            },
            None => Err(DropsetError::ArithmeticOverflow),
        }
    }

    /// Reads the seat stored in a node payload.
    pub fn from_payload(payload: &[u8; NODE_PAYLOAD_SIZE]) -> (r: MarketSeat)
        ensures
            r == MarketSeat::decode_spec(payload@),
            r.user@ == seat_user_of(payload@),
    {
        let user: Pubkey = read_array(payload.as_slice(), 0);
        let user_order_sectors = UserOrderSectors::read(payload.as_slice(), 48);
        proof {
            lemma_array_from_seq(user);
        }
        MarketSeat {
            user,
            base_available: read_u64(payload.as_slice(), 32),
            quote_available: read_u64(payload.as_slice(), 40),
            user_order_sectors,
        }
    }

    /// The seat as node payload bytes.
    pub fn as_bytes(&self) -> (r: [u8; NODE_PAYLOAD_SIZE])
        ensures
            r@ == self.encode_spec(),
    {
        let v = self.to_bytes();
        read_array(v.as_slice(), 0)
    }
}

impl Transmutable for MarketSeat {
    open spec fn byte_len() -> nat {
        NODE_PAYLOAD_SIZE as nat
    }

    fn len() -> (r: usize) {
        NODE_PAYLOAD_SIZE
    }

    open spec fn valid_bit_pattern(bytes: Seq<u8>) -> bool {
        true
    }

    open spec fn decode_spec(bytes: Seq<u8>) -> MarketSeat {
        MarketSeat {
            user: array_from_seq::<32>(bytes.subrange(0, 32)),
            base_available: le_u64_at(bytes, 32),
            quote_available: le_u64_at(bytes, 40),
            user_order_sectors: UserOrderSectors::decode_spec(bytes.subrange(48, 64)),
        }
    }

    open spec fn encode_spec(&self) -> Seq<u8> {
        self.user@ + le_u64(self.base_available) + le_u64(self.quote_available)
            + self.user_order_sectors.encode_spec()
    }

    fn validate_bit_patterns(bytes: &[u8]) -> (r: DropsetResult) {
        // All bit patterns are valid: no enums, bools, or other types with invalid states.
        Ok(())
    }

    fn load_unchecked(bytes: &[u8]) -> (r: MarketSeat) {
        let user: Pubkey = read_array(bytes, 0);
        let user_order_sectors = UserOrderSectors::read(bytes, 48);
        proof {
            lemma_array_from_seq(user);
        }
        MarketSeat {
            user,
            base_available: read_u64(bytes, 32),
            quote_available: read_u64(bytes, 40),
            user_order_sectors,
        }
    }

    fn to_bytes(&self) -> (r: Vec<u8>) {
        let mut out: Vec<u8> = Vec::new();
        push_bytes(&mut out, self.user.as_slice());
        push_u64(&mut out, self.base_available);
        push_u64(&mut out, self.quote_available);
        self.user_order_sectors.write(&mut out);
        proof {
            lemma_le_round_trip();
        }
        out
    }
}

/// Decoding the bytes of a seat gives the seat back, and the user is the first 32 bytes.
pub proof fn lemma_seat_round_trip(seat: MarketSeat)
    ensures
        seat.encode_spec().len() == NODE_PAYLOAD_SIZE,
        MarketSeat::decode_spec(seat.encode_spec()) == seat,
        seat_user_of(seat.encode_spec()) == seat.user@,
{
    lemma_le_round_trip();
    let b = seat.encode_spec();
    assert(b.subrange(0, 32) =~= seat.user@);
    assert(b.subrange(32, 40) =~= le_u64(seat.base_available));
    assert(b.subrange(40, 48) =~= le_u64(seat.quote_available));
    lemma_user_order_sectors_round_trip(seat.user_order_sectors);
    assert(b.subrange(48, 64) =~= seat.user_order_sectors.encode_spec());
    lemma_array_from_seq(seat.user);
}

/// Encoding the seat that any payload decodes to gives that payload back.
pub proof fn lemma_seat_bytes_round_trip(b: Seq<u8>)
    requires
        b.len() == NODE_PAYLOAD_SIZE,
    ensures
        MarketSeat::decode_spec(b).encode_spec() == b,
{
    vstd::bytes::lemma_auto_spec_u64_to_from_le_bytes();
    crate::le_bytes::lemma_array_from_seq_view::<32>(b.subrange(0, 32));
    lemma_user_order_sectors_bytes_round_trip(b.subrange(48, 64));
    let s = MarketSeat::decode_spec(b);
    assert(le_u64(s.base_available) == b.subrange(32, 40));
    assert(le_u64(s.quote_available) == b.subrange(40, 48));
    assert(s.user_order_sectors.encode_spec() == b.subrange(48, 64));
    assert(s.encode_spec() =~= b);
}

impl crate::state::node::NodePayload for MarketSeat {}

impl crate::state::node::AllBitPatternsValid for MarketSeat {}

} // verus!
