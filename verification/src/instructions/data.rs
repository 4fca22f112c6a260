//! The argument layouts of the instructions: each argument little-endian, in order, a `bool` as one
//! byte (0 or 1), preceded on the wire by the instruction's tag byte.

use vstd::prelude::*;

use crate::error::DropsetError;
use crate::instructions::{
    instruction_tag_spec,
    DropsetInstruction,
};
use crate::le_bytes::{
    le_u16,
    le_u16_at,
    le_u32,
    le_u32_at,
    le_u64,
    le_u64_at,
    lemma_le_round_trip,
    push_u16,
    push_u32,
    push_u64,
    read_u16,
    read_u32,
    read_u64,
};
use crate::price::OrderInfoArgs;
use crate::state::sector::SectorIndex;

verus! {

/// The byte of a `bool`.
pub open spec fn bool_byte(b: bool) -> u8 {
    if b {
        1
    } else {
        0
    }
}

/// The `bool` that a byte encodes, if it is 0 or 1.
pub open spec fn byte_bool(x: u8) -> Option<bool> {
    if x == 0 {
        Some(false)
    } else if x == 1 {
        Some(true)
    } else {
        None
    }
}

/// Reads the `bool` at `offset`, failing with `InvalidInstructionData` unless the byte is 0 or 1.
fn read_bool(data: &[u8], offset: usize) -> (r: Result<bool, DropsetError>)
    requires
        offset < data@.len(),
    ensures
        r == match byte_bool(data@[offset as int]) {
            Some(b) => Ok::<bool, DropsetError>(b),
            None => Err(DropsetError::InvalidInstructionData),
        },
{
    let x = data[offset];
    if x == 0 {
        Ok(false)
    } else if x == 1 {
        Ok(true)
    } else {
        Err(DropsetError::InvalidInstructionData)
    }
}

/// Appends the byte of a `bool`.
pub(crate) fn push_bool(out: &mut Vec<u8>, b: bool)
    ensures
        final(out)@ == old(out)@.push(bool_byte(b)),
{
    out.push(if b {
        1
    } else {
        0
    });
}

/// The arguments of `CloseSeat`: the sector of the user's seat.
#[derive(Clone, Copy, Debug, PartialEq, Eq, Structural)]
pub struct CloseSeatInstructionData {
    pub sector_index_hint: SectorIndex,
}

impl CloseSeatInstructionData {
    pub open spec fn args_spec(&self) -> Seq<u8> {
        le_u32(self.sector_index_hint)
    }

    pub open spec fn decode_spec(data: Seq<u8>) -> Option<Self> {
        if data.len() < 4 {
            None
        } else {
            Some(CloseSeatInstructionData { sector_index_hint: le_u32_at(data, 0) })
        }
    }

    /// The tag byte followed by the arguments.
    pub fn pack_instruction_data(&self) -> (r: Vec<u8>)
        ensures
            r@ == seq![instruction_tag_spec(DropsetInstruction::CloseSeat)] + self.args_spec(),
            r@.len() == 5 && r@[0] == instruction_tag_spec(DropsetInstruction::CloseSeat),
            vstd::bytes::spec_u32_from_le_bytes(r@.subrange(1, 5)) == self.sector_index_hint,
    {
        let mut out: Vec<u8> = Vec::new();
        out.push(DropsetInstruction::CloseSeat.tag());
        push_u32(&mut out, self.sector_index_hint);
        proof {
            lemma_le_round_trip();
            assert(out@.subrange(1, 5) =~= le_u32(self.sector_index_hint));
        }
        out
    }

    /// Reads the arguments (after the tag byte); fails with `InvalidInstructionData` when the data
    /// is too short.
    pub fn unpack(data: &[u8]) -> (r: Result<Self, DropsetError>)
        ensures
            r == match Self::decode_spec(data@) {
                Some(v) => Ok::<Self, DropsetError>(v),
                None => Err(DropsetError::InvalidInstructionData),
            },
            r is Ok <==> data@.len() >= 4,
            r matches Ok(d) ==> d.sector_index_hint == vstd::bytes::spec_u32_from_le_bytes(data@.subrange(0, 4)),
    {
        if data.len() < 4 {
            return Err(DropsetError::InvalidInstructionData);
        }
        Ok(CloseSeatInstructionData { sector_index_hint: read_u32(data, 0) })
    }
}

/// The arguments of `Deposit` and `Withdraw`: an amount and the sector of the user's seat ([`crate::state::sector::NIL`]
/// when a deposit registers a new seat).
#[derive(Clone, Copy, Debug, PartialEq, Eq, Structural)]
pub struct AmountInstructionData {
    pub amount: u64,
    pub sector_index_hint: SectorIndex,
}

impl AmountInstructionData {
    pub open spec fn args_spec(&self) -> Seq<u8> {
        le_u64(self.amount) + le_u32(self.sector_index_hint)
    }

    pub open spec fn decode_spec(data: Seq<u8>) -> Option<Self> {
        if data.len() < 12 {
            None
        } else {
            Some(
                AmountInstructionData {
                    amount: le_u64_at(data, 0),
                    sector_index_hint: le_u32_at(data, 8),
                },
            )
        }
    }

    /// The tag byte of `instruction` followed by the arguments.
    pub fn pack_instruction_data(&self, instruction: DropsetInstruction) -> (r: Vec<u8>)
        ensures
            r@ == seq![instruction_tag_spec(instruction)] + self.args_spec(),
            r@.len() == 13 && r@[0] == instruction_tag_spec(instruction),
            vstd::bytes::spec_u64_from_le_bytes(r@.subrange(1, 9)) == self.amount,
            vstd::bytes::spec_u32_from_le_bytes(r@.subrange(9, 13)) == self.sector_index_hint,
    {
        let mut out: Vec<u8> = Vec::new();
        out.push(instruction.tag());
        push_u64(&mut out, self.amount);
        push_u32(&mut out, self.sector_index_hint);
        assert(out@ =~= seq![instruction_tag_spec(instruction)] + self.args_spec());
        proof {
            lemma_le_round_trip();
            assert(out@.subrange(1, 9) =~= le_u64(self.amount));
            assert(out@.subrange(9, 13) =~= le_u32(self.sector_index_hint));
        }
        out
    }

    /// Reads the arguments (after the tag byte); fails with `InvalidInstructionData` when the data
    /// is too short.
    pub fn unpack(data: &[u8]) -> (r: Result<Self, DropsetError>)
        ensures
            r == match Self::decode_spec(data@) {
                Some(v) => Ok::<Self, DropsetError>(v),
                None => Err(DropsetError::InvalidInstructionData),
            },
            r is Ok <==> data@.len() >= 12,
            r matches Ok(d) ==> d.amount == vstd::bytes::spec_u64_from_le_bytes(data@.subrange(0, 8)) && d.sector_index_hint
                == vstd::bytes::spec_u32_from_le_bytes(data@.subrange(8, 12)),
    {
        if data.len() < 12 {
            return Err(DropsetError::InvalidInstructionData);
        }
        Ok(AmountInstructionData { amount: read_u64(data, 0), sector_index_hint: read_u32(data, 8) })
    }
}

/// The arguments of `RegisterMarket`: the number of sectors to allocate.
#[derive(Clone, Copy, Debug, PartialEq, Eq, Structural)]
pub struct RegisterMarketInstructionData {
    pub num_sectors: u16,
}

impl RegisterMarketInstructionData {
    pub open spec fn args_spec(&self) -> Seq<u8> {
        le_u16(self.num_sectors)
    }

    pub open spec fn decode_spec(data: Seq<u8>) -> Option<Self> {
        if data.len() < 2 {
            None
        } else {
            Some(RegisterMarketInstructionData { num_sectors: le_u16_at(data, 0) })
        }
    }

    /// The tag byte followed by the arguments.
    pub fn pack_instruction_data(&self) -> (r: Vec<u8>)
        ensures
            r@ == seq![instruction_tag_spec(DropsetInstruction::RegisterMarket)]
                + self.args_spec(),
            r@.len() == 3 && r@[0] == instruction_tag_spec(DropsetInstruction::RegisterMarket),
            vstd::bytes::spec_u16_from_le_bytes(r@.subrange(1, 3)) == self.num_sectors,
    {
        let mut out: Vec<u8> = Vec::new();
        out.push(DropsetInstruction::RegisterMarket.tag());
        push_u16(&mut out, self.num_sectors);
        proof {
            lemma_le_round_trip();
            assert(out@.subrange(1, 3) =~= le_u16(self.num_sectors));
        }
        out
    }

    /// Reads the arguments (after the tag byte); fails with `InvalidInstructionData` when the data
    /// is too short.
    pub fn unpack(data: &[u8]) -> (r: Result<Self, DropsetError>)
        ensures
            r == match Self::decode_spec(data@) {
                Some(v) => Ok::<Self, DropsetError>(v),
                None => Err(DropsetError::InvalidInstructionData),
            },
            r is Ok <==> data@.len() >= 2,
            r matches Ok(d) ==> d.num_sectors == vstd::bytes::spec_u16_from_le_bytes(data@.subrange(0, 2)),
    {
        if data.len() < 2 {
            return Err(DropsetError::InvalidInstructionData);
        }
        Ok(RegisterMarketInstructionData { num_sectors: read_u16(data, 0) })
    }
}

/// The arguments of `PostOrder`: the order's price and size inputs, its side and the sector of
/// the user's seat.
#[derive(Clone, Copy, Debug, PartialEq, Eq, Structural)]
pub struct PostOrderInstructionData {
    pub order_info_args: OrderInfoArgs,
    pub is_bid: bool,
    pub user_sector_index_hint: SectorIndex,
}

impl PostOrderInstructionData {
    pub open spec fn args_spec(&self) -> Seq<u8> {
        le_u32(self.order_info_args.price_mantissa) + le_u64(self.order_info_args.base_scalar)
            + seq![self.order_info_args.base_exponent_biased]
            + seq![self.order_info_args.quote_exponent_biased] + seq![bool_byte(self.is_bid)]
            + le_u32(self.user_sector_index_hint)
    }

    pub open spec fn decode_spec(data: Seq<u8>) -> Option<Self> {
        if data.len() < 19 {
            None
        } else {
            match byte_bool(data[14]) {
                None => None,
                Some(is_bid) => Some(
                    PostOrderInstructionData {
                        order_info_args: OrderInfoArgs {
                            price_mantissa: le_u32_at(data, 0),
                            base_scalar: le_u64_at(data, 4),
                            base_exponent_biased: data[12],
                            quote_exponent_biased: data[13],
                        },
                        is_bid,
                        user_sector_index_hint: le_u32_at(data, 15),
                    },
                ),
            }
        }
    }

    /// The tag byte followed by the arguments.
    pub fn pack_instruction_data(&self) -> (r: Vec<u8>)
        ensures
            r@ == seq![instruction_tag_spec(DropsetInstruction::PostOrder)] + self.args_spec(),
            r@.len() == 20 && r@[0] == instruction_tag_spec(DropsetInstruction::PostOrder),
            vstd::bytes::spec_u32_from_le_bytes(r@.subrange(1, 5)) == self.order_info_args.price_mantissa,
            vstd::bytes::spec_u64_from_le_bytes(r@.subrange(5, 13)) == self.order_info_args.base_scalar,
            r@[13] == self.order_info_args.base_exponent_biased,
            r@[14] == self.order_info_args.quote_exponent_biased,
            r@[15] == (if self.is_bid {
                1u8
            } else {
                0u8
            }),
            vstd::bytes::spec_u32_from_le_bytes(r@.subrange(16, 20)) == self.user_sector_index_hint,
    {
        let mut out: Vec<u8> = Vec::new();
        out.push(DropsetInstruction::PostOrder.tag());
        push_u32(&mut out, self.order_info_args.price_mantissa);
        push_u64(&mut out, self.order_info_args.base_scalar);
        out.push(self.order_info_args.base_exponent_biased);
        out.push(self.order_info_args.quote_exponent_biased);
        push_bool(&mut out, self.is_bid);
        push_u32(&mut out, self.user_sector_index_hint);
        assert(out@ =~= seq![instruction_tag_spec(DropsetInstruction::PostOrder)]
            + self.args_spec());
        proof {
            lemma_le_round_trip();
            assert(out@.subrange(1, 5) =~= le_u32(self.order_info_args.price_mantissa));
            assert(out@.subrange(5, 13) =~= le_u64(self.order_info_args.base_scalar));
            assert(out@.subrange(16, 20) =~= le_u32(self.user_sector_index_hint));
        }
        out
    }

    /// Reads the arguments (after the tag byte); fails with `InvalidInstructionData` when the data
    /// is too short or the side byte is neither 0 nor 1.
    pub fn unpack(data: &[u8]) -> (r: Result<Self, DropsetError>)
        ensures
            r == match Self::decode_spec(data@) {
                Some(v) => Ok::<Self, DropsetError>(v),
                None => Err(DropsetError::InvalidInstructionData),
            },
            r is Ok <==> data@.len() >= 19 && data@[14] <= 1,
            r matches Ok(d) ==> {
                &&& d.order_info_args.price_mantissa == vstd::bytes::spec_u32_from_le_bytes(data@.subrange(0, 4))
                &&& d.order_info_args.base_scalar == vstd::bytes::spec_u64_from_le_bytes(data@.subrange(4, 12))
                &&& d.order_info_args.base_exponent_biased == data@[12]
                &&& d.order_info_args.quote_exponent_biased == data@[13]
                &&& d.is_bid == (data@[14] == 1)
                &&& d.user_sector_index_hint == vstd::bytes::spec_u32_from_le_bytes(data@.subrange(15, 19))
            },
    {
        if data.len() < 19 {
            return Err(DropsetError::InvalidInstructionData);
        }
        let is_bid = read_bool(data, 14)?;
        Ok(
            PostOrderInstructionData {
                order_info_args: OrderInfoArgs {
                    price_mantissa: read_u32(data, 0),
                    base_scalar: read_u64(data, 4),
                    base_exponent_biased: data[12],
                    quote_exponent_biased: data[13],
                },
                is_bid,
                user_sector_index_hint: read_u32(data, 15),
            },
        )
    }
}

/// The arguments of `CancelOrder`: the order's encoded price, its side and the sector of the
/// user's seat.
#[derive(Clone, Copy, Debug, PartialEq, Eq, Structural)]
pub struct CancelOrderInstructionData {
    pub encoded_price: u32,
    pub is_bid: bool,
    pub user_sector_index_hint: SectorIndex,
}

impl CancelOrderInstructionData {
    pub open spec fn args_spec(&self) -> Seq<u8> {
        le_u32(self.encoded_price) + seq![bool_byte(self.is_bid)] + le_u32(
            self.user_sector_index_hint,
        )
    }

    pub open spec fn decode_spec(data: Seq<u8>) -> Option<Self> {
        if data.len() < 9 {
            None
        } else {
            match byte_bool(data[4]) {
                None => None,
                Some(is_bid) => Some(
                    CancelOrderInstructionData {
                        encoded_price: le_u32_at(data, 0),
                        is_bid,
                        user_sector_index_hint: le_u32_at(data, 5),
                    },
                ),
            }
        }
    }

    /// The tag byte followed by the arguments.
    pub fn pack_instruction_data(&self) -> (r: Vec<u8>)
        ensures
            r@ == seq![instruction_tag_spec(DropsetInstruction::CancelOrder)] + self.args_spec(),
            r@.len() == 10 && r@[0] == instruction_tag_spec(DropsetInstruction::CancelOrder),
            vstd::bytes::spec_u32_from_le_bytes(r@.subrange(1, 5)) == self.encoded_price,
            r@[5] == (if self.is_bid {
                1u8
            } else {
                0u8
            }),
            vstd::bytes::spec_u32_from_le_bytes(r@.subrange(6, 10)) == self.user_sector_index_hint,
    {
        let mut out: Vec<u8> = Vec::new();
        out.push(DropsetInstruction::CancelOrder.tag());
        push_u32(&mut out, self.encoded_price);
        push_bool(&mut out, self.is_bid);
        push_u32(&mut out, self.user_sector_index_hint);
        assert(out@ =~= seq![instruction_tag_spec(DropsetInstruction::CancelOrder)]
            + self.args_spec());
        proof {
            lemma_le_round_trip();
            assert(out@.subrange(1, 5) =~= le_u32(self.encoded_price));
            assert(out@.subrange(6, 10) =~= le_u32(self.user_sector_index_hint));
        }
        out
    }

    /// Reads the arguments (after the tag byte); fails with `InvalidInstructionData` when the data
    /// is too short or the side byte is neither 0 nor 1.
    pub fn unpack(data: &[u8]) -> (r: Result<Self, DropsetError>)
        ensures
            r == match Self::decode_spec(data@) {
                Some(v) => Ok::<Self, DropsetError>(v),
                None => Err(DropsetError::InvalidInstructionData),
            },
            r is Ok <==> data@.len() >= 9 && data@[4] <= 1,
            r matches Ok(d) ==> {
                &&& d.encoded_price == vstd::bytes::spec_u32_from_le_bytes(data@.subrange(0, 4))
                &&& d.is_bid == (data@[4] == 1)
                &&& d.user_sector_index_hint == vstd::bytes::spec_u32_from_le_bytes(data@.subrange(5, 9))
            },
    {
        if data.len() < 9 {
            return Err(DropsetError::InvalidInstructionData);
        }
        let is_bid = read_bool(data, 4)?;
        Ok(
            CancelOrderInstructionData {
                encoded_price: read_u32(data, 0),
                is_bid,
                user_sector_index_hint: read_u32(data, 5),
            },
        )
    }
}

/// The arguments of `MarketOrder`: the size in atoms, the direction and the mint the size is
/// denominated in.
#[derive(Clone, Copy, Debug, PartialEq, Eq, Structural)]
pub struct MarketOrderInstructionData {
    pub order_size: u64,
    pub is_buy: bool,
    pub is_base: bool,
}

impl MarketOrderInstructionData {
    pub open spec fn args_spec(&self) -> Seq<u8> {
        le_u64(self.order_size) + seq![bool_byte(self.is_buy)] + seq![bool_byte(self.is_base)]
    }

    pub open spec fn decode_spec(data: Seq<u8>) -> Option<Self> {
        if data.len() < 10 {
            None
        } else {
            match (byte_bool(data[8]), byte_bool(data[9])) {
                (Some(is_buy), Some(is_base)) => Some(
                    MarketOrderInstructionData { order_size: le_u64_at(data, 0), is_buy, is_base },
                ),
                _ => None,
            }
        }
    }

    /// The tag byte followed by the arguments.
    pub fn pack_instruction_data(&self) -> (r: Vec<u8>)
        ensures
            r@ == seq![instruction_tag_spec(DropsetInstruction::MarketOrder)] + self.args_spec(),
            r@.len() == 11 && r@[0] == instruction_tag_spec(DropsetInstruction::MarketOrder),
            vstd::bytes::spec_u64_from_le_bytes(r@.subrange(1, 9)) == self.order_size,
            r@[9] == (if self.is_buy {
                1u8
            } else {
                0u8
            }),
            r@[10] == (if self.is_base {
                1u8
            } else {
                0u8
            }),
    {
        let mut out: Vec<u8> = Vec::new();
        out.push(DropsetInstruction::MarketOrder.tag());
        push_u64(&mut out, self.order_size);
        push_bool(&mut out, self.is_buy);
        push_bool(&mut out, self.is_base);
        assert(out@ =~= seq![instruction_tag_spec(DropsetInstruction::MarketOrder)]
            + self.args_spec());
        proof {
            lemma_le_round_trip();
            assert(out@.subrange(1, 9) =~= le_u64(self.order_size));
        }
        out
    }

    /// Reads the arguments (after the tag byte); fails with `InvalidInstructionData` when the data
    /// is too short or a flag byte is neither 0 nor 1.
    pub fn unpack(data: &[u8]) -> (r: Result<Self, DropsetError>)
        ensures
            r == match Self::decode_spec(data@) {
                Some(v) => Ok::<Self, DropsetError>(v),
                None => Err(DropsetError::InvalidInstructionData),
            },
            r is Ok <==> data@.len() >= 10 && data@[8] <= 1 && data@[9] <= 1,
            r matches Ok(d) ==> {
                &&& d.order_size == vstd::bytes::spec_u64_from_le_bytes(data@.subrange(0, 8))
                &&& d.is_buy == (data@[8] == 1)
                &&& d.is_base == (data@[9] == 1)
            },
    {
        if data.len() < 10 {
            return Err(DropsetError::InvalidInstructionData);
        }
        let is_buy = read_bool(data, 8)?;
        let is_base = read_bool(data, 9)?;
        Ok(MarketOrderInstructionData { order_size: read_u64(data, 0), is_buy, is_base })
    }
}

/// Law: the arguments of every instruction read back as they were packed.
pub proof fn lemma_instruction_data_round_trip(
    close: CloseSeatInstructionData,
    amount: AmountInstructionData,
    register: RegisterMarketInstructionData,
    post: PostOrderInstructionData,
    cancel: CancelOrderInstructionData,
    market: MarketOrderInstructionData,
)
    ensures
        CloseSeatInstructionData::decode_spec(close.args_spec()) == Some(close),
        AmountInstructionData::decode_spec(amount.args_spec()) == Some(amount),
        RegisterMarketInstructionData::decode_spec(register.args_spec()) == Some(register),
        PostOrderInstructionData::decode_spec(post.args_spec()) == Some(post),
        CancelOrderInstructionData::decode_spec(cancel.args_spec()) == Some(cancel),
        MarketOrderInstructionData::decode_spec(market.args_spec()) == Some(market),
{
    lemma_le_round_trip();
    assert(le_u32(close.sector_index_hint).len() == 4);
    assert(close.args_spec().subrange(0, 4) =~= le_u32(close.sector_index_hint));
    let a = amount.args_spec();
    assert(le_u64(amount.amount).len() == 8 && le_u32(amount.sector_index_hint).len() == 4);
    assert(a.subrange(0, 8) =~= le_u64(amount.amount));
    assert(a.subrange(8, 12) =~= le_u32(amount.sector_index_hint));
    assert(le_u16(register.num_sectors).len() == 2);
    assert(register.args_spec().subrange(0, 2) =~= le_u16(register.num_sectors));
    let p = post.args_spec();
    assert(le_u32(post.order_info_args.price_mantissa).len() == 4);
    assert(le_u64(post.order_info_args.base_scalar).len() == 8);
    assert(le_u32(post.user_sector_index_hint).len() == 4);
    assert(p.subrange(0, 4) =~= le_u32(post.order_info_args.price_mantissa));
    assert(p.subrange(4, 12) =~= le_u64(post.order_info_args.base_scalar));
    assert(p.subrange(15, 19) =~= le_u32(post.user_sector_index_hint));
    assert(p[12] == post.order_info_args.base_exponent_biased);
    assert(p[13] == post.order_info_args.quote_exponent_biased);
    assert(p[14] == bool_byte(post.is_bid));
    let c = cancel.args_spec();
    assert(le_u32(cancel.encoded_price).len() == 4);
    assert(le_u32(cancel.user_sector_index_hint).len() == 4);
    assert(c.subrange(0, 4) =~= le_u32(cancel.encoded_price));
    assert(c.subrange(5, 9) =~= le_u32(cancel.user_sector_index_hint));
    assert(c[4] == bool_byte(cancel.is_bid));
    let m = market.args_spec();
    assert(le_u64(market.order_size).len() == 8);
    assert(m.subrange(0, 8) =~= le_u64(market.order_size));
    assert(m[8] == bool_byte(market.is_buy));
    assert(m[9] == bool_byte(market.is_base));
}

/// Law: the wire layout of the `PostOrder` arguments, by byte offset: the price mantissa at 0..4,
/// the base scalar at 4..12, the base exponent byte at 12, the quote exponent byte at 13, the side
/// byte at 14 (1 for a bid, 0 for an ask) and the seat sector at 15..19, integers little-endian.
/// Data is read exactly when it holds all 19 bytes and a side byte of 0 or 1, and packing writes
/// that layout.
pub proof fn lemma_post_order_layout(data: Seq<u8>, post: PostOrderInstructionData)
    ensures
        PostOrderInstructionData::decode_spec(data) is Some <==> data.len() >= 19 && data[14] <= 1,
        PostOrderInstructionData::decode_spec(data) matches Some(d) ==> {
            &&& d.order_info_args.price_mantissa == vstd::bytes::spec_u32_from_le_bytes(data.subrange(0, 4))
            &&& d.order_info_args.base_scalar == vstd::bytes::spec_u64_from_le_bytes(data.subrange(4, 12))
            &&& d.order_info_args.base_exponent_biased == data[12]
            &&& d.order_info_args.quote_exponent_biased == data[13]
            &&& d.is_bid == (data[14] == 1)
            &&& d.user_sector_index_hint == vstd::bytes::spec_u32_from_le_bytes(data.subrange(15, 19))
        },
        post.args_spec().len() == 19,
        vstd::bytes::spec_u32_from_le_bytes(post.args_spec().subrange(0, 4)) == post.order_info_args.price_mantissa,
        vstd::bytes::spec_u64_from_le_bytes(post.args_spec().subrange(4, 12)) == post.order_info_args.base_scalar,
        post.args_spec()[12] == post.order_info_args.base_exponent_biased,
        post.args_spec()[13] == post.order_info_args.quote_exponent_biased,
        post.args_spec()[14] == (if post.is_bid {
            1u8
        } else {
            0u8
        }),
        vstd::bytes::spec_u32_from_le_bytes(post.args_spec().subrange(15, 19)) == post.user_sector_index_hint,
{
    lemma_le_round_trip();
    let p = post.args_spec();
    assert(p.subrange(0, 4) =~= le_u32(post.order_info_args.price_mantissa));
    assert(p.subrange(4, 12) =~= le_u64(post.order_info_args.base_scalar));
    assert(p.subrange(15, 19) =~= le_u32(post.user_sector_index_hint));
}

/// Law: the wire layouts of the other instructions' arguments, by byte offset (integers
/// little-endian, flags as one byte that must be 0 or 1): `CloseSeat` the seat sector at 0..4;
/// `Deposit` and `Withdraw` the amount at 0..8 and the seat sector at 8..12; `RegisterMarket` the
/// number of sectors at 0..2; `CancelOrder` the encoded price at 0..4, the side byte at 4 and the
/// seat sector at 5..9; `MarketOrder` the size at 0..8, the buy byte at 8 and the base byte at 9.
pub proof fn lemma_instruction_data_layouts(data: Seq<u8>)
    ensures
        CloseSeatInstructionData::decode_spec(data) is Some <==> data.len() >= 4,
        CloseSeatInstructionData::decode_spec(data) matches Some(d) ==> d.sector_index_hint
            == vstd::bytes::spec_u32_from_le_bytes(data.subrange(0, 4)),
        AmountInstructionData::decode_spec(data) is Some <==> data.len() >= 12,
        AmountInstructionData::decode_spec(data) matches Some(d) ==> d.amount == vstd::bytes::spec_u64_from_le_bytes(
            data.subrange(0, 8),
        ) && d.sector_index_hint == vstd::bytes::spec_u32_from_le_bytes(data.subrange(8, 12)),
        RegisterMarketInstructionData::decode_spec(data) is Some <==> data.len() >= 2,
        RegisterMarketInstructionData::decode_spec(data) matches Some(d) ==> d.num_sectors
            == vstd::bytes::spec_u16_from_le_bytes(data.subrange(0, 2)),
        CancelOrderInstructionData::decode_spec(data) is Some <==> data.len() >= 9 && data[4] <= 1,
        CancelOrderInstructionData::decode_spec(data) matches Some(d) ==> d.encoded_price
            == vstd::bytes::spec_u32_from_le_bytes(data.subrange(0, 4)) && d.is_bid == (data[4] == 1) && d.user_sector_index_hint
            == vstd::bytes::spec_u32_from_le_bytes(data.subrange(5, 9)),
        MarketOrderInstructionData::decode_spec(data) is Some <==> data.len() >= 10 && data[8] <= 1
            && data[9] <= 1,
        MarketOrderInstructionData::decode_spec(data) matches Some(d) ==> d.order_size == vstd::bytes::spec_u64_from_le_bytes(
            data.subrange(0, 8),
        ) && d.is_buy == (data[8] == 1) && d.is_base == (data[9] == 1),
{
}

} // verus!
