//! The events the program emits: their tags, their fields and their bytes (the tag, then the
//! fields in order, integers little-endian and `bool`s as one byte).

use vstd::prelude::*;

use crate::error::DropsetError;
use crate::instructions::data::{
    bool_byte,
    push_bool,
};
use crate::le_bytes::{
    le_u16,
    le_u32,
    le_u64,
    push_bytes,
    push_u16,
    push_u32,
    push_u64,
};
use crate::state::Pubkey;

verus! {

/// Every event the program emits, tagged by its position in this list.
#[derive(Clone, Copy, Debug, PartialEq, Eq, Structural)]
pub enum DropsetEventTag {
    HeaderEvent,
    DepositEvent,
    WithdrawEvent,
    RegisterMarketEvent,
    PostOrderEvent,
    CancelOrderEvent,
    MarketOrderEvent,
    CloseSeatEvent,
}

/// The tag byte of an event.
pub open spec fn event_tag_spec(e: DropsetEventTag) -> u8 {
    match e {
        DropsetEventTag::HeaderEvent => 0,
        DropsetEventTag::DepositEvent => 1,
        DropsetEventTag::WithdrawEvent => 2,
        DropsetEventTag::RegisterMarketEvent => 3,
        DropsetEventTag::PostOrderEvent => 4,
        DropsetEventTag::CancelOrderEvent => 5,
        DropsetEventTag::MarketOrderEvent => 6,
        DropsetEventTag::CloseSeatEvent => 7,
    }
}

impl DropsetEventTag {
    /// The tag byte of the event.
    pub fn tag(self) -> (r: u8)
        ensures
            r == event_tag_spec(self),
    {
        match self {
            DropsetEventTag::HeaderEvent => 0,
            DropsetEventTag::DepositEvent => 1,
            DropsetEventTag::WithdrawEvent => 2,
            DropsetEventTag::RegisterMarketEvent => 3,
            DropsetEventTag::PostOrderEvent => 4,
            DropsetEventTag::CancelOrderEvent => 5,
            DropsetEventTag::MarketOrderEvent => 6,
            DropsetEventTag::CloseSeatEvent => 7,
        }
    }

    /// The event with tag byte `tag`; fails with `InvalidInstructionEventTag` for any other byte.
    pub fn try_from(tag: u8) -> (r: Result<DropsetEventTag, DropsetError>)
        ensures
            tag <= 7 ==> (r matches Ok(e) && event_tag_spec(e) == tag),
            tag > 7 ==> r == Err::<DropsetEventTag, DropsetError>(
                DropsetError::InvalidInstructionEventTag,
            ),
    {
        match tag {
            0 => Ok(DropsetEventTag::HeaderEvent),
            1 => Ok(DropsetEventTag::DepositEvent),
            2 => Ok(DropsetEventTag::WithdrawEvent),
            3 => Ok(DropsetEventTag::RegisterMarketEvent),
            4 => Ok(DropsetEventTag::PostOrderEvent),
            5 => Ok(DropsetEventTag::CancelOrderEvent),
            6 => Ok(DropsetEventTag::MarketOrderEvent),
            7 => Ok(DropsetEventTag::CloseSeatEvent),
            _ => Err(DropsetError::InvalidInstructionEventTag),
        }
    }
}

/// Where each field of an event sits in its bytes.
proof fn lemma_event_bytes(e: DropsetEvent, r: Seq<u8>)
    requires
        r == seq![event_tag_spec(e.tag_spec())] + e.fields_spec(),
    ensures
        match e {
            DropsetEvent::Header { instruction_tag, emitted_count, num_events, market } => {
                &&& r.len() == 44 && r[0] == 0 && r[1] == instruction_tag
                &&& vstd::bytes::spec_u16_from_le_bytes(r.subrange(2, 4)) == emitted_count
                &&& vstd::bytes::spec_u64_from_le_bytes(r.subrange(4, 12)) == num_events
                &&& r.subrange(12, 44) == market@
            },
            DropsetEvent::Deposit { amount, is_base, seat_sector_index } => {
                &&& r.len() == 14 && r[0] == 1
                &&& vstd::bytes::spec_u64_from_le_bytes(r.subrange(1, 9)) == amount
                &&& r[9] == bool_byte(is_base)
                &&& vstd::bytes::spec_u32_from_le_bytes(r.subrange(10, 14)) == seat_sector_index
            },
            DropsetEvent::Withdraw { amount, is_base } => {
                &&& r.len() == 10 && r[0] == 2
                &&& vstd::bytes::spec_u64_from_le_bytes(r.subrange(1, 9)) == amount
                &&& r[9] == bool_byte(is_base)
            },
            DropsetEvent::RegisterMarket { market } => r.len() == 33 && r[0] == 3 && r.subrange(1, 33)
                == market@,
            DropsetEvent::PostOrder {
                is_bid,
                user_seat_sector_index,
                order_sector_index,
                base_atoms,
                quote_atoms,
            } => {
                &&& r.len() == 26 && r[0] == 4
                &&& r[1] == bool_byte(is_bid)
                &&& vstd::bytes::spec_u32_from_le_bytes(r.subrange(2, 6)) == user_seat_sector_index
                &&& vstd::bytes::spec_u32_from_le_bytes(r.subrange(6, 10)) == order_sector_index
                &&& vstd::bytes::spec_u64_from_le_bytes(r.subrange(10, 18)) == base_atoms
                &&& vstd::bytes::spec_u64_from_le_bytes(r.subrange(18, 26)) == quote_atoms
            },
            DropsetEvent::CancelOrder { is_bid, user_seat_sector_index } => {
                &&& r.len() == 6 && r[0] == 5
                &&& r[1] == bool_byte(is_bid)
                &&& vstd::bytes::spec_u32_from_le_bytes(r.subrange(2, 6)) == user_seat_sector_index
            },
            DropsetEvent::MarketOrder { order_size, is_buy, is_base, base_filled, quote_filled } => {
                &&& r.len() == 27 && r[0] == 6
                &&& vstd::bytes::spec_u64_from_le_bytes(r.subrange(1, 9)) == order_size
                &&& r[9] == bool_byte(is_buy)
                &&& r[10] == bool_byte(is_base)
                &&& vstd::bytes::spec_u64_from_le_bytes(r.subrange(11, 19)) == base_filled
                &&& vstd::bytes::spec_u64_from_le_bytes(r.subrange(19, 27)) == quote_filled
            },
            DropsetEvent::CloseSeat { user_seat_sector_index } => r.len() == 5 && r[0] == 7
                && vstd::bytes::spec_u32_from_le_bytes(r.subrange(1, 5)) == user_seat_sector_index,
        },
{
    crate::le_bytes::lemma_le_round_trip();
    match e {
        DropsetEvent::Header { instruction_tag, emitted_count, num_events, market } => {
            assert(r.subrange(2, 4) =~= le_u16(emitted_count));
            assert(r.subrange(4, 12) =~= le_u64(num_events));
            assert(r.subrange(12, 44) =~= market@);
        },
        DropsetEvent::Deposit { amount, is_base, seat_sector_index } => {
            assert(r.subrange(1, 9) =~= le_u64(amount));
            assert(r.subrange(10, 14) =~= le_u32(seat_sector_index));
        },
        DropsetEvent::Withdraw { amount, is_base } => {
            assert(r.subrange(1, 9) =~= le_u64(amount));
        },
        DropsetEvent::RegisterMarket { market } => {
            assert(r.subrange(1, 33) =~= market@);
        },
        DropsetEvent::PostOrder {
            is_bid,
            user_seat_sector_index,
            order_sector_index,
            base_atoms,
            quote_atoms,
        } => {
            assert(r.subrange(2, 6) =~= le_u32(user_seat_sector_index));
            assert(r.subrange(6, 10) =~= le_u32(order_sector_index));
            assert(r.subrange(10, 18) =~= le_u64(base_atoms));
            assert(r.subrange(18, 26) =~= le_u64(quote_atoms));
        },
        DropsetEvent::CancelOrder { is_bid, user_seat_sector_index } => {
            assert(r.subrange(2, 6) =~= le_u32(user_seat_sector_index));
        },
        DropsetEvent::MarketOrder { order_size, is_buy, is_base, base_filled, quote_filled } => {
            assert(r.subrange(1, 9) =~= le_u64(order_size));
            assert(r.subrange(11, 19) =~= le_u64(base_filled));
            assert(r.subrange(19, 27) =~= le_u64(quote_filled));
        },
        DropsetEvent::CloseSeat { user_seat_sector_index } => {
            assert(r.subrange(1, 5) =~= le_u32(user_seat_sector_index));
        },
    }
}

/// An event with its fields.
#[derive(Clone, Copy, Debug, PartialEq, Eq)]
pub enum DropsetEvent {
    /// Heads the events an instruction emitted.
    Header {
        /// The tag of the instruction that emitted the following events.
        instruction_tag: u8,
        /// The number of events that follow.
        emitted_count: u16,
        /// The market's final, total number of events.
        num_events: u64,
        /// The market's address.
        market: Pubkey,
    },
    /// A deposit into a seat.
    Deposit {
        /// The amount deposited.
        amount: u64,
        /// Whether the base token was deposited (else the quote token).
        is_base: bool,
        /// The user's (possibly newly registered) seat sector.
        seat_sector_index: u32,
    },
    /// A withdrawal from a seat.
    Withdraw {
        /// The amount withdrawn.
        amount: u64,
        /// Whether the base token was withdrawn (else the quote token).
        is_base: bool,
    },
    /// A newly registered market.
    RegisterMarket {
        /// The market's address.
        market: Pubkey,
    },
    /// A posted order.
    PostOrder {
        /// Whether the order is a bid (else an ask).
        is_bid: bool,
        /// The user's seat sector.
        user_seat_sector_index: u32,
        /// The order's sector.
        order_sector_index: u32,
        /// The order's base atoms.
        base_atoms: u64,
        /// The order's quote atoms.
        quote_atoms: u64,
    },
    /// A cancelled order.
    CancelOrder {
        /// Whether the order was a bid (else an ask).
        is_bid: bool,
        /// The user's seat sector.
        user_seat_sector_index: u32,
    },
    /// A filled market order.
    MarketOrder {
        /// The order size in atoms.
        order_size: u64,
        /// Whether the order is a market buy (else a sell).
        is_buy: bool,
        /// Whether the order size is in base (else in quote).
        is_base: bool,
        /// The base atoms filled.
        base_filled: u64,
        /// The quote atoms filled.
        quote_filled: u64,
    },
    /// A closed seat.
    CloseSeat {
        /// The user's seat sector.
        user_seat_sector_index: u32,
    },
}

impl DropsetEvent {
    /// The event's tag.
    pub open spec fn tag_spec(self) -> DropsetEventTag {
        match self {
            DropsetEvent::Header { .. } => DropsetEventTag::HeaderEvent,
            DropsetEvent::Deposit { .. } => DropsetEventTag::DepositEvent,
            DropsetEvent::Withdraw { .. } => DropsetEventTag::WithdrawEvent,
            DropsetEvent::RegisterMarket { .. } => DropsetEventTag::RegisterMarketEvent,
            DropsetEvent::PostOrder { .. } => DropsetEventTag::PostOrderEvent,
            DropsetEvent::CancelOrder { .. } => DropsetEventTag::CancelOrderEvent,
            DropsetEvent::MarketOrder { .. } => DropsetEventTag::MarketOrderEvent,
            DropsetEvent::CloseSeat { .. } => DropsetEventTag::CloseSeatEvent,
        }
    }

    /// The event's fields as bytes, in order.
    pub open spec fn fields_spec(self) -> Seq<u8> {
        match self {
            DropsetEvent::Header { instruction_tag, emitted_count, num_events, market } => seq![
                instruction_tag,
            ] + le_u16(emitted_count) + le_u64(num_events) + market@,
            DropsetEvent::Deposit { amount, is_base, seat_sector_index } => le_u64(amount) + seq![
                bool_byte(is_base),
            ] + le_u32(seat_sector_index),
            DropsetEvent::Withdraw { amount, is_base } => le_u64(amount) + seq![bool_byte(is_base)],
            DropsetEvent::RegisterMarket { market } => market@,
            DropsetEvent::PostOrder {
                is_bid,
                user_seat_sector_index,
                order_sector_index,
                base_atoms,
                quote_atoms,
            } => seq![bool_byte(is_bid)] + le_u32(user_seat_sector_index) + le_u32(
                order_sector_index,
            ) + le_u64(base_atoms) + le_u64(quote_atoms),
            DropsetEvent::CancelOrder { is_bid, user_seat_sector_index } => seq![
                bool_byte(is_bid),
            ] + le_u32(user_seat_sector_index),
            DropsetEvent::MarketOrder { order_size, is_buy, is_base, base_filled, quote_filled } =>
                le_u64(order_size) + seq![bool_byte(is_buy), bool_byte(is_base)] + le_u64(
                base_filled,
            ) + le_u64(quote_filled),
            DropsetEvent::CloseSeat { user_seat_sector_index } => le_u32(user_seat_sector_index),
        }
    }

    /// The event's tag.
    pub fn tag(&self) -> (r: DropsetEventTag)
        ensures
            r == self.tag_spec(),
    {
        match self {
            DropsetEvent::Header { .. } => DropsetEventTag::HeaderEvent,
            DropsetEvent::Deposit { .. } => DropsetEventTag::DepositEvent,
            DropsetEvent::Withdraw { .. } => DropsetEventTag::WithdrawEvent,
            DropsetEvent::RegisterMarket { .. } => DropsetEventTag::RegisterMarketEvent,
            DropsetEvent::PostOrder { .. } => DropsetEventTag::PostOrderEvent,
            DropsetEvent::CancelOrder { .. } => DropsetEventTag::CancelOrderEvent,
            DropsetEvent::MarketOrder { .. } => DropsetEventTag::MarketOrderEvent,
            DropsetEvent::CloseSeat { .. } => DropsetEventTag::CloseSeatEvent,
        }
    }

    /// The event's bytes: its tag byte, then its fields.
    pub fn pack(&self) -> (r: Vec<u8>)
        ensures
            r@ == seq![event_tag_spec(self.tag_spec())] + self.fields_spec(),
            match *self {
                DropsetEvent::Header { instruction_tag, emitted_count, num_events, market } => {
                    &&& r@.len() == 44 && r@[0] == 0 && r@[1] == instruction_tag
                    &&& vstd::bytes::spec_u16_from_le_bytes(r@.subrange(2, 4)) == emitted_count
                    &&& vstd::bytes::spec_u64_from_le_bytes(r@.subrange(4, 12)) == num_events
                    &&& r@.subrange(12, 44) == market@
                },
                DropsetEvent::Deposit { amount, is_base, seat_sector_index } => {
                    &&& r@.len() == 14 && r@[0] == 1
                    &&& vstd::bytes::spec_u64_from_le_bytes(r@.subrange(1, 9)) == amount
                    &&& r@[9] == (if is_base {
                    1u8
                } else {
                    0u8
                })
                    &&& vstd::bytes::spec_u32_from_le_bytes(r@.subrange(10, 14)) == seat_sector_index
                },
                DropsetEvent::Withdraw { amount, is_base } => {
                    &&& r@.len() == 10 && r@[0] == 2
                    &&& vstd::bytes::spec_u64_from_le_bytes(r@.subrange(1, 9)) == amount
                    &&& r@[9] == (if is_base {
                    1u8
                } else {
                    0u8
                })
                },
                DropsetEvent::RegisterMarket { market } => r@.len() == 33 && r@[0] == 3
                    && r@.subrange(1, 33) == market@,
                DropsetEvent::PostOrder {
                    is_bid,
                    user_seat_sector_index,
                    order_sector_index,
                    base_atoms,
                    quote_atoms,
                } => {
                    &&& r@.len() == 26 && r@[0] == 4
                    &&& r@[1] == (if is_bid {
                    1u8
                } else {
                    0u8
                })
                    &&& vstd::bytes::spec_u32_from_le_bytes(r@.subrange(2, 6)) == user_seat_sector_index
                    &&& vstd::bytes::spec_u32_from_le_bytes(r@.subrange(6, 10)) == order_sector_index
                    &&& vstd::bytes::spec_u64_from_le_bytes(r@.subrange(10, 18)) == base_atoms
                    &&& vstd::bytes::spec_u64_from_le_bytes(r@.subrange(18, 26)) == quote_atoms
                },
                DropsetEvent::CancelOrder { is_bid, user_seat_sector_index } => {
                    &&& r@.len() == 6 && r@[0] == 5
                    &&& r@[1] == (if is_bid {
                    1u8
                } else {
                    0u8
                })
                    &&& vstd::bytes::spec_u32_from_le_bytes(r@.subrange(2, 6)) == user_seat_sector_index
                },
                DropsetEvent::MarketOrder { order_size, is_buy, is_base, base_filled, quote_filled } => {
                    &&& r@.len() == 27 && r@[0] == 6
                    &&& vstd::bytes::spec_u64_from_le_bytes(r@.subrange(1, 9)) == order_size
                    &&& r@[9] == (if is_buy {
                    1u8
                } else {
                    0u8
                })
                    &&& r@[10] == (if is_base {
                    1u8
                } else {
                    0u8
                })
                    &&& vstd::bytes::spec_u64_from_le_bytes(r@.subrange(11, 19)) == base_filled
                    &&& vstd::bytes::spec_u64_from_le_bytes(r@.subrange(19, 27)) == quote_filled
                },
                DropsetEvent::CloseSeat { user_seat_sector_index } => r@.len() == 5 && r@[0] == 7
                    && vstd::bytes::spec_u32_from_le_bytes(r@.subrange(1, 5)) == user_seat_sector_index,
            },
    {
        let mut out: Vec<u8> = Vec::new();
        out.push(self.tag().tag());
        match self {
            DropsetEvent::Header { instruction_tag, emitted_count, num_events, market } => {
                out.push(*instruction_tag);
                push_u16(&mut out, *emitted_count);
                push_u64(&mut out, *num_events);
                push_bytes(&mut out, market.as_slice());
            },
            DropsetEvent::Deposit { amount, is_base, seat_sector_index } => {
                push_u64(&mut out, *amount);
                push_bool(&mut out, *is_base);
                push_u32(&mut out, *seat_sector_index);
            },
            DropsetEvent::Withdraw { amount, is_base } => {
                push_u64(&mut out, *amount);
                push_bool(&mut out, *is_base);
            },
            DropsetEvent::RegisterMarket { market } => {
                push_bytes(&mut out, market.as_slice());
            },
            DropsetEvent::PostOrder {
                is_bid,
                user_seat_sector_index,
                order_sector_index,
                base_atoms,
                quote_atoms,
            } => {
                push_bool(&mut out, *is_bid);
                push_u32(&mut out, *user_seat_sector_index);
                push_u32(&mut out, *order_sector_index);
                push_u64(&mut out, *base_atoms);
                push_u64(&mut out, *quote_atoms);
            },
            DropsetEvent::CancelOrder { is_bid, user_seat_sector_index } => {
                push_bool(&mut out, *is_bid);
                push_u32(&mut out, *user_seat_sector_index);
            },
            DropsetEvent::MarketOrder { order_size, is_buy, is_base, base_filled, quote_filled } => {
                push_u64(&mut out, *order_size);
                push_bool(&mut out, *is_buy);
                push_bool(&mut out, *is_base);
                push_u64(&mut out, *base_filled);
                push_u64(&mut out, *quote_filled);
            },
            DropsetEvent::CloseSeat { user_seat_sector_index } => {
                push_u32(&mut out, *user_seat_sector_index);
            },
        }
        assert(out@ =~= seq![event_tag_spec(self.tag_spec())] + self.fields_spec());
        proof {
            lemma_event_bytes(*self, out@);
        }
        out
    }
}

} // verus!
