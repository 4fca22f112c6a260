//! The market-state part of a withdrawal: debiting a user's seat. The token transfer out of the
//! market is made by the caller.

use vstd::prelude::*;

use crate::error::{
    DropsetError,
    DropsetResult,
};
use crate::shared::seat_operations::{
    find_seat_with_hint,
    write_seat,
};
use crate::state::linked_list::payloads_unchanged_except;
use crate::state::market::Market;
use crate::state::market_seat::{
    seat_user_of,
    MarketSeat,
};
use crate::state::seats_dll::seat_users;
use crate::state::sector::SectorIndex;
use crate::state::transmutable::Transmutable;
use crate::state::Pubkey;

use crate::state::order::{
    book_prices_unchanged,
    lemma_book_prices_kept,
};

use crate::events::DropsetEvent;

verus! {

/// The seat stored in sector `index` of a market.
pub open spec fn seat_at(m: Market, index: SectorIndex) -> MarketSeat {
    MarketSeat::decode_spec(m.payload_at(index))
}

/// The amount available to withdraw in the mint of one side of the market.
pub open spec fn available(s: MarketSeat, is_base_mint: bool) -> u64 {
    if is_base_mint {
        s.base_available
    } else {
        s.quote_available
    }
}

/// The seat with the amount available in one mint replaced.
pub open spec fn with_available(s: MarketSeat, is_base_mint: bool, amount: u64) -> MarketSeat {
    if is_base_mint {
        MarketSeat { base_available: amount, ..s }
    } else {
        MarketSeat { quote_available: amount, ..s }
    }
}

/// Whether a hint names an in-bounds sector whose seat belongs to `user`.
pub open spec fn hint_names_seat_of(m: Market, hint: SectorIndex, user: Seq<u8>) -> bool {
    hint < m.sectors@.len() && seat_user_of(m.payload_at(hint)) == user
}

/// Market changes that rewrite the seat in sector `index` only.
pub open spec fn only_seat_rewritten(a: Market, b: Market, index: SectorIndex, seat: MarketSeat) -> bool {
    &&& b.header == a.header
    &&& b.free == a.free
    &&& b.seats == a.seats
    &&& b.bids == a.bids
    &&& b.asks == a.asks
    &&& b.sectors@.len() == a.sectors@.len()
    &&& b.payload_at(index) == seat.encode_spec()
    &&& payloads_unchanged_except(a, b, index)
    &&& seat_users(b) == seat_users(a)
}

/// Debits `amount` from the seat in sector `sector_index_hint`, in the base mint when
/// `is_base_mint` and else in the quote mint. Fails, changing nothing, with `IndexOutOfBounds`
/// when the hint is not a sector, with `InvalidIndexHint` when the seat there is not `user`'s, and
/// with `InsufficientUserBalance` when the seat has less than `amount` available.
pub fn apply_withdraw(
    market: &mut Market,
    user: &Pubkey,
    is_base_mint: bool,
    amount: u64,
    sector_index_hint: SectorIndex,
    events: &mut Vec<DropsetEvent>,
) -> (r: DropsetResult)
    requires
        old(market).wf(),
    ensures
        r is Ok ==> final(events)@ == old(events)@.push(
            DropsetEvent::Withdraw { amount, is_base: is_base_mint },
        ),
        r is Err ==> final(events)@ == old(events)@,
        final(market).wf(),
        old(market).all_sectors_accounted() ==> final(market).all_sectors_accounted(),
        ({
            let hint = sector_index_hint;
            let s = seat_at(*old(market), hint);
            &&& hint >= old(market).sectors@.len() ==> r == Err::<(), DropsetError>(
                DropsetError::IndexOutOfBounds,
            ) && final(market).same_as(*old(market))
            &&& hint < old(market).sectors@.len() && !hint_names_seat_of(*old(market), hint, user@)
                ==> r == Err::<(), DropsetError>(DropsetError::InvalidIndexHint) && final(market).same_as(*old(market))
            &&& hint_names_seat_of(*old(market), hint, user@) && amount > available(s, is_base_mint)
                ==> r == Err::<(), DropsetError>(DropsetError::InsufficientUserBalance) && final(market).same_as(*old(market))
            &&& hint_names_seat_of(*old(market), hint, user@) && amount <= available(s, is_base_mint)
                ==> r is Ok && only_seat_rewritten(
                *old(market),
                *final(market),
                hint,
                with_available(s, is_base_mint, (available(s, is_base_mint) - amount) as u64),
            )
        }),
        old(market).seats@.contains(sector_index_hint) ==> book_prices_unchanged(
            *old(market),
            *final(market),
        ),
{
    let ghost m0 = *market;
    market.check_in_bounds(sector_index_hint)?;
    let mut seat = find_seat_with_hint(market, sector_index_hint, user)?;
    proof {
        crate::state::market_seat::lemma_seat_round_trip(seat);
    }
    if is_base_mint {
        seat.try_decrement_base_available(amount)?;
    } else {
        seat.try_decrement_quote_available(amount)?;
    }
    write_seat(market, sector_index_hint, &seat);
    proof {
        if m0.seats@.contains(sector_index_hint) {
            lemma_book_prices_kept(m0, *market, sector_index_hint);
        }
    }
    events.push(DropsetEvent::Withdraw { amount, is_base: is_base_mint });
    Ok(())
}

/// Law: withdrawing what was just deposited gives the seat back.
pub proof fn lemma_withdraw_undoes_deposit(s: MarketSeat, is_base_mint: bool, amount: u64)
    requires
        available(s, is_base_mint) + amount <= u64::MAX,
    ensures
        ({
            let deposited = with_available(
                s,
                is_base_mint,
                (available(s, is_base_mint) + amount) as u64,
            );
            &&& amount <= available(deposited, is_base_mint)
            &&& with_available(
                deposited,
                is_base_mint,
                (available(deposited, is_base_mint) - amount) as u64,
            ) == s
        }),
{
}

} // verus!
