//! The market-state part of a deposit: crediting an existing seat, or registering a new seat for
//! the user. The token transfer into the market is made by the caller, who passes the amount that
//! actually arrived.

use vstd::prelude::*;

use crate::error::DropsetError;
use crate::processor::withdraw::{
    available,
    hint_names_seat_of,
    only_seat_rewritten,
    seat_at,
    with_available,
};
use crate::shared::seat_operations::{
    find_seat_with_hint,
    try_insert_market_seat,
    write_seat,
};
use crate::state::free_stack::index_range;
use crate::state::linked_list::{
    payloads_unchanged_except,
    same_identity,
};
use crate::state::market::Market;
use crate::state::market_seat::MarketSeat;
use crate::state::user_order_sectors::UserOrderSectors;
use crate::state::seats_dll::{
    seat_insert_pos,
    seat_taken,
    seat_users,
    seats_sorted,
};
use crate::state::sector::{
    SectorIndex,
    NIL,
};
use crate::state::transmutable::Transmutable;
use crate::state::Pubkey;

use crate::state::order::{
    book_prices_unchanged,
    lemma_book_prices_kept,
};

use crate::events::DropsetEvent;

verus! {

/// A new seat for `user` holding a first deposit of `amount` in one mint.
pub open spec fn new_seat_spec(user: Pubkey, is_base_mint: bool, amount: u64) -> MarketSeat {
    if is_base_mint {
        MarketSeat { user, base_available: amount, quote_available: 0, user_order_sectors: UserOrderSectors::empty_spec() }
    } else {
        MarketSeat { user, base_available: 0, quote_available: amount, user_order_sectors: UserOrderSectors::empty_spec() }
    }
}

/// Whether registering a new seat grows the market by one sector first: when the free stack is
/// empty (the header counts exactly the sectors on it).
pub open spec fn needs_resize(m: Market) -> bool {
    m.free@.len() == 0
}

/// What registering a new seat for `user` with a first deposit does to a market: the outcome and
/// the market after it. The seat takes the first free sector, after the market grew by one sector
/// when [`needs_resize`], at its sorted place in the seat list.
pub open spec fn register_outcome(
    m: Market,
    f: Market,
    r: Result<SectorIndex, DropsetError>,
    user: Pubkey,
    is_base_mint: bool,
    amount: u64,
) -> bool {
    let users = seat_users(m);
    let n = m.sectors@.len();
    let pos = seat_insert_pos(users, user@);
    let free = if needs_resize(m) {
        index_range(n as SectorIndex, (n + 1) as SectorIndex) + m.free@
    } else {
        m.free@
    };
    let grown = if needs_resize(m) {
        n + 1
    } else {
        n
    };
    &&& f.sectors@.len() == grown
    &&& if seat_taken(users, user@) {
        &&& r == Err::<SectorIndex, DropsetError>(DropsetError::UserAlreadyExists)
        &&& f.free@ == free
        &&& f.seats == m.seats
        &&& f.bids == m.bids
        &&& f.asks == m.asks
        &&& seat_users(f) == users
        &&& forall|i: int| 0 <= i < n ==> #[trigger] f.sectors@[i].payload == m.sectors@[i].payload
    } else {
        &&& r == Ok::<SectorIndex, DropsetError>(free[0])
        &&& f.free@ == free.drop_first()
        &&& f.seats@ == m.seats@.insert(pos, free[0])
        &&& f.bids == m.bids
        &&& f.asks == m.asks
        &&& seat_users(f) == users.insert(pos, user@)
        &&& f.payload_at(free[0]) == new_seat_spec(user, is_base_mint, amount).encode_spec()
        &&& forall|i: int|
            0 <= i < n && i != free[0] ==> #[trigger] f.sectors@[i].payload == m.sectors@[i].payload
    }
}

/// Credits `amount_deposited` to a seat, in the base mint when `is_base_mint` and else in the
/// quote mint, and returns the seat's sector.
///
/// With a hint other than [`NIL`], the seat in sector `sector_index_hint` is credited; this fails,
/// changing nothing, with `IndexOutOfBounds` when the hint is not a sector, with
/// `InvalidIndexHint` when the seat there is not `user`'s, and with `ArithmeticOverflow` when the
/// new amount does not fit in a `u64`.
///
/// With the hint [`NIL`], a new seat holding the deposit is registered for `user` at its sorted
/// place in the seat list, after growing the market by one sector when no sector is free; this
/// fails with `UserAlreadyExists` when the user already has a seat there.
pub fn apply_deposit(
    market: &mut Market,
    user: &Pubkey,
    is_base_mint: bool,
    amount_deposited: u64,
    sector_index_hint: SectorIndex,
    events: &mut Vec<DropsetEvent>,
) -> (r: Result<SectorIndex, DropsetError>)
    requires
        old(market).wf(),
        old(market).sectors@.len() + 1 < NIL,
    ensures
        r matches Ok(i) ==> final(events)@ == old(events)@.push(
            DropsetEvent::Deposit {
                amount: amount_deposited,
                is_base: is_base_mint,
                seat_sector_index: i,
            },
        ),
        r is Err ==> final(events)@ == old(events)@,
        final(market).wf(),
        old(market).all_sectors_accounted() ==> final(market).all_sectors_accounted(),
        ({
            let hint = sector_index_hint;
            let s = seat_at(*old(market), hint);
            let sum = available(s, is_base_mint) + amount_deposited;
            &&& hint != NIL && hint >= old(market).sectors@.len() ==> r == Err::<
                SectorIndex,
                DropsetError,
            >(DropsetError::IndexOutOfBounds) && final(market).same_as(*old(market))
            &&& hint != NIL && hint < old(market).sectors@.len() && !hint_names_seat_of(
                *old(market),
                hint,
                user@,
            ) ==> r == Err::<SectorIndex, DropsetError>(DropsetError::InvalidIndexHint) && final(market).same_as(*old(market))
            &&& hint != NIL && hint_names_seat_of(*old(market), hint, user@) && sum > u64::MAX
                ==> r == Err::<SectorIndex, DropsetError>(DropsetError::ArithmeticOverflow) && final(market).same_as(*old(market))
            &&& hint != NIL && hint_names_seat_of(*old(market), hint, user@) && sum <= u64::MAX
                ==> r == Ok::<SectorIndex, DropsetError>(hint) && only_seat_rewritten(
                *old(market),
                *final(market),
                hint,
                with_available(s, is_base_mint, sum as u64),
            )
        }),
        sector_index_hint == NIL ==> register_outcome(
            *old(market),
            *final(market),
            r,
            *user,
            is_base_mint,
            amount_deposited,
        ),
        same_identity(final(market).header, old(market).header),
        sector_index_hint == NIL || old(market).seats@.contains(sector_index_hint)
            ==> book_prices_unchanged(*old(market), *final(market)),
        seats_sorted(seat_users(*old(market))) ==> seats_sorted(seat_users(*final(market))),
{
    let ghost m0 = *market;
    if sector_index_hint != NIL {
        market.check_in_bounds(sector_index_hint)?;
        let mut seat = find_seat_with_hint(market, sector_index_hint, user)?;
        proof {
            crate::state::market_seat::lemma_seat_round_trip(seat);
        }
        if is_base_mint {
            seat.try_increment_base_available(amount_deposited)?;
        } else {
            seat.try_increment_quote_available(amount_deposited)?;
        }
        write_seat(market, sector_index_hint, &seat);
        proof {
            if m0.seats@.contains(sector_index_hint) {
                lemma_book_prices_kept(m0, *market, sector_index_hint);
            }
        }
        events.push(
            DropsetEvent::Deposit {
                amount: amount_deposited,
                is_base: is_base_mint,
                seat_sector_index: sector_index_hint,
            },
        );
        Ok(sector_index_hint)
    } else {
        if market.header.num_free_sectors() == 0 {
            let _ = market.resize(1);
        }
        let ghost m1 = *market;
        proof {
            if needs_resize(m0) {
                assert(m1.sectors@.len() == m0.sectors@.len() + 1);
                assert(seat_users(m1) =~= seat_users(m0)) by {
                    assert forall|k: int| 0 <= k < m0.seats@.len() implies m1.sectors@[m0.seats@[k] as int]
                        == m0.sectors@[m0.seats@[k] as int] by {
                        assert(m0.list_wf(crate::state::market::ListKind::Seats));
                        assert(m0.seats@[k] < m0.sectors@.len());
                    }
                }
            } else {
                assert(m1 == m0);
                assert(m0.free@.len() > 0);
            }
        }
        let seat = if is_base_mint {
            MarketSeat::new(*user, amount_deposited, 0)
        } else {
            MarketSeat::new(*user, 0, amount_deposited)
        };
        let r = try_insert_market_seat(market, seat);
        proof {
            if !seat_taken(seat_users(m0), user@) {
                let x = m1.free@[0];
                assert(m1.free@.contains(x));
                assert(m1.list_wf(crate::state::market::ListKind::Bids));
                assert(m1.list_wf(crate::state::market::ListKind::Asks));
                assert(!m0.bids@.contains(x) && !m0.asks@.contains(x)) by {
                    if needs_resize(m0) {
                        assert(x == m0.sectors@.len());
                        assert(m0.list_wf(crate::state::market::ListKind::Bids));
                        assert(m0.list_wf(crate::state::market::ListKind::Asks));
                    }
                }
                lemma_book_prices_kept(m0, *market, x);
            } else {
                let n = m0.sectors@.len() as SectorIndex;
                assert(m0.list_wf(crate::state::market::ListKind::Bids));
                assert(m0.list_wf(crate::state::market::ListKind::Asks));
                assert(!m0.bids@.contains(n) && !m0.asks@.contains(n));
                assert forall|i: int| 0 <= i < m0.sectors@.len() && i != n implies #[trigger] market.sectors@[i].payload
                    == m0.sectors@[i].payload by {
                    assert(market.sectors@[i] == m1.sectors@[i]);
                }
                lemma_book_prices_kept(m0, *market, n);
            }
            assert(seat == new_seat_spec(*user, is_base_mint, amount_deposited));
            if !seat_taken(seat_users(m0), user@) {
                let x = m1.free@[0];
                assert forall|i: int| 0 <= i < m0.sectors@.len() && i != x implies #[trigger] market.sectors@[i].payload
                    == m0.sectors@[i].payload by {
                    assert(market.sectors@[i].payload == m1.sectors@[i].payload);
                }
            }
        }
        if let Ok(i) = r {
            events.push(
                DropsetEvent::Deposit {
                    amount: amount_deposited,
                    is_base: is_base_mint,
                    seat_sector_index: i,
                },
            );
        }
        r
    }
}

} // verus!
