//! The market-state part of closing a seat: unlinking it and reporting what the user is owed. The
//! token transfers of the amounts owed are made by the caller.

use vstd::prelude::*;

use crate::error::DropsetError;
use crate::processor::deposit::{
    needs_resize,
    register_outcome,
};
use crate::processor::withdraw::{
    hint_names_seat_of,
    seat_at,
};
use crate::shared::seat_operations::find_seat_with_hint;
use crate::state::linked_list::{
    payloads_unchanged_except,
    same_identity,
};
use crate::state::market::{
    ListKind,
    Market,
};
use crate::state::node::NODE_PAYLOAD_SIZE;
use crate::state::market_seat::lemma_seat_round_trip;
use crate::state::seats_dll::{
    lemma_seat_insert_pos,
    seat_insert_pos,
    seat_taken,
    seat_users,
    seats_sorted,
};
use crate::state::sector::SectorIndex;
use crate::state::Pubkey;

use crate::state::order::{
    book_prices_unchanged,
    lemma_book_prices_kept,
};

use crate::events::DropsetEvent;

verus! {

/// Removing a user from a sorted seat list keeps it sorted.
pub proof fn lemma_seat_remove_keeps_sorted(users: Seq<Seq<u8>>, pos: int)
    requires
        seats_sorted(users),
        0 <= pos < users.len(),
    ensures
        seats_sorted(users.remove(pos)),
{
    let t = users.remove(pos);
    assert forall|k: int| 0 <= k < t.len() implies (#[trigger] t[k]).len() == 32 by {
        if k < pos {
            assert(t[k] == users[k]);
        } else {
            assert(t[k] == users[k + 1]);
        }
    }
    assert forall|i: int, j: int| 0 <= i < j < t.len() implies crate::pubkey::lex_lt(
        #[trigger] t[i],
        #[trigger] t[j],
    ) by {
        let si = if i < pos { i } else { i + 1 };
        let sj = if j < pos { j } else { j + 1 };
        assert(t[i] == users[si] && t[j] == users[sj]);
    }
}

/// What closing the seat of `user` in sector `hint` does to a market: the outcome and the market
/// after it.
pub open spec fn close_outcome(
    m: Market,
    f: Market,
    r: Result<(u8, u64, u64), DropsetError>,
    user: Seq<u8>,
    hint: SectorIndex,
) -> bool {
    let s = seat_at(m, hint);
    let pos = m.seats@.index_of(hint);
    if hint >= m.sectors@.len() {
        r == Err::<(u8, u64, u64), DropsetError>(DropsetError::IndexOutOfBounds) && f.same_as(m)
    } else if !(hint_names_seat_of(m, hint, user) && m.seats@.contains(hint)) {
        r == Err::<(u8, u64, u64), DropsetError>(DropsetError::InvalidIndexHint) && f.same_as(m)
    } else {
        &&& r == Ok::<(u8, u64, u64), DropsetError>(
            (m.header.market_bump, s.base_available, s.quote_available),
        )
        &&& f.seats@ == m.seats@.remove(pos)
        &&& f.bids == m.bids
        &&& f.asks == m.asks
        &&& f.free@ == seq![hint] + m.free@
        &&& f.payload_at(hint) == Seq::new(NODE_PAYLOAD_SIZE as nat, |i: int| 0u8)
        &&& payloads_unchanged_except(m, f, hint)
        &&& seat_users(f) == seat_users(m).remove(pos)
    }
}

/// Law: closing a seat right after registering it, when the market did not have to grow, hands
/// back the first deposit and gives back the seat list, the users on it, the free stack, both
/// sides of the book and every other sector.
pub proof fn lemma_close_undoes_register(
    m0: Market,
    m1: Market,
    m2: Market,
    user: Pubkey,
    is_base_mint: bool,
    amount: u64,
    r1: Result<SectorIndex, DropsetError>,
    r2: Result<(u8, u64, u64), DropsetError>,
)
    requires
        m0.wf(),
        m1.wf(),
        !needs_resize(m0),
        !seat_taken(seat_users(m0), user@),
        register_outcome(m0, m1, r1, user, is_base_mint, amount),
        same_identity(m1.header, m0.header),
        close_outcome(m1, m2, r2, user@, r1->Ok_0),
    ensures
        r2 == Ok::<(u8, u64, u64), DropsetError>(
            (
                m0.header.market_bump,
                if is_base_mint {
                    amount
                } else {
                    0
                },
                if is_base_mint {
                    0
                } else {
                    amount
                },
            ),
        ),
        m2.seats@ == m0.seats@,
        seat_users(m2) == seat_users(m0),
        m2.bids == m0.bids,
        m2.asks == m0.asks,
        m2.free@ == m0.free@,
        forall|i: int|
            0 <= i < m0.sectors@.len() && i != m0.free@[0] ==> #[trigger] m2.sectors@[i].payload
                == m0.sectors@[i].payload,
{
    let x = m0.free@[0];
    let users = seat_users(m0);
    let pos = seat_insert_pos(users, user@);
    let seat = crate::processor::deposit::new_seat_spec(user, is_base_mint, amount);
    assert(m0.free@.len() > 0);
    assert(m0.free@.contains(x));
    assert(!m0.seats@.contains(x));
    lemma_seat_insert_pos(users, user@);
    assert(r1 == Ok::<SectorIndex, DropsetError>(x));
    let l1 = m1.seats@;
    assert(l1 == m0.seats@.insert(pos, x));
    assert(l1[pos] == x);
    assert(l1.contains(x));
    assert(m1.list_wf(ListKind::Seats));
    assert(x < m1.sectors@.len());
    lemma_seat_round_trip(seat);
    assert(hint_names_seat_of(m1, x, user@));
    assert(l1.index_of(x) == pos) by {
        let i = l1.index_of(x);
        assert(0 <= i < l1.len() && l1[i] == x);
        if i < pos {
            assert(l1[i] == m0.seats@[i]);
        } else if i > pos {
            assert(l1[i] == m0.seats@[i - 1]);
        }
    }
    assert(seat_at(m1, x) == seat);
    assert(m2.seats@ =~= m0.seats@);
    assert(m2.free@ =~= m0.free@);
    assert(users.insert(pos, user@).remove(pos) =~= users);
    assert forall|i: int|
        0 <= i < m0.sectors@.len() && i != x implies #[trigger] m2.sectors@[i].payload
        == m0.sectors@[i].payload by {
        assert(m2.sectors@[i].payload == m1.sectors@[i].payload);
    }
}

/// Unlinks the seat in sector `sector_index_hint` and returns the market bump and the base and
/// quote amounts the user had available, which are owed to the user. The sector goes back onto
/// the free stack, zeroed.
///
/// Fails, changing nothing, with `IndexOutOfBounds` when the hint is not a sector, and with
/// `InvalidIndexHint` when the sector does not hold a seat of `user` on the seat list.
pub fn apply_close_seat(
    market: &mut Market,
    user: &Pubkey,
    sector_index_hint: SectorIndex,
    events: &mut Vec<DropsetEvent>,
) -> (r: Result<(u8, u64, u64), DropsetError>)
    requires
        old(market).wf(),
    ensures
        r is Ok ==> final(events)@ == old(events)@.push(
            DropsetEvent::CloseSeat { user_seat_sector_index: sector_index_hint },
        ),
        r is Err ==> final(events)@ == old(events)@,
        final(market).wf(),
        old(market).all_sectors_accounted() ==> final(market).all_sectors_accounted(),
        close_outcome(*old(market), *final(market), r, user@, sector_index_hint),
        seats_sorted(seat_users(*old(market))) ==> seats_sorted(seat_users(*final(market))),
        book_prices_unchanged(*old(market), *final(market)),
{
    let ghost m0 = *market;
    market.check_in_bounds(sector_index_hint)?;
    let market_bump = market.header.market_bump;
    let seat = find_seat_with_hint(market, sector_index_hint, user)?;
    if !market.list_contains(ListKind::Seats, sector_index_hint) {
        return Err(DropsetError::InvalidIndexHint);
    }
    market.remove_at(ListKind::Seats, sector_index_hint);
    proof {
        lemma_book_prices_kept(m0, *market, sector_index_hint);
        let l = m0.seats@;
        let pos = l.index_of(sector_index_hint);
        assert(m0.list_wf(ListKind::Seats));
        assert(0 <= pos < l.len() && l[pos] == sector_index_hint);
        let a = seat_users(*market);
        let b = seat_users(m0).remove(pos);
        assert forall|k: int| 0 <= k < a.len() implies a[k] == b[k] by {
            let sk = if k < pos { k } else { k + 1 };
            assert(market.seats@[k] == l[sk]);
            assert(l[sk] < m0.sectors@.len());
            assert(l[sk] != sector_index_hint);
            assert(market.sectors@[l[sk] as int].payload == m0.sectors@[l[sk] as int].payload);
        }
        assert(a =~= b);
        if seats_sorted(seat_users(m0)) {
            lemma_seat_remove_keeps_sorted(seat_users(m0), pos);
        }
    }
    events.push(DropsetEvent::CloseSeat { user_seat_sector_index: sector_index_hint });
    Ok((market_bump, seat.base_available(), seat.quote_available()))
}

} // verus!
