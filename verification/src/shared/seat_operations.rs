//! Registering seats in the sorted seat list and finding them again by index hint.

use vstd::prelude::*;

use crate::error::DropsetError;
use crate::pubkey::{
    lex_lt,
    pubkey_eq,
    pubkey_lt,
};
use crate::state::linked_list::{
    other_lists_unchanged,
    payloads_unchanged_except,
    same_identity,
};
use crate::state::market::{
    at_or_nil,
    ListKind,
    Market,
};
use crate::state::market_seat::{
    lemma_seat_round_trip,
    seat_user_of,
    MarketSeat,
};
use crate::state::seats_dll::{
    is_seat_insert_pos,
    lemma_seat_insert_keeps_sorted,
    lemma_seat_insert_pos,
    seat_insert_pos,
    seat_taken,
    seat_users,
    seats_sorted,
};
use crate::state::sector::{
    SectorIndex,
    NIL,
};
use crate::state::transmutable::Transmutable;
use crate::state::Pubkey;

verus! {

/// The user key of the seat stored in sector `index` of a market.
fn seat_user_at(market: &Market, index: SectorIndex) -> (r: Pubkey)
    requires
        index < market.sectors@.len(),
    ensures
        r@ == seat_user_of(market.payload_at(index)),
{
    let node = market.node(index);
    MarketSeat::from_payload(&node.payload).user
}

/// The sectors between which a seat for `user` is linked to keep the seat list sorted: the
/// new node goes after `prev` and before `next`, either being [`NIL`] at an end of the list.
fn find_new_seat_prev_and_next(market: &Market, user: &Pubkey) -> (r: (SectorIndex, SectorIndex))
    requires
        market.wf(),
    ensures
        ({
            let l = market.seats@;
            let pos = seat_insert_pos(seat_users(*market), user@);
            &&& r.1 == at_or_nil(l, pos)
            &&& r.0 == at_or_nil(l, pos - 1)
        }),
{
    let ghost l = market.seats@;
    let ghost users = seat_users(*market);
    proof {
        assert(market.list_wf(ListKind::Seats));
        lemma_seat_insert_pos(users, user@);
    }
    let mut curr = market.head(ListKind::Seats);
    let ghost mut k: int = 0;
    while curr != NIL
        invariant
            market.wf(),
            market.list_wf(ListKind::Seats),
            l == market.seats@,
            users == seat_users(*market),
            0 <= k <= l.len(),
            curr == at_or_nil(l, k),
            forall|j: int| 0 <= j < k ==> !lex_lt(user@, #[trigger] users[j]),
            forall|pos: int| is_seat_insert_pos(users, user@, pos) ==> pos == seat_insert_pos(users, user@),
        decreases l.len() - k,
    {
        proof {
            if k == l.len() {
                assert(false);
            }
            assert(l[k] < market.sectors@.len());
        }
        let seat_user = seat_user_at(market, curr);
        assert(seat_user@ == users[k]);
        let node = market.node(curr);
        if pubkey_lt(user, &seat_user) {
            assert(is_seat_insert_pos(users, user@, k));
            return (node.prev(), curr);
        }
        curr = node.next();
        proof {
            k = k + 1;
        }
    }
    proof {
        if k < l.len() {
            assert(l[k] < market.sectors@.len());
        }
        assert(is_seat_insert_pos(users, user@, k));
    }
    (market.tail(ListKind::Seats), NIL)
}

/// Registers `seat` in the seat list at its sorted position, taking the sector from the free
/// stack, and returns the sector index.
///
/// Fails with `UserAlreadyExists` when the seat just before that position belongs to the same
/// user (on a sorted list: when the user already has a seat), and with `NoFreeNodesLeft` when no
/// free sector is left; either way nothing changes.
pub fn try_insert_market_seat(market: &mut Market, seat: MarketSeat) -> (r: Result<
    SectorIndex,
    DropsetError,
>)
    requires
        old(market).wf(),
    ensures
        final(market).wf(),
        old(market).all_sectors_accounted() ==> final(market).all_sectors_accounted(),
        same_identity(final(market).header, old(market).header),
        ({
            let users = seat_users(*old(market));
            let pos = seat_insert_pos(users, seat.user@);
            let x = old(market).free@[0];
            &&& seat_taken(users, seat.user@) ==> r == Err::<SectorIndex, DropsetError>(
                DropsetError::UserAlreadyExists,
            ) && final(market).same_as(*old(market))
            &&& !seat_taken(users, seat.user@) && old(market).free@.len() == 0 ==> r == Err::<
                SectorIndex,
                DropsetError,
            >(DropsetError::NoFreeNodesLeft) && final(market).same_as(*old(market))
            &&& !seat_taken(users, seat.user@) && old(market).free@.len() > 0 ==> {
                &&& r == Ok::<SectorIndex, DropsetError>(x)
                &&& final(market).free@ == old(market).free@.drop_first()
                &&& final(market).seats@ == old(market).seats@.insert(pos, x)
                &&& other_lists_unchanged(*old(market), *final(market), ListKind::Seats)
                &&& final(market).payload_at(x) == seat.encode_spec()
                &&& payloads_unchanged_except(*old(market), *final(market), x)
                &&& seat_users(*final(market)) == users.insert(pos, seat.user@)
                &&& final(market).header.num_seats == old(market).header.num_seats + 1
            }
        }),
        seats_sorted(seat_users(*old(market))) && r is Ok ==> seats_sorted(
            seat_users(*final(market)),
        ),
{
    let ghost m0 = *market;
    let ghost l = m0.seats@;
    let ghost users = seat_users(m0);
    let ghost pos = seat_insert_pos(users, seat.user@);
    proof {
        assert(m0.list_wf(ListKind::Seats));
        lemma_seat_insert_pos(users, seat.user@);
        if pos < l.len() {
            assert(l[pos] < m0.sectors@.len());
        }
        if l.len() > 0 {
            assert(l[0] < m0.sectors@.len());
        }
        if pos > 0 {
            assert(l[pos - 1] < m0.sectors@.len());
        }
    }
    let (prev_index, next_index) = find_new_seat_prev_and_next(market, &seat.user);
    let seat_bytes = seat.as_bytes();
    if prev_index != NIL {
        let prev_user = seat_user_at(market, prev_index);
        assert(prev_user@ == users[pos - 1]);
        if pubkey_eq(&seat.user, &prev_user) {
            return Err(DropsetError::UserAlreadyExists);
        }
    }
    let r = if next_index == market.head(ListKind::Seats) {
        proof {
            if l.len() > 0 && pos > 0 {
                if pos < l.len() {
                    assert(l[pos] == l[0]);
                }
                assert(false);
            }
        }
        market.push_front(ListKind::Seats, &seat_bytes)
    } else if next_index == NIL {
        market.push_back(ListKind::Seats, &seat_bytes)
    } else {
        proof {
            assert(pos < l.len());
            assert(l.contains(next_index)) by {
                assert(l[pos] == next_index);
            }
            assert(l.index_of(next_index) == pos) by {
                let i = l.index_of(next_index);
                assert(l[pos] == next_index);
                assert(0 <= i < l.len() && l[i] == next_index);
            }
        }
        market.insert_before(ListKind::Seats, next_index, &seat_bytes)
    };
    proof {
        if m0.free@.len() == 0 {
            assert(market.same_as(m0));
        } else {
            let x = m0.free@[0];
            assert(!l.contains(x)) by {
                assert(m0.free@.contains(x));
            }
            assert(seq![x] + l =~= l.insert(0, x));
            assert(l.push(x) =~= l.insert(l.len() as int, x));
            lemma_seat_round_trip(seat);
            let m2 = *market;
            let a = seat_users(m2);
            let b = users.insert(pos, seat.user@);
            assert forall|k: int| 0 <= k < a.len() implies a[k] == b[k] by {
                if k < pos {
                    assert(m2.seats@[k] == l[k]);
                    assert(l[k] != x);
                    assert(l[k] < m0.sectors@.len());
                    assert(m2.sectors@[l[k] as int].payload == m0.sectors@[l[k] as int].payload);
                } else if k > pos {
                    assert(m2.seats@[k] == l[k - 1]);
                    assert(l[k - 1] != x);
                    assert(l[k - 1] < m0.sectors@.len());
                    assert(m2.sectors@[l[k - 1] as int].payload == m0.sectors@[l[k
                        - 1] as int].payload);
                }
            }
            assert(a =~= b);
            if seats_sorted(users) {
                lemma_seat_insert_keeps_sorted(users, seat.user@);
            }
        }
    }
    r
}

/// Changing only the payload of one sector, and not the user key in it, keeps the seat users.
pub proof fn lemma_seat_users_same_user(m1: Market, m2: Market, index: SectorIndex)
    requires
        m1.wf(),
        m2.seats@ == m1.seats@,
        payloads_unchanged_except(m1, m2, index),
        index < m1.sectors@.len(),
        seat_user_of(m2.payload_at(index)) == seat_user_of(m1.payload_at(index)),
    ensures
        seat_users(m2) == seat_users(m1),
{
    assert(m1.list_wf(ListKind::Seats));
    let a = seat_users(m2);
    let b = seat_users(m1);
    assert forall|k: int| 0 <= k < a.len() implies a[k] == b[k] by {
        let i = m1.seats@[k];
        assert(i < m1.sectors@.len());
        if i != index {
            assert(m2.sectors@[i as int].payload == m1.sectors@[i as int].payload);
        }
    }
    assert(a =~= b);
}

/// Writes `seat` into the payload of sector `index`, keeping the node's links. The seat users
/// are unchanged when the seat keeps the user key found there.
pub fn write_seat(market: &mut Market, index: SectorIndex, seat: &MarketSeat)
    requires
        old(market).wf(),
        index < old(market).sectors@.len(),
    ensures
        final(market).wf(),
        old(market).all_sectors_accounted() ==> final(market).all_sectors_accounted(),
        final(market).header == old(market).header,
        final(market).free == old(market).free,
        final(market).seats == old(market).seats,
        final(market).bids == old(market).bids,
        final(market).asks == old(market).asks,
        final(market).sectors@.len() == old(market).sectors@.len(),
        final(market).payload_at(index) == seat.encode_spec(),
        payloads_unchanged_except(*old(market), *final(market), index),
        forall|i: int|
            0 <= i < old(market).sectors@.len() ==> (#[trigger] final(market).sectors@[i]).next
                == old(market).sectors@[i].next && final(market).sectors@[i].prev == old(
                market,
            ).sectors@[i].prev,
        forall|i: int|
            0 <= i < old(market).sectors@.len() && i != index ==> #[trigger] final(market).sectors@[i]
                == old(market).sectors@[i],
        seat.user@ == seat_user_of(old(market).payload_at(index)) ==> seat_users(*final(market))
            == seat_users(*old(market)),
{
    let ghost m0 = *market;
    let bytes = seat.as_bytes();
    market.set_payload_at(index, &bytes);
    proof {
        lemma_seat_round_trip(*seat);
        if seat.user@ == seat_user_of(m0.payload_at(index)) {
            lemma_seat_users_same_user(m0, *market, index);
        }
        if m0.all_sectors_accounted() {
            assert forall|i: SectorIndex| i < market.sectors@.len() implies market.in_use(i) by {
                assert(m0.in_use(i));
            }
        }
    }
}

/// The seat in sector `hint`, when it belongs to `user`; fails with `InvalidIndexHint`
/// otherwise.
pub fn find_seat_with_hint(market: &Market, hint: SectorIndex, user: &Pubkey) -> (r: Result<
    MarketSeat,
    DropsetError,
>)
    requires
        hint < market.sectors@.len(),
    ensures
        seat_user_of(market.payload_at(hint)) == user@ ==> r == Ok::<MarketSeat, DropsetError>(
            MarketSeat::decode_spec(market.payload_at(hint)),
        ),
        seat_user_of(market.payload_at(hint)) != user@ ==> r == Err::<MarketSeat, DropsetError>(
            DropsetError::InvalidIndexHint,
        ),
{
    let node = market.node(hint);
    let seat = MarketSeat::from_payload(&node.payload);
    if pubkey_eq(user, &seat.user) {
        Ok(seat)
    } else {
        Err(DropsetError::InvalidIndexHint)
    }
}

} // verus!
