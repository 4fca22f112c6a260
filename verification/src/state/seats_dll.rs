//! The seat list of a market: one seat per user, sorted by user key.

use vstd::prelude::*;

use crate::pubkey::{
    lemma_lex_lt_irreflexive,
    lemma_lex_lt_total,
    lemma_lex_lt_transitive,
    lex_lt,
};
use crate::state::market::Market;
use crate::state::market_seat::seat_user_of;
use crate::state::sector::SectorIndex;

verus! {

/// The user keys of the seats of a market, head first.
pub open spec fn seat_users(m: Market) -> Seq<Seq<u8>> {
    m.seats@.map_values(|i: SectorIndex| seat_user_of(m.sectors@[i as int].payload@))
}

/// The position at which a seat for user `u` joins the seat list: before the first user that
/// `u` sorts before, or at the end.
pub open spec fn seat_insert_pos(users: Seq<Seq<u8>>, u: Seq<u8>) -> int
    decreases users.len(),
{
    if users.len() == 0 {
        0
    } else if lex_lt(u, users[0]) {
        0
    } else {
        1 + seat_insert_pos(users.drop_first(), u)
    }
}

/// `pos` passes over no user that `u` sorts before, and `u` sorts before the user at `pos`, if any.
pub open spec fn is_seat_insert_pos(users: Seq<Seq<u8>>, u: Seq<u8>, pos: int) -> bool {
    &&& 0 <= pos <= users.len()
    &&& forall|k: int| 0 <= k < pos ==> !lex_lt(u, #[trigger] users[k])
    &&& pos < users.len() ==> lex_lt(u, users[pos])
}

/// Whether a seat for `u` would be refused: the user just before its position is `u` itself.
pub open spec fn seat_taken(users: Seq<Seq<u8>>, u: Seq<u8>) -> bool {
    let pos = seat_insert_pos(users, u);
    pos > 0 && users[pos - 1] == u
}

/// The user keys are 32 bytes long and strictly ascending, so no user has two seats.
pub open spec fn seats_sorted(users: Seq<Seq<u8>>) -> bool {
    &&& forall|k: int| 0 <= k < users.len() ==> (#[trigger] users[k]).len() == 32
    &&& forall|i: int, j: int|
        0 <= i < j < users.len() ==> lex_lt(#[trigger] users[i], #[trigger] users[j])
}

/// [`seat_insert_pos`] is the one position with the property [`is_seat_insert_pos`].
pub proof fn lemma_seat_insert_pos(users: Seq<Seq<u8>>, u: Seq<u8>)
    ensures
        is_seat_insert_pos(users, u, seat_insert_pos(users, u)),
        forall|pos: int| is_seat_insert_pos(users, u, pos) ==> pos == seat_insert_pos(users, u),
    decreases users.len(),
{
    if users.len() > 0 {
        let t = users.drop_first();
        lemma_seat_insert_pos(t, u);
        if !lex_lt(u, users[0]) {
            let q = seat_insert_pos(t, u);
            assert forall|k: int| 0 <= k < q + 1 implies !lex_lt(u, #[trigger] users[k]) by {
                if k > 0 {
                    assert(users[k] == t[k - 1]);
                }
            }
            assert forall|pos: int| is_seat_insert_pos(users, u, pos) implies pos == q + 1 by {
                assert(pos != 0);
                assert(is_seat_insert_pos(t, u, pos - 1)) by {
                    assert forall|k: int| 0 <= k < pos - 1 implies !lex_lt(u, #[trigger] t[k]) by {
                        assert(t[k] == users[k + 1]);
                    }
                    if pos - 1 < t.len() {
                        assert(t[pos - 1] == users[pos]);
                    }
                }
            }
            if q + 1 < users.len() {
                assert(users[q + 1] == t[q]);
            }
        }
    }
}

/// Law: on a sorted seat list, a seat for `u` is refused exactly when `u` already has one.
pub proof fn lemma_seat_taken_iff_present(users: Seq<Seq<u8>>, u: Seq<u8>)
    requires
        seats_sorted(users),
        u.len() == 32,
    ensures
        seat_taken(users, u) <==> users.contains(u),
{
    lemma_seat_insert_pos(users, u);
    let pos = seat_insert_pos(users, u);
    if users.contains(u) {
        let k = choose|k: int| 0 <= k < users.len() && users[k] == u;
        lemma_lex_lt_irreflexive(u);
        if k >= pos {
            assert(pos < users.len());
            if k > pos {
                assert(lex_lt(users[pos], users[k]));
                lemma_lex_lt_transitive(u, users[pos], u);
            }
            assert(false);
        }
        if k < pos - 1 {
            assert(lex_lt(users[k], users[pos - 1]));
            assert(!lex_lt(u, users[pos - 1]));
            assert(false);
        }
    }
    if seat_taken(users, u) {
        assert(users[pos - 1] == u);
    }
}

/// Law: adding a seat for a user without one keeps the seat list sorted.
pub proof fn lemma_seat_insert_keeps_sorted(users: Seq<Seq<u8>>, u: Seq<u8>)
    requires
        seats_sorted(users),
        u.len() == 32,
        !seat_taken(users, u),
    ensures
        seats_sorted(users.insert(seat_insert_pos(users, u), u)),
{
    lemma_seat_insert_pos(users, u);
    let pos = seat_insert_pos(users, u);
    let t = users.insert(pos, u);
    assert forall|k: int| 0 <= k < t.len() implies (#[trigger] t[k]).len() == 32 by {
        if k < pos {
            assert(t[k] == users[k]);
        } else if k > pos {
            assert(t[k] == users[k - 1]);
        }
    }
    assert forall|i: int, j: int| 0 <= i < j < t.len() implies lex_lt(
        #[trigger] t[i],
        #[trigger] t[j],
    ) by {
        if j < pos {
            assert(t[i] == users[i] && t[j] == users[j]);
        } else if j == pos {
            assert(t[i] == users[i]);
            assert(!lex_lt(u, users[i]));
            lemma_lex_lt_total(users[i], u);
            if users[i] == u {
                if i < pos - 1 {
                    assert(lex_lt(users[i], users[pos - 1]));
                    assert(!lex_lt(u, users[pos - 1]));
                }
                assert(false);
            }
        } else if i > pos {
            assert(t[i] == users[i - 1] && t[j] == users[j - 1]);
        } else if i == pos {
            assert(t[j] == users[j - 1]);
            if j - 1 > pos {
                assert(lex_lt(users[pos], users[j - 1]));
                lemma_lex_lt_transitive(u, users[pos], users[j - 1]);
            }
        } else {
            assert(t[i] == users[i] && t[j] == users[j - 1]);
        }
    }
}

} // verus!
