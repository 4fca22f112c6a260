//! The sorted, doubly linked lists of a market (seats, bids, asks): nodes taken from the free
//! stack are linked in, and unlinked nodes go back onto it.

use vstd::prelude::*;

use crate::error::DropsetError;
use crate::state::market::{
    at_or_nil,
    count_of,
    disjoint,
    first_or_nil,
    head_of,
    indices_valid,
    last_or_nil,
    lemma_contains_cons,
    lemma_contains_insert,
    lemma_contains_remove,
    lemma_links_frame,
    lemma_valid_insert,
    lemma_valid_remove,
    next_in,
    next_links,
    prev_in,
    prev_links,
    tail_of,
    ListKind,
    Market,
};
use crate::state::market_header::{
    saturating_dec,
    saturating_inc,
    MarketHeader,
};
use crate::state::node::{
    Node,
    NODE_PAYLOAD_SIZE,
};
use crate::state::sector::{
    SectorIndex,
    NIL,
};

verus! {

/// The header with the head of a list replaced.
pub open spec fn with_head(h: MarketHeader, kind: ListKind, index: SectorIndex) -> MarketHeader {
    match kind {
        ListKind::Seats => MarketHeader { seats_dll_head: index, ..h },
        ListKind::Bids => MarketHeader { bids_dll_head: index, ..h },
        ListKind::Asks => MarketHeader { asks_dll_head: index, ..h },
    }
}

/// The header with the tail of a list replaced.
pub open spec fn with_tail(h: MarketHeader, kind: ListKind, index: SectorIndex) -> MarketHeader {
    match kind {
        ListKind::Seats => MarketHeader { seats_dll_tail: index, ..h },
        ListKind::Bids => MarketHeader { bids_dll_tail: index, ..h },
        ListKind::Asks => MarketHeader { asks_dll_tail: index, ..h },
    }
}

/// The header with the node count of a list replaced.
pub open spec fn with_count(h: MarketHeader, kind: ListKind, count: u32) -> MarketHeader {
    match kind {
        ListKind::Seats => MarketHeader { num_seats: count, ..h },
        ListKind::Bids => MarketHeader { num_bids: count, ..h },
        ListKind::Asks => MarketHeader { num_asks: count, ..h },
    }
}

/// The header fields that no list or stack operation touches: the discriminant, the mints, the
/// bump, the event count and the padding.
pub open spec fn same_identity(a: MarketHeader, b: MarketHeader) -> bool {
    &&& a.discriminant == b.discriminant
    &&& a.base_mint == b.base_mint
    &&& a.quote_mint == b.quote_mint
    &&& a.market_bump == b.market_bump
    &&& a.num_events == b.num_events
    &&& a.padding == b.padding
}

/// The other lists are unchanged.
pub open spec fn other_lists_unchanged(a: Market, b: Market, kind: ListKind) -> bool {
    forall|k: ListKind| k != kind ==> #[trigger] b.list(k) == a.list(k)
}

/// The payloads of every sector but `index` are unchanged.
pub open spec fn payloads_unchanged_except(a: Market, b: Market, index: SectorIndex) -> bool {
    &&& b.sectors@.len() == a.sectors@.len()
    &&& forall|i: int|
        0 <= i < a.sectors@.len() && i != index ==> #[trigger] b.sectors@[i].payload
            == a.sectors@[i].payload
}

/// A list keeps its well-formedness when its sequence, roots and count are unchanged and only
/// nodes outside it change.
proof fn lemma_list_wf_frame(m1: Market, m2: Market, k: ListKind, touched: Set<SectorIndex>)
    requires
        m1.list_wf(k),
        m2.list(k) == m1.list(k),
        head_of(m2.header, k) == head_of(m1.header, k),
        tail_of(m2.header, k) == tail_of(m1.header, k),
        count_of(m2.header, k) == count_of(m1.header, k),
        m2.sectors@.len() == m1.sectors@.len(),
        forall|i: int|
            0 <= i < m1.sectors@.len() && !touched.contains(i as SectorIndex) ==> m2.sectors@[i]
                == m1.sectors@[i],
        forall|x: SectorIndex| touched.contains(x) ==> !m1.list(k).contains(x),
    ensures
        m2.list_wf(k),
{
    lemma_links_frame(m1.list(k), m1.sectors@, m2.sectors@, touched);
}

/// The free stack keeps its well-formedness when its sequence, top and count are unchanged and
/// only nodes outside it change.
proof fn lemma_free_wf_frame(m1: Market, m2: Market, touched: Set<SectorIndex>)
    requires
        m1.free_wf(),
        m2.free@ == m1.free@,
        m2.header.free_stack_top == m1.header.free_stack_top,
        m2.header.num_free_sectors == m1.header.num_free_sectors,
        m2.sectors@.len() == m1.sectors@.len(),
        forall|i: int|
            0 <= i < m1.sectors@.len() && !touched.contains(i as SectorIndex) ==> m2.sectors@[i]
                == m1.sectors@[i],
        forall|x: SectorIndex| touched.contains(x) ==> !m1.free@.contains(x),
    ensures
        m2.free_wf(),
{
    lemma_links_frame(m1.free@, m1.sectors@, m2.sectors@, touched);
}

/// After changing one list (and nodes in `touched`, outside the free stack and the other lists),
/// the market is well formed when the changed list is, and it stays apart from the rest.
proof fn lemma_wf_after_list_change(m1: Market, m2: Market, kind: ListKind, touched: Set<SectorIndex>)
    requires
        m1.wf(),
        m2.sectors@.len() == m1.sectors@.len(),
        m2.free@ == m1.free@,
        m2.header.free_stack_top == m1.header.free_stack_top,
        m2.header.num_free_sectors == m1.header.num_free_sectors,
        other_lists_unchanged(m1, m2, kind),
        forall|k: ListKind|
            k != kind ==> head_of(m2.header, k) == head_of(m1.header, k) && tail_of(m2.header, k)
                == tail_of(m1.header, k) && count_of(m2.header, k) == count_of(m1.header, k),
        forall|i: int|
            0 <= i < m1.sectors@.len() && !touched.contains(i as SectorIndex) ==> m2.sectors@[i]
                == m1.sectors@[i],
        forall|x: SectorIndex| touched.contains(x) ==> !m1.free@.contains(x),
        forall|k: ListKind, x: SectorIndex|
            k != kind && #[trigger] touched.contains(x) ==> !(#[trigger] m1.list(k)).contains(x),
        m2.list_wf(kind),
        disjoint(m2.list(kind), m2.free@),
        forall|k: ListKind| k != kind ==> disjoint(m2.list(kind), #[trigger] m2.list(k)),
    ensures
        m2.wf(),
{
    lemma_free_wf_frame(m1, m2, touched);
    assert forall|k: ListKind| k != kind implies #[trigger] m2.list_wf(k) by {
        lemma_list_wf_frame(m1, m2, k, touched);
    }
    assert forall|k: ListKind| k != kind implies disjoint(m2.free@, #[trigger] m2.list(k)) by {
        assert(m2.list(k) == m1.list(k));
        match k {
            ListKind::Seats => {},
            ListKind::Bids => {},
            ListKind::Asks => {},
        }
    }
    assert forall|x: SectorIndex| m2.list(kind).contains(x) implies !m2.free@.contains(x) by {}
    match kind {
        ListKind::Seats => {
            assert(m2.list_wf(ListKind::Bids));
            assert(m2.list_wf(ListKind::Asks));
            assert(disjoint(m2.free@, m2.bids@));
            assert(disjoint(m2.free@, m2.asks@));
            assert(disjoint(m2.seats@, m2.bids@));
            assert(disjoint(m2.seats@, m2.asks@));
            assert(m2.bids@ == m1.bids@);
            assert(m2.asks@ == m1.asks@);
        },
        ListKind::Bids => {
            assert(m2.list_wf(ListKind::Seats));
            assert(m2.list_wf(ListKind::Asks));
            assert(disjoint(m2.free@, m2.seats@));
            assert(disjoint(m2.free@, m2.asks@));
            assert(disjoint(m2.bids@, m2.seats@));
            assert(disjoint(m2.bids@, m2.asks@));
            assert(m2.seats@ == m1.seats@);
            assert(m2.asks@ == m1.asks@);
            assert forall|x: SectorIndex| m2.seats@.contains(x) implies !m2.bids@.contains(x) by {}
        },
        ListKind::Asks => {
            assert(m2.list_wf(ListKind::Seats));
            assert(m2.list_wf(ListKind::Bids));
            assert(disjoint(m2.free@, m2.seats@));
            assert(disjoint(m2.free@, m2.bids@));
            assert(disjoint(m2.asks@, m2.seats@));
            assert(disjoint(m2.asks@, m2.bids@));
            assert(m2.seats@ == m1.seats@);
            assert(m2.bids@ == m1.bids@);
            assert forall|x: SectorIndex| m2.seats@.contains(x) implies !m2.asks@.contains(x) by {}
            assert forall|x: SectorIndex| m2.bids@.contains(x) implies !m2.asks@.contains(x) by {}
        },
    }
}

/// Taking the top of the free stack into a list keeps every sector accounted for.
proof fn lemma_accounted_after_take(m1: Market, m2: Market, kind: ListKind)
    requires
        m1.wf(),
        m1.all_sectors_accounted(),
        m1.free@.len() > 0,
        m2.free@ == m1.free@.drop_first(),
        forall|y: SectorIndex| #[trigger] m2.list(kind).contains(y) <==> (y == m1.free@[0]
            || m1.list(kind).contains(y)),
        other_lists_unchanged(m1, m2, kind),
        m2.sectors@.len() == m1.sectors@.len(),
    ensures
        m2.all_sectors_accounted(),
{
    crate::state::market::lemma_contains_drop_first(m1.free@);
    assert forall|i: SectorIndex| i < m2.sectors@.len() implies m2.in_use(i) by {
        assert(m1.in_use(i));
        assert(m2.list(ListKind::Seats) == m2.seats@);
        assert(m2.list(ListKind::Bids) == m2.bids@);
        assert(m2.list(ListKind::Asks) == m2.asks@);
        if kind != ListKind::Seats {
            assert(m2.list(ListKind::Seats) == m1.list(ListKind::Seats));
        }
        if kind != ListKind::Bids {
            assert(m2.list(ListKind::Bids) == m1.list(ListKind::Bids));
        }
        if kind != ListKind::Asks {
            assert(m2.list(ListKind::Asks) == m1.list(ListKind::Asks));
        }
        if m1.list(kind).contains(i) || i == m1.free@[0] {
            assert(m2.list(kind).contains(i));
        }
    }
}

/// Giving a list's node back to the free stack keeps every sector accounted for.
proof fn lemma_accounted_after_release(m1: Market, m2: Market, kind: ListKind, x: SectorIndex)
    requires
        m1.all_sectors_accounted(),
        m2.free@ == seq![x] + m1.free@,
        forall|y: SectorIndex| #[trigger] m2.list(kind).contains(y) <==> (y != x && m1.list(
            kind,
        ).contains(y)),
        other_lists_unchanged(m1, m2, kind),
        m2.sectors@.len() == m1.sectors@.len(),
    ensures
        m2.all_sectors_accounted(),
{
    lemma_contains_cons(x, m1.free@);
    assert forall|i: SectorIndex| i < m2.sectors@.len() implies m2.in_use(i) by {
        assert(m1.in_use(i));
        assert(m2.list(ListKind::Seats) == m2.seats@);
        assert(m2.list(ListKind::Bids) == m2.bids@);
        assert(m2.list(ListKind::Asks) == m2.asks@);
        if kind != ListKind::Seats {
            assert(m2.list(ListKind::Seats) == m1.list(ListKind::Seats));
        }
        if kind != ListKind::Bids {
            assert(m2.list(ListKind::Bids) == m1.list(ListKind::Bids));
        }
        if kind != ListKind::Asks {
            assert(m2.list(ListKind::Asks) == m1.list(ListKind::Asks));
        }
        if m1.list(kind).contains(i) && i != x {
            assert(m2.list(kind).contains(i));
        }
    }
}

/// The header after inserting a node at position `pos` of a list of length `len`.
pub open spec fn header_after_insert(
    h: MarketHeader,
    kind: ListKind,
    pos: int,
    len: int,
    new_index: SectorIndex,
) -> MarketHeader {
    let h1 = if pos == 0 {
        with_head(h, kind, new_index)
    } else {
        h
    };
    let h2 = if pos == len {
        with_tail(h1, kind, new_index)
    } else {
        h1
    };
    with_count(h2, kind, saturating_inc(count_of(h, kind)))
}

/// Linking `x` at position `pos` of a linked sequence, by pointing it and its two neighbours at
/// each other, links the sequence with `x` inserted.
proof fn lemma_insert_links(l: Seq<SectorIndex>, n1: Seq<Node>, n2: Seq<Node>, pos: int, x: SectorIndex)
    requires
        indices_valid(l, n1.len()),
        next_links(l, n1),
        prev_links(l, n1),
        !l.contains(x),
        x < n1.len(),
        n1.len() < NIL,
        0 <= pos <= l.len(),
        n2.len() == n1.len(),
        n2[x as int].next == at_or_nil(l, pos),
        n2[x as int].prev == at_or_nil(l, pos - 1),
        pos > 0 ==> n2[l[pos - 1] as int] == (Node { next: x, ..n1[l[pos - 1] as int] }),
        pos < l.len() ==> n2[l[pos] as int] == (Node { prev: x, ..n1[l[pos] as int] }),
        forall|i: int|
            0 <= i < n1.len() && i != x && i != at_or_nil(l, pos) && i != at_or_nil(l, pos - 1)
                ==> n2[i] == n1[i],
    ensures
        next_links(l.insert(pos, x), n2),
        prev_links(l.insert(pos, x), n2),
{
    let nl = l.insert(pos, x);
    assert forall|k: int| 0 <= k < nl.len() implies #[trigger] n2[nl[k] as int].next == next_in(
        nl,
        k,
    ) && n2[nl[k] as int].prev == prev_in(nl, k) by {
        if k < pos - 1 {
            assert(nl[k] == l[k]);
            assert(l[k] != l[pos - 1]);
            if pos < l.len() {
                assert(l[k] != l[pos]);
            }
            assert(l.contains(l[k]));
            assert(l[k] != x);
            assert(l[k] < n1.len());
            assert(n2[nl[k] as int] == n1[l[k] as int]);
            assert(n1[l[k] as int].next == next_in(l, k));
            assert(n1[l[k] as int].prev == prev_in(l, k));
        } else if k == pos - 1 {
            assert(nl[k] == l[k]);
            assert(n1[l[k] as int].prev == prev_in(l, k));
        } else if k == pos {
            assert(nl[k] == x);
        } else if k == pos + 1 {
            assert(nl[k] == l[pos]);
            assert(n1[l[pos] as int].next == next_in(l, pos));
        } else {
            assert(nl[k] == l[k - 1]);
            assert(l[k - 1] != l[pos]);
            if pos > 0 {
                assert(l[k - 1] != l[pos - 1]);
            }
            assert(l.contains(l[k - 1]));
            assert(l[k - 1] != x);
            assert(l[k - 1] < n1.len());
            assert(n2[nl[k] as int] == n1[l[k - 1] as int]);
            assert(n1[l[k - 1] as int].next == next_in(l, k - 1));
            assert(n1[l[k - 1] as int].prev == prev_in(l, k - 1));
        }
    }
}

/// The market after linking the unused sector `new_index` at position `pos` of a list is well
/// formed: the neighbours at `pos - 1` and `pos` now point to it, and it points to them.
proof fn lemma_insert_wf(m1: Market, m2: Market, kind: ListKind, pos: int, new_index: SectorIndex)
    requires
        m1.wf(),
        0 <= pos <= m1.list(kind).len(),
        new_index < m1.sectors@.len(),
        !m1.in_use(new_index),
        m2.sectors@.len() == m1.sectors@.len(),
        m2.sectors@[new_index as int].next == at_or_nil(m1.list(kind), pos),
        m2.sectors@[new_index as int].prev == at_or_nil(m1.list(kind), pos - 1),
        pos > 0 ==> m2.sectors@[m1.list(kind)[pos - 1] as int] == (Node {
            next: new_index,
            ..m1.sectors@[m1.list(kind)[pos - 1] as int]
        }),
        pos < m1.list(kind).len() ==> m2.sectors@[m1.list(kind)[pos] as int] == (Node {
            prev: new_index,
            ..m1.sectors@[m1.list(kind)[pos] as int]
        }),
        forall|i: int|
            0 <= i < m1.sectors@.len() && i != new_index && i != at_or_nil(m1.list(kind), pos)
                && i != at_or_nil(m1.list(kind), pos - 1) ==> m2.sectors@[i] == m1.sectors@[i],
        m2.free == m1.free,
        m2.list(kind) == m1.list(kind).insert(pos, new_index),
        other_lists_unchanged(m1, m2, kind),
        m2.header == header_after_insert(
            m1.header,
            kind,
            pos,
            m1.list(kind).len() as int,
            new_index,
        ),
    ensures
        m2.wf(),
{
    let l = m1.list(kind);
    let nl = m2.list(kind);
    let nodes = m2.sectors@;
    let p = at_or_nil(l, pos - 1);
    let q = at_or_nil(l, pos);
    let touched = set![new_index, p, q];
    assert(m1.list_wf(kind)) by {
        match kind {
            ListKind::Seats => {},
            ListKind::Bids => {},
            ListKind::Asks => {},
        }
    }
    assert(!l.contains(new_index)) by {
        match kind {
            ListKind::Seats => {},
            ListKind::Bids => {},
            ListKind::Asks => {},
        }
    }
    lemma_contains_insert(l, pos, new_index);
    assert forall|k: ListKind| k != kind implies head_of(m2.header, k) == head_of(m1.header, k)
        && tail_of(m2.header, k) == tail_of(m1.header, k) && count_of(m2.header, k) == count_of(
        m1.header,
        k,
    ) by {
        match kind {
            ListKind::Seats => {},
            ListKind::Bids => {},
            ListKind::Asks => {},
        }
    }
    assert(m2.header.free_stack_top == m1.header.free_stack_top
        && m2.header.num_free_sectors == m1.header.num_free_sectors) by {
        match kind {
            ListKind::Seats => {},
            ListKind::Bids => {},
            ListKind::Asks => {},
        }
    }
    assert(p != NIL ==> l.contains(p));
    assert(q != NIL ==> l.contains(q));
    assert forall|i: int|
        0 <= i < m1.sectors@.len() && !touched.contains(i as SectorIndex) implies m2.sectors@[i]
        == m1.sectors@[i] by {}
    assert forall|x: SectorIndex| touched.contains(x) implies !m1.free@.contains(x) by {}
    assert forall|k: ListKind, x: SectorIndex|
        k != kind && #[trigger] touched.contains(x) implies !(#[trigger] m1.list(k)).contains(x) by {
        match kind {
            ListKind::Seats => {},
            ListKind::Bids => {},
            ListKind::Asks => {},
        }
    }
    lemma_valid_insert(l, pos, new_index, nodes.len());
    lemma_insert_links(l, m1.sectors@, nodes, pos, new_index);
    crate::state::market::lemma_indices_bounded(nl, nodes.len());
    assert(count_of(m1.header, kind) == l.len());
    assert(count_of(m2.header, kind) == nl.len()) by {
        match kind {
            ListKind::Seats => {},
            ListKind::Bids => {},
            ListKind::Asks => {},
        }
    }
    assert(head_of(m2.header, kind) == first_or_nil(nl)) by {
        assert(head_of(m1.header, kind) == first_or_nil(l));
        if pos > 0 {
            assert(nl[0] == l[0]);
        }
        match kind {
            ListKind::Seats => {},
            ListKind::Bids => {},
            ListKind::Asks => {},
        }
    }
    assert(tail_of(m2.header, kind) == last_or_nil(nl)) by {
        assert(tail_of(m1.header, kind) == last_or_nil(l));
        if pos < l.len() {
            assert(nl.last() == l.last());
        }
        match kind {
            ListKind::Seats => {},
            ListKind::Bids => {},
            ListKind::Asks => {},
        }
    }
    assert(m2.list_wf(kind));
    assert forall|x: SectorIndex| nl.contains(x) implies !m2.free@.contains(x) by {
        match kind {
            ListKind::Seats => {},
            ListKind::Bids => {},
            ListKind::Asks => {},
        }
    }
    assert forall|k: ListKind| k != kind implies disjoint(nl, #[trigger] m2.list(k)) by {
        assert(m2.list(k) == m1.list(k));
        assert forall|x: SectorIndex| nl.contains(x) implies !m2.list(k).contains(x) by {
            match kind {
                ListKind::Seats => {},
                ListKind::Bids => {},
                ListKind::Asks => {},
            }
        }
    }
    lemma_wf_after_list_change(m1, m2, kind, touched);
}

/// The header after removing the node at position `pos` of a list `l`.
pub open spec fn header_after_remove(
    h: MarketHeader,
    kind: ListKind,
    l: Seq<SectorIndex>,
    pos: int,
) -> MarketHeader {
    let h1 = if pos == 0 {
        with_head(h, kind, next_in(l, pos))
    } else {
        h
    };
    let h2 = if pos == l.len() - 1 {
        with_tail(h1, kind, prev_in(l, pos))
    } else {
        h1
    };
    with_count(h2, kind, saturating_dec(count_of(h, kind)))
}

/// Pointing the two neighbours of position `pos` of a linked sequence at each other links the
/// sequence with that position removed.
proof fn lemma_remove_links(l: Seq<SectorIndex>, n1: Seq<Node>, n2: Seq<Node>, pos: int)
    requires
        indices_valid(l, n1.len()),
        next_links(l, n1),
        prev_links(l, n1),
        n1.len() < NIL,
        0 <= pos < l.len(),
        n2.len() == n1.len(),
        pos > 0 ==> n2[l[pos - 1] as int] == (Node { next: next_in(l, pos), ..n1[l[pos - 1] as int] }),
        pos + 1 < l.len() ==> n2[l[pos + 1] as int] == (Node {
            prev: prev_in(l, pos),
            ..n1[l[pos + 1] as int]
        }),
        forall|i: int|
            0 <= i < n1.len() && i != at_or_nil(l, pos + 1) && i != at_or_nil(l, pos - 1) ==> n2[i]
                == n1[i],
    ensures
        next_links(l.remove(pos), n2),
        prev_links(l.remove(pos), n2),
{
    let nl = l.remove(pos);
    assert forall|k: int| 0 <= k < nl.len() implies #[trigger] n2[nl[k] as int].next == next_in(
        nl,
        k,
    ) && n2[nl[k] as int].prev == prev_in(nl, k) by {
        if k < pos - 1 {
            assert(nl[k] == l[k]);
            assert(l[k] != l[pos - 1]);
            if pos + 1 < l.len() {
                assert(l[k] != l[pos + 1]);
            }
            assert(l[k] < n1.len());
            assert(n2[nl[k] as int] == n1[l[k] as int]);
            assert(n1[l[k] as int].next == next_in(l, k));
            assert(n1[l[k] as int].prev == prev_in(l, k));
        } else if k == pos - 1 {
            assert(nl[k] == l[k]);
            assert(n1[l[k] as int].prev == prev_in(l, k));
        } else if k == pos {
            assert(nl[k] == l[pos + 1]);
            assert(n1[l[pos + 1] as int].next == next_in(l, pos + 1));
        } else {
            assert(nl[k] == l[k + 1]);
            assert(l[k + 1] != l[pos + 1]);
            if pos > 0 {
                assert(l[k + 1] != l[pos - 1]);
            }
            assert(l[k + 1] < n1.len());
            assert(n2[nl[k] as int] == n1[l[k + 1] as int]);
            assert(n1[l[k + 1] as int].next == next_in(l, k + 1));
            assert(n1[l[k + 1] as int].prev == prev_in(l, k + 1));
        }
    }
}

/// The market after unlinking the node at position `pos` of a list is well formed, and that
/// node's sector is no longer in use.
proof fn lemma_remove_wf(m1: Market, m2: Market, kind: ListKind, pos: int)
    requires
        m1.wf(),
        0 <= pos < m1.list(kind).len(),
        m2.sectors@.len() == m1.sectors@.len(),
        pos > 0 ==> m2.sectors@[m1.list(kind)[pos - 1] as int] == (Node {
            next: next_in(m1.list(kind), pos),
            ..m1.sectors@[m1.list(kind)[pos - 1] as int]
        }),
        pos + 1 < m1.list(kind).len() ==> m2.sectors@[m1.list(kind)[pos + 1] as int] == (Node {
            prev: prev_in(m1.list(kind), pos),
            ..m1.sectors@[m1.list(kind)[pos + 1] as int]
        }),
        forall|i: int|
            0 <= i < m1.sectors@.len() && i != at_or_nil(m1.list(kind), pos + 1) && i != at_or_nil(
                m1.list(kind),
                pos - 1,
            ) ==> m2.sectors@[i] == m1.sectors@[i],
        m2.free == m1.free,
        m2.list(kind) == m1.list(kind).remove(pos),
        other_lists_unchanged(m1, m2, kind),
        m2.header == header_after_remove(m1.header, kind, m1.list(kind), pos),
    ensures
        m2.wf(),
        !m2.in_use(m1.list(kind)[pos]),
{
    let l = m1.list(kind);
    let nl = m2.list(kind);
    let nodes = m2.sectors@;
    let p = at_or_nil(l, pos - 1);
    let q = at_or_nil(l, pos + 1);
    let touched = set![p, q];
    assert(m1.list_wf(kind)) by {
        match kind {
            ListKind::Seats => {},
            ListKind::Bids => {},
            ListKind::Asks => {},
        }
    }
    lemma_contains_remove(l, pos);
    assert forall|k: ListKind| k != kind implies head_of(m2.header, k) == head_of(m1.header, k)
        && tail_of(m2.header, k) == tail_of(m1.header, k) && count_of(m2.header, k) == count_of(
        m1.header,
        k,
    ) by {
        match kind {
            ListKind::Seats => {},
            ListKind::Bids => {},
            ListKind::Asks => {},
        }
    }
    assert(m2.header.free_stack_top == m1.header.free_stack_top
        && m2.header.num_free_sectors == m1.header.num_free_sectors) by {
        match kind {
            ListKind::Seats => {},
            ListKind::Bids => {},
            ListKind::Asks => {},
        }
    }
    assert(p != NIL ==> l.contains(p));
    assert(q != NIL ==> l.contains(q));
    assert forall|x: SectorIndex| touched.contains(x) implies !m1.free@.contains(x) by {}
    assert forall|k: ListKind, x: SectorIndex|
        k != kind && #[trigger] touched.contains(x) implies !(#[trigger] m1.list(k)).contains(x) by {
        match kind {
            ListKind::Seats => {},
            ListKind::Bids => {},
            ListKind::Asks => {},
        }
    }
    lemma_valid_remove(l, pos, nodes.len());
    lemma_remove_links(l, m1.sectors@, nodes, pos);
    assert(count_of(m1.header, kind) == l.len());
    assert(count_of(m2.header, kind) == nl.len()) by {
        match kind {
            ListKind::Seats => {},
            ListKind::Bids => {},
            ListKind::Asks => {},
        }
    }
    assert(head_of(m2.header, kind) == first_or_nil(nl)) by {
        assert(head_of(m1.header, kind) == first_or_nil(l));
        if pos > 0 {
            assert(nl[0] == l[0]);
        } else if nl.len() > 0 {
            assert(nl[0] == l[1]);
        }
        match kind {
            ListKind::Seats => {},
            ListKind::Bids => {},
            ListKind::Asks => {},
        }
    }
    assert(tail_of(m2.header, kind) == last_or_nil(nl)) by {
        assert(tail_of(m1.header, kind) == last_or_nil(l));
        if pos < l.len() - 1 {
            assert(nl.last() == l.last());
        } else if nl.len() > 0 {
            assert(nl.last() == l[pos - 1]);
        }
        match kind {
            ListKind::Seats => {},
            ListKind::Bids => {},
            ListKind::Asks => {},
        }
    }
    assert(m2.list_wf(kind));
    assert forall|x: SectorIndex| nl.contains(x) implies !m2.free@.contains(x) by {
        match kind {
            ListKind::Seats => {},
            ListKind::Bids => {},
            ListKind::Asks => {},
        }
    }
    assert forall|k: ListKind| k != kind implies disjoint(nl, #[trigger] m2.list(k)) by {
        assert(m2.list(k) == m1.list(k));
        assert forall|x: SectorIndex| nl.contains(x) implies !m2.list(k).contains(x) by {
            match kind {
                ListKind::Seats => {},
                ListKind::Bids => {},
                ListKind::Asks => {},
            }
        }
    }
    lemma_wf_after_list_change(m1, m2, kind, touched);
    let x = l[pos];
    assert(!nl.contains(x));
    assert(l.contains(x));
    match kind {
        ListKind::Seats => {},
        ListKind::Bids => {},
        ListKind::Asks => {},
    }
}

impl Market {
    fn set_head(&mut self, kind: ListKind, index: SectorIndex)
        ensures
            final(self).header == with_head(old(self).header, kind, index),
            final(self).sectors@ == old(self).sectors@,
            final(self).free == old(self).free,
            final(self).seats == old(self).seats,
            final(self).bids == old(self).bids,
            final(self).asks == old(self).asks,
    {
        match kind {
            ListKind::Seats => self.header.set_seats_dll_head(index),
            ListKind::Bids => self.header.set_bids_dll_head(index),
            ListKind::Asks => self.header.set_asks_dll_head(index),
        }
    }

    fn set_tail(&mut self, kind: ListKind, index: SectorIndex)
        ensures
            final(self).header == with_tail(old(self).header, kind, index),
            final(self).sectors@ == old(self).sectors@,
            final(self).free == old(self).free,
            final(self).seats == old(self).seats,
            final(self).bids == old(self).bids,
            final(self).asks == old(self).asks,
    {
        match kind {
            ListKind::Seats => self.header.set_seats_dll_tail(index),
            ListKind::Bids => self.header.set_bids_dll_tail(index),
            ListKind::Asks => self.header.set_asks_dll_tail(index),
        }
    }

    fn increment_num_nodes(&mut self, kind: ListKind)
        ensures
            final(self).header == with_count(
                old(self).header,
                kind,
                saturating_inc(count_of(old(self).header, kind)),
            ),
            final(self).sectors@ == old(self).sectors@,
            final(self).free == old(self).free,
            final(self).seats == old(self).seats,
            final(self).bids == old(self).bids,
            final(self).asks == old(self).asks,
    {
        match kind {
            ListKind::Seats => self.header.increment_num_seats(),
            ListKind::Bids => self.header.increment_num_bids(),
            ListKind::Asks => self.header.increment_num_asks(),
        }
    }

    fn decrement_num_nodes(&mut self, kind: ListKind)
        ensures
            final(self).header == with_count(
                old(self).header,
                kind,
                saturating_dec(count_of(old(self).header, kind)),
            ),
            final(self).sectors@ == old(self).sectors@,
            final(self).free == old(self).free,
            final(self).seats == old(self).seats,
            final(self).bids == old(self).bids,
            final(self).asks == old(self).asks,
    {
        match kind {
            ListKind::Seats => self.header.decrement_num_seats(),
            ListKind::Bids => self.header.decrement_num_bids(),
            ListKind::Asks => self.header.decrement_num_asks(),
        }
    }

    fn set_list(&mut self, kind: ListKind, s: Ghost<Seq<SectorIndex>>)
        ensures
            final(self).list(kind) == s@,
            other_lists_unchanged(*old(self), *final(self), kind),
            final(self).header == old(self).header,
            final(self).sectors@ == old(self).sectors@,
            final(self).free == old(self).free,
    {
        match kind {
            ListKind::Seats => self.seats = s,
            ListKind::Bids => self.bids = s,
            ListKind::Asks => self.asks = s,
        }
    }

    /// Pops a node from the free stack; a returned index is in bounds and not [`NIL`].
    fn acquire_free_node(&mut self) -> (r: Result<SectorIndex, DropsetError>)
        requires
            old(self).wf(),
        ensures
            final(self).wf(),
            final(self).seats == old(self).seats,
            final(self).bids == old(self).bids,
            final(self).asks == old(self).asks,
            same_identity(final(self).header, old(self).header),
            old(self).free@.len() == 0 ==> r == Err::<SectorIndex, DropsetError>(
                DropsetError::NoFreeNodesLeft,
            ) && final(self).free == old(self).free && final(self).sectors@ == old(
                self,
            ).sectors@ && final(self).header == old(self).header,
            old(self).free@.len() > 0 ==> r == Ok::<SectorIndex, DropsetError>(old(self).free@[0])
                && final(self).free@ == old(self).free@.drop_first() && payloads_unchanged_except(
                *old(self),
                *final(self),
                NIL,
            ) && !final(self).in_use(old(self).free@[0]) && final(self).header.num_free_sectors
                == saturating_dec(old(self).header.num_free_sectors),
    {
        let ghost old_self = *self;
        let r = self.remove_free_node();
        proof {
            if old_self.free@.len() > 0 {
                crate::state::market::lemma_contains_drop_first(old_self.free@);
            }
        }
        r
    }

    /// Links a node holding `payload` at the front of a list, taking its sector from the free
    /// stack, and returns the sector index. Fails with `NoFreeNodesLeft`, changing nothing,
    /// when no free node is left.
    pub fn push_front(&mut self, kind: ListKind, payload: &[u8; NODE_PAYLOAD_SIZE]) -> (r: Result<
        SectorIndex,
        DropsetError,
    >)
        requires
            old(self).wf(),
        ensures
            final(self).wf(),
            same_identity(final(self).header, old(self).header),
            old(self).free@.len() == 0 ==> r == Err::<SectorIndex, DropsetError>(
                DropsetError::NoFreeNodesLeft,
            ) && final(self).free == old(self).free && final(self).seats == old(self).seats
                && final(self).bids == old(self).bids && final(self).asks == old(self).asks
                && final(self).sectors@ == old(self).sectors@ && final(self).header == old(
                self,
            ).header,
            old(self).free@.len() > 0 ==> r == Ok::<SectorIndex, DropsetError>(old(self).free@[0])
                && final(self).free@ == old(self).free@.drop_first() && final(self).list(kind)
                == seq![old(self).free@[0]] + old(self).list(kind) && other_lists_unchanged(
                *old(self),
                *final(self),
                kind,
            ) && final(self).payload_at(old(self).free@[0]) == payload@
                && payloads_unchanged_except(*old(self), *final(self), old(self).free@[0])
                && final(self).header.num_free_sectors == old(self).header.num_free_sectors - 1,
            old(self).all_sectors_accounted() ==> final(self).all_sectors_accounted(),
    {
        let ghost m0 = *self;
        let new_index = match self.acquire_free_node() {
            Ok(i) => i,
            Err(e) => {
                proof {
                    if m0.all_sectors_accounted() {
                        assert forall|i: SectorIndex| i < self.sectors@.len() implies self.in_use(
                            i,
                        ) by {
                            assert(m0.in_use(i));
                        }
                    }
                }
                return Err(e);
            },
        };
        let ghost m1 = *self;
        let head_index = self.head(kind);
        let new_node = Node { next: head_index, prev: NIL, payload: *payload };
        self.set_node(new_index, new_node);
        if head_index == NIL {
            self.set_tail(kind, new_index);
        } else {
            let mut head = self.node(head_index);
            head.set_prev(new_index);
            self.set_node(head_index, head);
        }
        self.set_head(kind, new_index);
        self.increment_num_nodes(kind);
        self.set_list(kind, Ghost(seq![new_index] + m1.list(kind)));
        proof {
            assert(m1.list(kind).insert(0, new_index) =~= seq![new_index] + m1.list(kind));
            assert(m1.list_wf(kind)) by {
                match kind {
                    ListKind::Seats => {},
                    ListKind::Bids => {},
                    ListKind::Asks => {},
                }
            }
            assert(self.header == header_after_insert(
                m1.header,
                kind,
                0,
                m1.list(kind).len() as int,
                new_index,
            ));
            lemma_insert_wf(m1, *self, kind, 0, new_index);
            if m0.all_sectors_accounted() {
                lemma_contains_insert(m1.list(kind), 0, new_index);
                assert(m1.list(kind) == m0.list(kind)) by {
                    match kind {
                        ListKind::Seats => {},
                        ListKind::Bids => {},
                        ListKind::Asks => {},
                    }
                }
                lemma_accounted_after_take(m0, *self, kind);
            }
            assert(payloads_unchanged_except(m0, *self, new_index)) by {
                assert forall|i: int| 0 <= i < m0.sectors@.len() && i != new_index implies #[trigger] self.sectors@[i].payload
                    == m0.sectors@[i].payload by {
                    assert(m1.sectors@[i].payload == m0.sectors@[i].payload);
                    if i != head_index {
                        assert(self.sectors@[i] == m1.sectors@[i]);
                    }
                }
            }
        }
        Ok(new_index)
    }

    /// Links a node holding `payload` at the back of a list, taking its sector from the free
    /// stack, and returns the sector index. Fails with `NoFreeNodesLeft`, changing nothing,
    /// when no free node is left.
    pub fn push_back(&mut self, kind: ListKind, payload: &[u8; NODE_PAYLOAD_SIZE]) -> (r: Result<
        SectorIndex,
        DropsetError,
    >)
        requires
            old(self).wf(),
        ensures
            final(self).wf(),
            same_identity(final(self).header, old(self).header),
            old(self).free@.len() == 0 ==> r == Err::<SectorIndex, DropsetError>(
                DropsetError::NoFreeNodesLeft,
            ) && final(self).free == old(self).free && final(self).seats == old(self).seats
                && final(self).bids == old(self).bids && final(self).asks == old(self).asks
                && final(self).sectors@ == old(self).sectors@ && final(self).header == old(
                self,
            ).header,
            old(self).free@.len() > 0 ==> r == Ok::<SectorIndex, DropsetError>(old(self).free@[0])
                && final(self).free@ == old(self).free@.drop_first() && final(self).list(kind)
                == old(self).list(kind).push(old(self).free@[0]) && other_lists_unchanged(
                *old(self),
                *final(self),
                kind,
            ) && final(self).payload_at(old(self).free@[0]) == payload@
                && payloads_unchanged_except(*old(self), *final(self), old(self).free@[0])
                && final(self).header.num_free_sectors == old(self).header.num_free_sectors - 1,
            old(self).all_sectors_accounted() ==> final(self).all_sectors_accounted(),
    {
        let ghost m0 = *self;
        let new_index = match self.acquire_free_node() {
            Ok(i) => i,
            Err(e) => {
                proof {
                    if m0.all_sectors_accounted() {
                        assert forall|i: SectorIndex| i < self.sectors@.len() implies self.in_use(
                            i,
                        ) by {
                            assert(m0.in_use(i));
                        }
                    }
                }
                return Err(e);
            },
        };
        let ghost m1 = *self;
        let tail_index = self.tail(kind);
        let new_node = Node { next: NIL, prev: tail_index, payload: *payload };
        self.set_node(new_index, new_node);
        if tail_index == NIL {
            self.set_head(kind, new_index);
        } else {
            let mut tail = self.node(tail_index);
            tail.set_next(new_index);
            self.set_node(tail_index, tail);
        }
        self.set_tail(kind, new_index);
        self.increment_num_nodes(kind);
        self.set_list(kind, Ghost(m1.list(kind).push(new_index)));
        proof {
            let l = m1.list(kind);
            assert(m1.list_wf(kind)) by {
                match kind {
                    ListKind::Seats => {},
                    ListKind::Bids => {},
                    ListKind::Asks => {},
                }
            }
            assert(l.insert(l.len() as int, new_index) =~= l.push(new_index));
            assert(self.header == header_after_insert(
                m1.header,
                kind,
                l.len() as int,
                l.len() as int,
                new_index,
            )) by {
                match kind {
                    ListKind::Seats => {},
                    ListKind::Bids => {},
                    ListKind::Asks => {},
                }
            }
            lemma_insert_wf(m1, *self, kind, l.len() as int, new_index);
            if m0.all_sectors_accounted() {
                lemma_contains_insert(l, l.len() as int, new_index);
                assert(m1.list(kind) == m0.list(kind)) by {
                    match kind {
                        ListKind::Seats => {},
                        ListKind::Bids => {},
                        ListKind::Asks => {},
                    }
                }
                lemma_accounted_after_take(m0, *self, kind);
            }
            assert(payloads_unchanged_except(m0, *self, new_index)) by {
                assert forall|i: int| 0 <= i < m0.sectors@.len() && i != new_index implies #[trigger] self.sectors@[i].payload
                    == m0.sectors@[i].payload by {
                    assert(m1.sectors@[i].payload == m0.sectors@[i].payload);
                    if i != tail_index {
                        assert(self.sectors@[i] == m1.sectors@[i]);
                    }
                }
            }
        }
        Ok(new_index)
    }

    /// Links a node holding `payload` right before the node in sector `next_index` of a list,
    /// taking its sector from the free stack, and returns the sector index. Fails with
    /// `NoFreeNodesLeft`, changing nothing, when no free node is left.
    pub fn insert_before(
        &mut self,
        kind: ListKind,
        next_index: SectorIndex,
        payload: &[u8; NODE_PAYLOAD_SIZE],
    ) -> (r: Result<SectorIndex, DropsetError>)
        requires
            old(self).wf(),
            old(self).list(kind).contains(next_index),
        ensures
            final(self).wf(),
            same_identity(final(self).header, old(self).header),
            old(self).free@.len() == 0 ==> r == Err::<SectorIndex, DropsetError>(
                DropsetError::NoFreeNodesLeft,
            ) && final(self).free == old(self).free && final(self).seats == old(self).seats
                && final(self).bids == old(self).bids && final(self).asks == old(self).asks
                && final(self).sectors@ == old(self).sectors@ && final(self).header == old(
                self,
            ).header,
            old(self).free@.len() > 0 ==> r == Ok::<SectorIndex, DropsetError>(old(self).free@[0])
                && final(self).free@ == old(self).free@.drop_first() && final(self).list(kind)
                == old(self).list(kind).insert(
                old(self).list(kind).index_of(next_index),
                old(self).free@[0],
            ) && other_lists_unchanged(*old(self), *final(self), kind) && final(self).payload_at(
                old(self).free@[0],
            ) == payload@ && payloads_unchanged_except(*old(self), *final(self), old(self).free@[0])
                && final(self).header.num_free_sectors == old(self).header.num_free_sectors - 1,
            old(self).all_sectors_accounted() ==> final(self).all_sectors_accounted(),
    {
        let ghost m0 = *self;
        let ghost pos = m0.list(kind).index_of(next_index);
        let new_index = match self.acquire_free_node() {
            Ok(i) => i,
            Err(e) => {
                proof {
                    if m0.all_sectors_accounted() {
                        assert forall|i: SectorIndex| i < self.sectors@.len() implies self.in_use(
                            i,
                        ) by {
                            assert(m0.in_use(i));
                        }
                    }
                }
                return Err(e);
            },
        };
        let ghost m1 = *self;
        proof {
            assert(m1.list_wf(kind)) by {
                match kind {
                    ListKind::Seats => {},
                    ListKind::Bids => {},
                    ListKind::Asks => {},
                }
            }
            assert(m1.list(kind)[pos] == next_index);
            assert(next_index < m1.sectors@.len());
            assert(!m1.list(kind).contains(new_index));
        }
        let mut next_node = self.node(next_index);
        let prev_index = next_node.prev();
        next_node.set_prev(new_index);
        self.set_node(next_index, next_node);
        let new_node = Node { next: next_index, prev: prev_index, payload: *payload };
        self.set_node(new_index, new_node);
        if prev_index == NIL {
            self.set_head(kind, new_index);
        } else {
            proof {
                assert(prev_index == m1.list(kind)[pos - 1]);
                assert(m1.list(kind)[pos - 1] < m1.sectors@.len());
            }
            let mut prev = self.node(prev_index);
            prev.set_next(new_index);
            self.set_node(prev_index, prev);
        }
        self.increment_num_nodes(kind);
        self.set_list(kind, Ghost(m1.list(kind).insert(pos, new_index)));
        proof {
            let l = m1.list(kind);
            assert(self.header == header_after_insert(
                m1.header,
                kind,
                pos,
                l.len() as int,
                new_index,
            )) by {
                match kind {
                    ListKind::Seats => {},
                    ListKind::Bids => {},
                    ListKind::Asks => {},
                }
            }
            lemma_insert_wf(m1, *self, kind, pos, new_index);
            if m0.all_sectors_accounted() {
                lemma_contains_insert(m1.list(kind), pos, new_index);
                assert(m1.list(kind) == m0.list(kind)) by {
                    match kind {
                        ListKind::Seats => {},
                        ListKind::Bids => {},
                        ListKind::Asks => {},
                    }
                }
                lemma_accounted_after_take(m0, *self, kind);
            }
            assert(payloads_unchanged_except(m0, *self, new_index)) by {
                assert forall|i: int| 0 <= i < m0.sectors@.len() && i != new_index implies #[trigger] self.sectors@[i].payload
                    == m0.sectors@[i].payload by {
                    assert(m1.sectors@[i].payload == m0.sectors@[i].payload);
                    if i != next_index && i != prev_index {
                        assert(self.sectors@[i] == m1.sectors@[i]);
                    }
                }
            }
        }
        Ok(new_index)
    }

    /// Unlinks the node in sector `index` from a list and pushes its sector onto the free stack
    /// (which zeroes its payload and counts it as free).
    pub fn remove_at(&mut self, kind: ListKind, index: SectorIndex)
        requires
            old(self).wf(),
            old(self).list(kind).contains(index),
        ensures
            final(self).wf(),
            same_identity(final(self).header, old(self).header),
            final(self).list(kind) == old(self).list(kind).remove(
                old(self).list(kind).index_of(index),
            ),
            other_lists_unchanged(*old(self), *final(self), kind),
            final(self).free@ == seq![index] + old(self).free@,
            final(self).payload_at(index) == Seq::new(NODE_PAYLOAD_SIZE as nat, |i: int| 0u8),
            payloads_unchanged_except(*old(self), *final(self), index),
            final(self).header.num_free_sectors == old(self).header.num_free_sectors + 1,
            old(self).all_sectors_accounted() ==> final(self).all_sectors_accounted(),
    {
        let ghost m0 = *self;
        let ghost l = m0.list(kind);
        let ghost pos = l.index_of(index);
        proof {
            assert(m0.list_wf(kind)) by {
                match kind {
                    ListKind::Seats => {},
                    ListKind::Bids => {},
                    ListKind::Asks => {},
                }
            }
            assert(l[pos] == index);
            assert(index < m0.sectors@.len());
        }
        let node = self.node(index);
        let prev_index = node.prev();
        let next_index = node.next();
        proof {
            assert(prev_index == prev_in(l, pos));
            assert(next_index == next_in(l, pos));
            if pos > 0 {
                assert(l[pos - 1] < m0.sectors@.len());
            }
            if pos + 1 < l.len() {
                assert(l[pos + 1] < m0.sectors@.len());
                if pos > 0 {
                    assert(l[pos + 1] != l[pos - 1]);
                }
            }
        }
        if prev_index == NIL {
            self.set_head(kind, next_index);
        } else {
            let mut prev = self.node(prev_index);
            prev.set_next(next_index);
            self.set_node(prev_index, prev);
        }
        if next_index == NIL {
            self.set_tail(kind, prev_index);
        } else {
            let mut next = self.node(next_index);
            next.set_prev(prev_index);
            self.set_node(next_index, next);
        }
        self.decrement_num_nodes(kind);
        self.set_list(kind, Ghost(l.remove(pos)));
        let ghost m1 = *self;
        proof {
            assert(self.header == header_after_remove(m0.header, kind, l, pos)) by {
                match kind {
                    ListKind::Seats => {},
                    ListKind::Bids => {},
                    ListKind::Asks => {},
                }
            }
            lemma_remove_wf(m0, *self, kind, pos);
        }
        self.push_free_node(index);
        proof {
            assert(payloads_unchanged_except(m0, *self, index)) by {
                assert forall|i: int| 0 <= i < m0.sectors@.len() && i != index implies #[trigger] self.sectors@[i].payload
                    == m0.sectors@[i].payload by {
                    assert(self.sectors@[i] == m1.sectors@[i]);
                    if i != prev_index && i != next_index {
                        assert(m1.sectors@[i] == m0.sectors@[i]);
                    }
                }
            }
            assert(self.payload_at(index) =~= Seq::new(NODE_PAYLOAD_SIZE as nat, |i: int| 0u8));
            assert(other_lists_unchanged(m0, *self, kind)) by {
                assert forall|k: ListKind| k != kind implies #[trigger] self.list(k) == m0.list(k) by {
                    assert(m1.list(k) == m0.list(k));
                }
            }
            if m0.all_sectors_accounted() {
                assert(m0.list_wf(kind)) by {
                    match kind {
                        ListKind::Seats => {},
                        ListKind::Bids => {},
                        ListKind::Asks => {},
                    }
                }
                lemma_contains_remove(l, pos);
                assert(self.list(kind) == m1.list(kind)) by {
                    match kind {
                        ListKind::Seats => {},
                        ListKind::Bids => {},
                        ListKind::Asks => {},
                    }
                }
                lemma_accounted_after_release(m0, *self, kind, index);
            }
        }
    }
}

/// Law: unlinking the node that an insertion linked gives the list back, and pushing its sector
/// onto the free stack gives the stack back (last in, first out).
pub proof fn lemma_remove_undoes_insert(l: Seq<SectorIndex>, free: Seq<SectorIndex>, pos: int)
    requires
        0 <= pos <= l.len(),
        free.len() > 0,
        l.insert(pos, free[0]).no_duplicates(),
    ensures
        l.insert(pos, free[0]).remove(l.insert(pos, free[0]).index_of(free[0])) == l,
        seq![free[0]] + free.drop_first() == free,
{
    let t = l.insert(pos, free[0]);
    let i = t.index_of(free[0]);
    assert(t[pos] == free[0]);
    assert(0 <= i < t.len() && t[i] == free[0]);
    assert(i == pos);
    assert(t.remove(pos) =~= l);
    assert(seq![free[0]] + free.drop_first() =~= free);
}

} // verus!
