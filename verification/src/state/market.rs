//! A market: its header and its sectors, each sector holding one [`Node`].
//!
//! Every sector is a free node on the free stack or a node of one of the three sorted, doubly
//! linked lists (seats, bids, asks). The lists themselves are tracked as ghost sequences of
//! sector indices; [`Market::wf`] ties them to the header roots and to the node links.

use vstd::prelude::*;

use crate::error::{
    DropsetError,
    DropsetResult,
};
use crate::le_bytes::push_bytes;
use crate::state::market_header::{
    MarketHeader,
    MARKET_ACCOUNT_DISCRIMINANT,
    MARKET_HEADER_SIZE,
};
use crate::state::node::{
    Node,
    NODE_PAYLOAD_SIZE,
};
use crate::state::sector::{
    SectorIndex,
    NIL,
    SECTOR_SIZE,
};
use crate::state::transmutable::Transmutable;

verus! {

/// Which of the three doubly linked lists of a market.
#[derive(Clone, Copy, Debug, PartialEq, Eq, Structural)]
pub enum ListKind {
    /// The seats, sorted by user key.
    Seats,
    /// The bid orders, highest price first.
    Bids,
    /// The ask orders, lowest price first.
    Asks,
}

/// The first element of `s`, or [`NIL`] when `s` is empty.
pub open spec fn first_or_nil(s: Seq<SectorIndex>) -> SectorIndex {
    if s.len() == 0 {
        NIL
    } else {
        s[0]
    }
}

/// The last element of `s`, or [`NIL`] when `s` is empty.
pub open spec fn last_or_nil(s: Seq<SectorIndex>) -> SectorIndex {
    if s.len() == 0 {
        NIL
    } else {
        s.last()
    }
}

/// The element after position `k` of `s`, or [`NIL`] at the end.
pub open spec fn next_in(s: Seq<SectorIndex>, k: int) -> SectorIndex {
    if k + 1 < s.len() {
        s[k + 1]
    } else {
        NIL
    }
}

/// The element before position `k` of `s`, or [`NIL`] at the start.
pub open spec fn prev_in(s: Seq<SectorIndex>, k: int) -> SectorIndex {
    if k > 0 {
        s[k - 1]
    } else {
        NIL
    }
}

/// The element at position `k` of `s`, or [`NIL`] past the end.
pub open spec fn at_or_nil(s: Seq<SectorIndex>, k: int) -> SectorIndex {
    if 0 <= k < s.len() {
        s[k]
    } else {
        NIL
    }
}

/// Distinct sector indices, all below `n`.
pub open spec fn indices_valid(s: Seq<SectorIndex>, n: nat) -> bool {
    &&& s.no_duplicates()
    &&& forall|k: int| 0 <= k < s.len() ==> s[k] < n
}

/// No index is in both `a` and `b`.
pub open spec fn disjoint(a: Seq<SectorIndex>, b: Seq<SectorIndex>) -> bool {
    forall|x: SectorIndex| a.contains(x) ==> !b.contains(x)
}

/// Each node of `s` points to the following one through `next`.
pub open spec fn next_links(s: Seq<SectorIndex>, nodes: Seq<Node>) -> bool {
    forall|k: int| 0 <= k < s.len() ==> #[trigger] nodes[s[k] as int].next == next_in(s, k)
}

/// Each node of `s` points to the preceding one through `prev`.
pub open spec fn prev_links(s: Seq<SectorIndex>, nodes: Seq<Node>) -> bool {
    forall|k: int| 0 <= k < s.len() ==> #[trigger] nodes[s[k] as int].prev == prev_in(s, k)
}

/// The indices reached from `curr` by following `next` links, stopping at [`NIL`], at an
/// out-of-bounds index, or after `fuel` steps.
pub open spec fn walk(nodes: Seq<Node>, curr: SectorIndex, fuel: nat) -> Seq<SectorIndex>
    decreases fuel,
{
    if fuel == 0 || curr == NIL || curr >= nodes.len() {
        Seq::empty()
    } else {
        seq![curr] + walk(nodes, nodes[curr as int].next, (fuel - 1) as nat)
    }
}

/// A sequence of distinct indices below `n` has at most `n` elements.
pub proof fn lemma_indices_bounded(s: Seq<SectorIndex>, n: nat)
    requires
        indices_valid(s, n),
    ensures
        s.len() <= n,
{
    let t = s.map_values(|x: SectorIndex| x as int);
    assert(t.no_duplicates()) by {
        assert forall|i: int, j: int| 0 <= i < t.len() && 0 <= j < t.len() && i != j implies t[i]
            != t[j] by {
            assert(s[i] != s[j]);
        }
    }
    t.unique_seq_to_set();
    vstd::set_lib::lemma_int_range(0, n as int);
    assert(t.to_set().subset_of(vstd::set_lib::set_int_range(0, n as int))) by {
        assert forall|x: int| t.to_set().contains(x) implies vstd::set_lib::set_int_range(
            0,
            n as int,
        ).contains(x) by {
            let k = choose|k: int| 0 <= k < t.len() && t[k] == x;
            assert(s[k] < n);
        }
    }
    vstd::set_lib::lemma_len_subset(t.to_set(), vstd::set_lib::set_int_range(0, n as int));
}

/// Walking a linked sequence from its `k`-th element visits the rest of it, in order.
pub proof fn lemma_walk_suffix(s: Seq<SectorIndex>, nodes: Seq<Node>, k: int, fuel: nat)
    requires
        indices_valid(s, nodes.len()),
        nodes.len() < NIL,
        next_links(s, nodes),
        0 <= k <= s.len(),
        fuel >= s.len() - k,
    ensures
        walk(nodes, at_or_nil(s, k), fuel) == s.subrange(k, s.len() as int),
    decreases s.len() - k,
{
    if k == s.len() {
        assert(s.subrange(k, s.len() as int) =~= Seq::<SectorIndex>::empty());
    } else {
        let curr = s[k];
        assert(nodes[curr as int].next == next_in(s, k));
        assert(next_in(s, k) == at_or_nil(s, k + 1));
        lemma_walk_suffix(s, nodes, k + 1, (fuel - 1) as nat);
        assert(s.subrange(k, s.len() as int) =~= seq![curr] + s.subrange(k + 1, s.len() as int));
    }
}

/// Walking a linked sequence from its first element visits all of it.
pub proof fn lemma_walk_all(s: Seq<SectorIndex>, nodes: Seq<Node>)
    requires
        indices_valid(s, nodes.len()),
        nodes.len() < NIL,
        next_links(s, nodes),
    ensures
        walk(nodes, first_or_nil(s), nodes.len()) == s,
{
    lemma_indices_bounded(s, nodes.len());
    lemma_walk_suffix(s, nodes, 0, nodes.len());
    assert(s.subrange(0, s.len() as int) =~= s);
}

/// Membership in a sequence with one more element in front.
pub proof fn lemma_contains_cons(x: SectorIndex, s: Seq<SectorIndex>)
    ensures
        forall|y: SectorIndex| #[trigger] (seq![x] + s).contains(y) <==> (y == x || s.contains(y)),
{
    let t = seq![x] + s;
    assert forall|y: SectorIndex| #[trigger] t.contains(y) <==> (y == x || s.contains(y)) by {
        if t.contains(y) {
            let k = choose|k: int| 0 <= k < t.len() && t[k] == y;
            if k > 0 {
                assert(s[k - 1] == y);
            }
        }
        if y == x {
            assert(t[0] == y);
        }
        if s.contains(y) {
            let k = choose|k: int| 0 <= k < s.len() && s[k] == y;
            assert(t[k + 1] == y);
        }
    }
}

/// Membership in a sequence without its first element, when elements are distinct.
pub proof fn lemma_contains_drop_first(s: Seq<SectorIndex>)
    requires
        s.len() > 0,
        s.no_duplicates(),
    ensures
        forall|y: SectorIndex| #[trigger] s.drop_first().contains(y) <==> (y != s[0] && s.contains(y)),
{
    let t = s.drop_first();
    assert forall|y: SectorIndex| #[trigger] t.contains(y) <==> (y != s[0] && s.contains(y)) by {
        if t.contains(y) {
            let k = choose|k: int| 0 <= k < t.len() && t[k] == y;
            assert(s[k + 1] == y);
        }
        if y != s[0] && s.contains(y) {
            let k = choose|k: int| 0 <= k < s.len() && s[k] == y;
            assert(k != 0);
            assert(t[k - 1] == y);
        }
    }
}

/// Membership in a sequence with an element inserted.
pub proof fn lemma_contains_insert(s: Seq<SectorIndex>, pos: int, x: SectorIndex)
    requires
        0 <= pos <= s.len(),
    ensures
        forall|y: SectorIndex| #[trigger] s.insert(pos, x).contains(y) <==> (y == x || s.contains(y)),
{
    let t = s.insert(pos, x);
    assert forall|y: SectorIndex| #[trigger] t.contains(y) <==> (y == x || s.contains(y)) by {
        if t.contains(y) {
            let k = choose|k: int| 0 <= k < t.len() && t[k] == y;
            if k < pos {
                assert(s[k] == y);
            } else if k > pos {
                assert(s[k - 1] == y);
            }
        }
        if y == x {
            assert(t[pos] == y);
        }
        if s.contains(y) {
            let k = choose|k: int| 0 <= k < s.len() && s[k] == y;
            if k < pos {
                assert(t[k] == y);
            } else {
                assert(t[k + 1] == y);
            }
        }
    }
}

/// Membership in a sequence with an element removed, when elements are distinct.
pub proof fn lemma_contains_remove(s: Seq<SectorIndex>, pos: int)
    requires
        0 <= pos < s.len(),
        s.no_duplicates(),
    ensures
        forall|y: SectorIndex| #[trigger] s.remove(pos).contains(y) <==> (y != s[pos] && s.contains(y)),
{
    let t = s.remove(pos);
    assert forall|y: SectorIndex| #[trigger] t.contains(y) <==> (y != s[pos] && s.contains(y)) by {
        if t.contains(y) {
            let k = choose|k: int| 0 <= k < t.len() && t[k] == y;
            if k < pos {
                assert(s[k] == y);
            } else {
                assert(s[k + 1] == y);
            }
        }
        if y != s[pos] && s.contains(y) {
            let k = choose|k: int| 0 <= k < s.len() && s[k] == y;
            if k < pos {
                assert(t[k] == y);
            } else {
                assert(k != pos);
                assert(t[k - 1] == y);
            }
        }
    }
}

/// Inserting a new index below `n` keeps the indices valid.
pub proof fn lemma_valid_insert(s: Seq<SectorIndex>, pos: int, x: SectorIndex, n: nat)
    requires
        indices_valid(s, n),
        0 <= pos <= s.len(),
        x < n,
        !s.contains(x),
    ensures
        indices_valid(s.insert(pos, x), n),
{
    let t = s.insert(pos, x);
    assert forall|i: int, j: int| 0 <= i < t.len() && 0 <= j < t.len() && i != j implies t[i]
        != t[j] by {
        let si = if i < pos { i } else { i - 1 };
        let sj = if j < pos { j } else { j - 1 };
        if i != pos && j != pos {
            assert(t[i] == s[si]);
            assert(t[j] == s[sj]);
        } else if i == pos {
            assert(t[j] == s[sj]);
        } else {
            assert(t[i] == s[si]);
        }
    }
    assert forall|k: int| 0 <= k < t.len() implies t[k] < n by {
        if k < pos {
            assert(t[k] == s[k]);
        } else if k > pos {
            assert(t[k] == s[k - 1]);
        }
    }
}

/// Removing an element keeps the indices valid.
pub proof fn lemma_valid_remove(s: Seq<SectorIndex>, pos: int, n: nat)
    requires
        indices_valid(s, n),
        0 <= pos < s.len(),
    ensures
        indices_valid(s.remove(pos), n),
{
    let t = s.remove(pos);
    assert forall|i: int, j: int| 0 <= i < t.len() && 0 <= j < t.len() && i != j implies t[i]
        != t[j] by {
        let si = if i < pos { i } else { i + 1 };
        let sj = if j < pos { j } else { j + 1 };
        assert(t[i] == s[si]);
        assert(t[j] == s[sj]);
    }
}

/// Replacing the node of a sector outside `s` keeps the links of `s`.
pub proof fn lemma_links_update_outside(s: Seq<SectorIndex>, nodes: Seq<Node>, x: SectorIndex, node: Node)
    requires
        indices_valid(s, nodes.len()),
        !s.contains(x),
        x < nodes.len(),
    ensures
        next_links(s, nodes) ==> next_links(s, nodes.update(x as int, node)),
        prev_links(s, nodes) ==> prev_links(s, nodes.update(x as int, node)),
{
    assert forall|k: int| 0 <= k < s.len() implies nodes.update(x as int, node)[s[k] as int]
        == nodes[s[k] as int] by {
        assert(s[k] != x);
        assert(s[k] < nodes.len());
    }
}

/// Changing only nodes of sectors in `touched`, none of which is in `s`, keeps the links of `s`.
pub proof fn lemma_links_frame(
    s: Seq<SectorIndex>,
    old_nodes: Seq<Node>,
    new_nodes: Seq<Node>,
    touched: Set<SectorIndex>,
)
    requires
        indices_valid(s, old_nodes.len()),
        new_nodes.len() == old_nodes.len(),
        forall|i: int|
            0 <= i < old_nodes.len() && !touched.contains(i as SectorIndex) ==> new_nodes[i]
                == old_nodes[i],
        forall|x: SectorIndex| touched.contains(x) ==> !s.contains(x),
    ensures
        next_links(s, old_nodes) ==> next_links(s, new_nodes),
        prev_links(s, old_nodes) ==> prev_links(s, new_nodes),
{
    assert forall|k: int| 0 <= k < s.len() implies new_nodes[s[k] as int] == old_nodes[s[k] as int] by {
        assert(s.contains(s[k]));
        assert(!touched.contains(s[k]));
        assert(s[k] < old_nodes.len());
    }
}

/// The header root of a list.
pub open spec fn head_of(header: MarketHeader, kind: ListKind) -> SectorIndex {
    match kind {
        ListKind::Seats => header.seats_dll_head,
        ListKind::Bids => header.bids_dll_head,
        ListKind::Asks => header.asks_dll_head,
    }
}

/// The header tail of a list.
pub open spec fn tail_of(header: MarketHeader, kind: ListKind) -> SectorIndex {
    match kind {
        ListKind::Seats => header.seats_dll_tail,
        ListKind::Bids => header.bids_dll_tail,
        ListKind::Asks => header.asks_dll_tail,
    }
}

/// The header node count of a list.
pub open spec fn count_of(header: MarketHeader, kind: ListKind) -> u32 {
    match kind {
        ListKind::Seats => header.num_seats,
        ListKind::Bids => header.num_bids,
        ListKind::Asks => header.num_asks,
    }
}

/// A market: its header and one node per sector, with the ghost contents of its free stack and
/// of its three lists.
pub struct Market {
    /// The header.
    pub header: MarketHeader,
    /// The nodes, one per sector.
    pub sectors: Vec<Node>,
    /// The sector indices of the free stack, top first.
    pub free: Ghost<Seq<SectorIndex>>,
    /// The sector indices of the seat list, head first.
    pub seats: Ghost<Seq<SectorIndex>>,
    /// The sector indices of the bid list, head first.
    pub bids: Ghost<Seq<SectorIndex>>,
    /// The sector indices of the ask list, head first.
    pub asks: Ghost<Seq<SectorIndex>>,
}

impl Market {
    /// The nodes.
    pub open spec fn nodes(&self) -> Seq<Node> {
        self.sectors@
    }

    /// The sector indices of a list, head first.
    pub open spec fn list(&self, kind: ListKind) -> Seq<SectorIndex> {
        match kind {
            ListKind::Seats => self.seats@,
            ListKind::Bids => self.bids@,
            ListKind::Asks => self.asks@,
        }
    }

    /// Whether two markets hold the same header, nodes, free stack and lists.
    pub open spec fn same_as(&self, other: Market) -> bool {
        &&& self.header == other.header
        &&& self.sectors@ == other.sectors@
        &&& self.free@ == other.free@
        &&& self.seats@ == other.seats@
        &&& self.bids@ == other.bids@
        &&& self.asks@ == other.asks@
    }

    /// The payload bytes of the node in sector `index`.
    pub open spec fn payload_at(&self, index: SectorIndex) -> Seq<u8> {
        self.sectors@[index as int].payload@
    }

    /// Whether `index` is on the free stack or in one of the lists.
    pub open spec fn in_use(&self, index: SectorIndex) -> bool {
        ||| self.free@.contains(index)
        ||| self.seats@.contains(index)
        ||| self.bids@.contains(index)
        ||| self.asks@.contains(index)
    }

    /// Whether every sector is on the free stack or in one of the lists.
    pub open spec fn all_sectors_accounted(&self) -> bool {
        forall|i: SectorIndex| i < self.sectors@.len() ==> self.in_use(i)
    }

    /// The well-formedness of a list: its header roots and count and its node links.
    pub open spec fn list_wf(&self, kind: ListKind) -> bool {
        let s = self.list(kind);
        &&& indices_valid(s, self.sectors@.len())
        &&& count_of(self.header, kind) == s.len()
        &&& head_of(self.header, kind) == first_or_nil(s)
        &&& tail_of(self.header, kind) == last_or_nil(s)
        &&& next_links(s, self.sectors@)
        &&& prev_links(s, self.sectors@)
    }

    /// The well-formedness of the free stack: its top, its links and its count, which is its
    /// length.
    pub open spec fn free_wf(&self) -> bool {
        &&& indices_valid(self.free@, self.sectors@.len())
        &&& self.header.num_free_sectors == self.free@.len()
        &&& self.header.free_stack_top == first_or_nil(self.free@)
        &&& next_links(self.free@, self.sectors@)
    }

    /// The structural invariant of a market.
    pub open spec fn wf(&self) -> bool {
        &&& self.sectors@.len() < NIL
        &&& self.free_wf()
        &&& self.list_wf(ListKind::Seats)
        &&& self.list_wf(ListKind::Bids)
        &&& self.list_wf(ListKind::Asks)
        &&& disjoint(self.free@, self.seats@)
        &&& disjoint(self.free@, self.bids@)
        &&& disjoint(self.free@, self.asks@)
        &&& disjoint(self.seats@, self.bids@)
        &&& disjoint(self.seats@, self.asks@)
        &&& disjoint(self.bids@, self.asks@)
    }

    /// Replaces the node in sector `index`.
    pub fn set_node(&mut self, index: SectorIndex, node: Node)
        requires
            index < old(self).sectors@.len(),
        ensures
            final(self).sectors@ == old(self).sectors@.update(index as int, node),
            final(self).header == old(self).header,
            final(self).free == old(self).free,
            final(self).seats == old(self).seats,
            final(self).bids == old(self).bids,
            final(self).asks == old(self).asks,
    {
        self.sectors.set(index as usize, node);
    }

    /// Replaces the payload of the node in sector `index`, keeping its links.
    pub fn set_payload_at(&mut self, index: SectorIndex, payload: &[u8; NODE_PAYLOAD_SIZE])
        requires
            old(self).wf(),
            index < old(self).sectors@.len(),
        ensures
            final(self).wf(),
            final(self).sectors@ == old(self).sectors@.update(
                index as int,
                Node { payload: *payload, ..old(self).sectors@[index as int] },
            ),
            final(self).header == old(self).header,
            final(self).free == old(self).free,
            final(self).seats == old(self).seats,
            final(self).bids == old(self).bids,
            final(self).asks == old(self).asks,
    {
        let ghost m0 = *self;
        let mut node = self.node(index);
        node.set_payload(payload);
        self.set_node(index, node);
        proof {
            let n0 = m0.sectors@;
            let n1 = self.sectors@;
            assert forall|i: int| 0 <= i < n0.len() implies #[trigger] n1[i].next == n0[i].next
                && n1[i].prev == n0[i].prev by {}
            assert forall|s: Seq<SectorIndex>| indices_valid(s, n0.len()) && next_links(s, n0)
                implies next_links(s, n1) by {
                assert forall|k: int| 0 <= k < s.len() implies #[trigger] n1[s[k] as int].next
                    == next_in(s, k) by {
                    assert(n0[s[k] as int].next == next_in(s, k));
                }
            }
            assert forall|s: Seq<SectorIndex>| indices_valid(s, n0.len()) && prev_links(s, n0)
                implies prev_links(s, n1) by {
                assert forall|k: int| 0 <= k < s.len() implies #[trigger] n1[s[k] as int].prev
                    == prev_in(s, k) by {
                    assert(n0[s[k] as int].prev == prev_in(s, k));
                }
            }
            assert(m0.list_wf(ListKind::Seats));
            assert(m0.list_wf(ListKind::Bids));
            assert(m0.list_wf(ListKind::Asks));
        }
    }

    /// Whether sector `index` is a node of a list, found by walking the list from its head.
    pub fn list_contains(&self, kind: ListKind, index: SectorIndex) -> (r: bool)
        requires
            self.wf(),
        ensures
            r == self.list(kind).contains(index),
    {
        let ghost l = self.list(kind);
        proof {
            assert(self.list_wf(kind)) by {
                match kind {
                    ListKind::Seats => {},
                    ListKind::Bids => {},
                    ListKind::Asks => {},
                }
            }
        }
        let mut curr = self.head(kind);
        let ghost mut k: int = 0;
        while curr != NIL
            invariant
                self.wf(),
                self.list_wf(kind),
                l == self.list(kind),
                0 <= k <= l.len(),
                curr == at_or_nil(l, k),
                forall|j: int| 0 <= j < k ==> #[trigger] l[j] != index,
            decreases l.len() - k,
        {
            proof {
                if k == l.len() {
                    assert(false);
                }
                assert(l[k] < self.sectors@.len());
            }
            if curr == index {
                return true;
            }
            curr = self.node(curr).next();
            proof {
                k = k + 1;
            }
        }
        proof {
            if k < l.len() {
                assert(l[k] < self.sectors@.len());
            }
            if l.contains(index) {
                let j = choose|j: int| 0 <= j < l.len() && l[j] == index;
                assert(l[j] != index);
            }
        }
        false
    }

    /// Checks that `index` is a sector of the market.
    pub fn check_in_bounds(&self, index: SectorIndex) -> (r: DropsetResult)
        ensures
            r is Ok <==> index < self.sectors@.len(),
            r is Err ==> r == Err::<(), DropsetError>(DropsetError::IndexOutOfBounds),
    {
        if index as usize >= self.sectors.len() {
            return Err(DropsetError::IndexOutOfBounds);
        }
        Ok(())
    }

    /// The node in sector `index`.
    pub fn node(&self, index: SectorIndex) -> (r: Node)
        requires
            index < self.sectors@.len(),
        ensures
            r == self.sectors@[index as int],
    {
        self.sectors[index as usize]
    }

    /// Builds a market from header and nodes, taking the ghost contents of the free stack and
    /// of the lists to be what their roots reach.
    pub fn from_parts(header: MarketHeader, sectors: Vec<Node>) -> (r: Market)
        ensures
            r.header == header,
            r.sectors@ == sectors@,
            r.free@ == walk(sectors@, header.free_stack_top, sectors@.len()),
            r.seats@ == walk(sectors@, header.seats_dll_head, sectors@.len()),
            r.bids@ == walk(sectors@, header.bids_dll_head, sectors@.len()),
            r.asks@ == walk(sectors@, header.asks_dll_head, sectors@.len()),
    {
        let ghost nodes = sectors@;
        Market {
            header,
            sectors,
            free: Ghost(walk(nodes, header.free_stack_top, nodes.len())),
            seats: Ghost(walk(nodes, header.seats_dll_head, nodes.len())),
            bids: Ghost(walk(nodes, header.bids_dll_head, nodes.len())),
            asks: Ghost(walk(nodes, header.asks_dll_head, nodes.len())),
        }
    }

    /// The number of sectors, truncated to a `u32`.
    pub fn get_capacity(&self) -> (r: u32)
        ensures
            r == self.sectors@.len() as u32,
    {
        self.sectors.len() as u32
    }

    /// Whether the header carries the market account discriminant.
    pub fn is_initialized(&self) -> (r: bool)
        ensures
            r == (self.header.discriminant == MARKET_ACCOUNT_DISCRIMINANT),
    {
        self.header.discriminant() == MARKET_ACCOUNT_DISCRIMINANT
    }

    /// The head of a list.
    pub fn head(&self, kind: ListKind) -> (r: SectorIndex)
        ensures
            r == head_of(self.header, kind),
    {
        match kind {
            ListKind::Seats => self.header.seats_dll_head(),
            ListKind::Bids => self.header.bids_dll_head(),
            ListKind::Asks => self.header.asks_dll_head(),
        }
    }

    /// The tail of a list.
    pub fn tail(&self, kind: ListKind) -> (r: SectorIndex)
        ensures
            r == tail_of(self.header, kind),
    {
        match kind {
            ListKind::Seats => self.header.seats_dll_tail(),
            ListKind::Bids => self.header.bids_dll_tail(),
            ListKind::Asks => self.header.asks_dll_tail(),
        }
    }

    /// An iterator over the bid nodes, highest price first.
    pub fn iter_bids(&self) -> (r: LinkedListIter<'_>)
        ensures
            r.curr == self.header.bids_dll_head,
            r.sectors@ == self.sectors@,
    {
        LinkedListIter { curr: self.header.bids_dll_head(), sectors: self.sectors.as_slice() }
    }

    /// An iterator over the ask nodes, lowest price first.
    pub fn iter_asks(&self) -> (r: LinkedListIter<'_>)
        ensures
            r.curr == self.header.asks_dll_head,
            r.sectors@ == self.sectors@,
    {
        LinkedListIter { curr: self.header.asks_dll_head(), sectors: self.sectors.as_slice() }
    }

    /// An iterator over the seat nodes, in user key order.
    pub fn iter_seats(&self) -> (r: LinkedListIter<'_>)
        ensures
            r.curr == self.header.seats_dll_head,
            r.sectors@ == self.sectors@,
    {
        LinkedListIter { curr: self.header.seats_dll_head(), sectors: self.sectors.as_slice() }
    }

    /// The sector indices reached from the head of a list, in order. On a well-formed market
    /// these are exactly the list's indices.
    pub fn list_indices(&self, kind: ListKind) -> (r: Vec<SectorIndex>)
        ensures
            r@ == walk(self.sectors@, head_of(self.header, kind), self.sectors@.len()),
            self.wf() ==> r@ == self.list(kind),
    {
        proof {
            if self.wf() {
                lemma_walk_all(self.list(kind), self.sectors@);
            }
        }
        collect_walk(self.sectors.as_slice(), self.head(kind))
    }

    /// The sector indices of the free stack, top first. On a well-formed market these are
    /// exactly the stack's indices.
    pub fn free_indices(&self) -> (r: Vec<SectorIndex>)
        ensures
            r@ == walk(self.sectors@, self.header.free_stack_top, self.sectors@.len()),
            self.wf() ==> r@ == self.free@,
    {
        proof {
            if self.wf() {
                lemma_walk_all(self.free@, self.sectors@);
            }
        }
        collect_walk(self.sectors.as_slice(), self.header.free_stack_top())
    }

    /// Reads a market from account data: the header and then one node per whole sector. Bytes
    /// past the last whole sector are ignored.
    pub fn from_bytes(data: &[u8]) -> (r: Market)
        requires
            data@.len() >= MARKET_HEADER_SIZE,
        ensures
            decodes_from(r, data@),
            (data@.len() - MARKET_HEADER_SIZE) % (SECTOR_SIZE as int) == 0 ==> r.bytes_spec()
                == data@,
    {
        let len = data.len();
        let header = MarketHeader::load_unchecked(
            vstd::slice::slice_subrange(data, 0, MARKET_HEADER_SIZE),
        );
        let n = (len - MARKET_HEADER_SIZE) / SECTOR_SIZE;
        let mut sectors: Vec<Node> = Vec::new();
        let mut i: usize = 0;
        while i < n
            invariant
                len == data@.len(),
                len >= MARKET_HEADER_SIZE,
                n == (len - MARKET_HEADER_SIZE) / (SECTOR_SIZE as int),
                i <= n,
                sectors@.len() == i,
                forall|j: int|
                    0 <= j < i ==> #[trigger] sectors@[j] == Node::decode_spec(
                        data@.subrange(
                            MARKET_HEADER_SIZE + j * SECTOR_SIZE,
                            MARKET_HEADER_SIZE + j * SECTOR_SIZE + SECTOR_SIZE,
                        ),
                    ),
            decreases n - i,
        {
            assert(MARKET_HEADER_SIZE + i * SECTOR_SIZE + SECTOR_SIZE <= len) by (nonlinear_arith)
                requires
                    i < n,
                    n == (len - MARKET_HEADER_SIZE) / (SECTOR_SIZE as int),
                    len >= MARKET_HEADER_SIZE,
            ;
            let start = MARKET_HEADER_SIZE + i * SECTOR_SIZE;
            let node = Node::load_unchecked(
                vstd::slice::slice_subrange(data, start, start + SECTOR_SIZE),
            );
            sectors.push(node);
            i = i + 1;
        }
        let r = Market::from_parts(header, sectors);
        proof {
            if (len - MARKET_HEADER_SIZE) % (SECTOR_SIZE as int) == 0 {
                lemma_read_then_write(r, data@);
            }
        }
        r
    }

    /// The bytes of the account data that this market is stored as.
    pub open spec fn bytes_spec(&self) -> Seq<u8> {
        self.header.encode_spec() + sectors_bytes(self.sectors@)
    }

    /// Writes the market as account data: the header and then every node.
    pub fn to_bytes(&self) -> (r: Vec<u8>)
        ensures
            r@ == self.bytes_spec(),
    {
        let mut out = self.header.to_bytes();
        let mut i: usize = 0;
        while i < self.sectors.len()
            invariant
                i <= self.sectors@.len(),
                out@ == self.header.encode_spec() + sectors_bytes(self.sectors@.subrange(0, i as int)),
            decreases self.sectors@.len() - i,
        {
            let node_bytes = self.sectors[i].to_bytes();
            push_bytes(&mut out, node_bytes.as_slice());
            proof {
                let s = self.sectors@.subrange(0, i + 1);
                assert(s.drop_last() =~= self.sectors@.subrange(0, i as int));
            }
            i = i + 1;
        }
        assert(self.sectors@.subrange(0, self.sectors@.len() as int) =~= self.sectors@);
        out
    }
}

/// Whether `m` is what [`Market::from_bytes`] reads from `data`: the header, one node per whole
/// sector after it, and the free stack and lists as their roots reach.
pub open spec fn decodes_from(m: Market, data: Seq<u8>) -> bool {
    &&& data.len() >= MARKET_HEADER_SIZE
    &&& m.header == MarketHeader::decode_spec(data.subrange(0, MARKET_HEADER_SIZE as int))
    &&& m.sectors@.len() == (data.len() - MARKET_HEADER_SIZE) / (SECTOR_SIZE as int)
    &&& forall|i: int|
        0 <= i < m.sectors@.len() ==> #[trigger] m.sectors@[i] == Node::decode_spec(
            data.subrange(
                MARKET_HEADER_SIZE + i * SECTOR_SIZE,
                MARKET_HEADER_SIZE + i * SECTOR_SIZE + SECTOR_SIZE,
            ),
        )
    &&& m.free@ == walk(m.sectors@, m.header.free_stack_top, m.sectors@.len())
    &&& m.seats@ == walk(m.sectors@, m.header.seats_dll_head, m.sectors@.len())
    &&& m.bids@ == walk(m.sectors@, m.header.bids_dll_head, m.sectors@.len())
    &&& m.asks@ == walk(m.sectors@, m.header.asks_dll_head, m.sectors@.len())
}

/// The bytes of the first `k` nodes read from `data` are the data's first `k` sectors.
proof fn lemma_sectors_bytes_prefix(m: Market, data: Seq<u8>, k: int)
    requires
        decodes_from(m, data),
        0 <= k <= m.sectors@.len(),
    ensures
        sectors_bytes(m.sectors@.subrange(0, k)) == data.subrange(
            MARKET_HEADER_SIZE as int,
            MARKET_HEADER_SIZE + k * SECTOR_SIZE,
        ),
    decreases k,
{
    let n = m.sectors@.subrange(0, k);
    if k == 0 {
        assert(data.subrange(MARKET_HEADER_SIZE as int, MARKET_HEADER_SIZE as int) =~= Seq::<
            u8,
        >::empty());
    } else {
        lemma_sectors_bytes_prefix(m, data, k - 1);
        assert(n.drop_last() =~= m.sectors@.subrange(0, k - 1));
        assert(k * SECTOR_SIZE <= m.sectors@.len() * SECTOR_SIZE) by (nonlinear_arith)
            requires
                k <= m.sectors@.len(),
        ;
        assert(m.sectors@.len() * SECTOR_SIZE <= data.len() - MARKET_HEADER_SIZE) by (nonlinear_arith)
            requires
                m.sectors@.len() == (data.len() - MARKET_HEADER_SIZE) / (SECTOR_SIZE as int),
                data.len() >= MARKET_HEADER_SIZE,
        ;
        let start = MARKET_HEADER_SIZE + (k - 1) * SECTOR_SIZE;
        let chunk = data.subrange(start, start + SECTOR_SIZE);
        crate::state::node::lemma_node_bytes_round_trip(chunk);
        assert(m.sectors@[k - 1] == Node::decode_spec(chunk));
        assert(n.last() == m.sectors@[k - 1]);
        assert(data.subrange(MARKET_HEADER_SIZE as int, MARKET_HEADER_SIZE + k * SECTOR_SIZE)
            =~= data.subrange(MARKET_HEADER_SIZE as int, start) + chunk);
    }
}

/// Law: writing back a market read from account data made of a header and whole sectors gives
/// the same bytes.
pub proof fn lemma_read_then_write(m: Market, data: Seq<u8>)
    requires
        decodes_from(m, data),
        (data.len() - MARKET_HEADER_SIZE) % (SECTOR_SIZE as int) == 0,
    ensures
        m.bytes_spec() == data,
{
    let k = m.sectors@.len() as int;
    lemma_sectors_bytes_prefix(m, data, k);
    assert(m.sectors@.subrange(0, k) =~= m.sectors@);
    assert(MARKET_HEADER_SIZE + k * SECTOR_SIZE == data.len()) by (nonlinear_arith)
        requires
            k == (data.len() - MARKET_HEADER_SIZE) / (SECTOR_SIZE as int),
            (data.len() - MARKET_HEADER_SIZE) % (SECTOR_SIZE as int) == 0,
            data.len() >= MARKET_HEADER_SIZE,
    ;
    crate::state::market_header::lemma_header_bytes_round_trip(
        data.subrange(0, MARKET_HEADER_SIZE as int),
    );
    assert(data =~= data.subrange(0, MARKET_HEADER_SIZE as int) + data.subrange(
        MARKET_HEADER_SIZE as int,
        data.len() as int,
    ));
}

/// The bytes of a sequence of nodes, node by node.
proof fn lemma_sectors_bytes_at(nodes: Seq<Node>, i: int)
    requires
        0 <= i < nodes.len(),
    ensures
        sectors_bytes(nodes).len() == nodes.len() * SECTOR_SIZE,
        sectors_bytes(nodes).subrange(i * SECTOR_SIZE, i * SECTOR_SIZE + SECTOR_SIZE)
            == nodes[i].encode_spec(),
    decreases nodes.len(),
{
    let p = nodes.drop_last();
    crate::state::node::lemma_node_round_trip(nodes.last());
    if p.len() > 0 {
        lemma_sectors_bytes_at(p, if i < p.len() { i } else { 0 });
    } else {
        assert(sectors_bytes(p) =~= Seq::<u8>::empty());
    }
    assert(sectors_bytes(p).len() == p.len() * SECTOR_SIZE) by {
        if p.len() == 0 {
            assert(sectors_bytes(p) =~= Seq::<u8>::empty());
        }
    }
    assert(nodes.len() * SECTOR_SIZE == p.len() * SECTOR_SIZE + SECTOR_SIZE) by (nonlinear_arith)
        requires
            nodes.len() == p.len() + 1,
    ;
    if i < p.len() {
        assert(i * SECTOR_SIZE + SECTOR_SIZE <= p.len() * SECTOR_SIZE) by (nonlinear_arith)
            requires
                i < p.len(),
        ;
        assert(nodes[i] == p[i]);
        assert(sectors_bytes(nodes).subrange(i * SECTOR_SIZE, i * SECTOR_SIZE + SECTOR_SIZE)
            =~= sectors_bytes(p).subrange(i * SECTOR_SIZE, i * SECTOR_SIZE + SECTOR_SIZE));
    } else {
        assert(i * SECTOR_SIZE == p.len() * SECTOR_SIZE);
        assert(sectors_bytes(nodes).subrange(i * SECTOR_SIZE, i * SECTOR_SIZE + SECTOR_SIZE)
            =~= nodes.last().encode_spec());
    }
}

/// Law: reading back the bytes a well-formed market is written as gives the same market: the
/// same header, nodes, free stack and lists.
pub proof fn lemma_write_then_read(m: Market, r: Market)
    requires
        m.wf(),
        decodes_from(r, m.bytes_spec()),
    ensures
        r.same_as(m),
{
    let data = m.bytes_spec();
    let n = m.sectors@.len();
    crate::state::market_header::lemma_header_round_trip(m.header);
    let hb = m.header.encode_spec();
    if n > 0 {
        lemma_sectors_bytes_at(m.sectors@, 0);
    }
    let sb = sectors_bytes(m.sectors@);
    assert(sb.len() == n * SECTOR_SIZE) by {
        if n == 0 {
            assert(sb =~= Seq::<u8>::empty());
        }
    }
    assert(data.len() == MARKET_HEADER_SIZE + n * SECTOR_SIZE);
    assert((n * SECTOR_SIZE) / (SECTOR_SIZE as int) == n) by (nonlinear_arith);
    assert(data.subrange(0, MARKET_HEADER_SIZE as int) =~= hb);
    assert(r.header == m.header);
    assert(r.sectors@.len() == n);
    assert forall|i: int| 0 <= i < n implies #[trigger] r.sectors@[i] == m.sectors@[i] by {
        lemma_sectors_bytes_at(m.sectors@, i);
        crate::state::node::lemma_node_round_trip(m.sectors@[i]);
        assert(i * SECTOR_SIZE + SECTOR_SIZE <= n * SECTOR_SIZE) by (nonlinear_arith)
            requires
                i < n,
        ;
        assert(data.subrange(
            MARKET_HEADER_SIZE + i * SECTOR_SIZE,
            MARKET_HEADER_SIZE + i * SECTOR_SIZE + SECTOR_SIZE,
        ) =~= sb.subrange(i * SECTOR_SIZE, i * SECTOR_SIZE + SECTOR_SIZE));
    }
    assert(r.sectors@ =~= m.sectors@);
    lemma_walk_all(m.free@, m.sectors@);
    lemma_walk_all(m.seats@, m.sectors@);
    lemma_walk_all(m.bids@, m.sectors@);
    lemma_walk_all(m.asks@, m.sectors@);
    assert(m.list_wf(ListKind::Seats));
    assert(m.list_wf(ListKind::Bids));
    assert(m.list_wf(ListKind::Asks));
}

/// The concatenated bytes of a sequence of nodes.
pub open spec fn sectors_bytes(nodes: Seq<Node>) -> Seq<u8>
    decreases nodes.len(),
{
    if nodes.len() == 0 {
        Seq::empty()
    } else {
        sectors_bytes(nodes.drop_last()) + nodes.last().encode_spec()
    }
}

/// Collects the indices reached from `start` through `next` links, at most one per node.
pub(crate) fn collect_walk(nodes: &[Node], start: SectorIndex) -> (r: Vec<SectorIndex>)
    ensures
        r@ == walk(nodes@, start, nodes@.len()),
{
    let n = nodes.len();
    let mut out: Vec<SectorIndex> = Vec::new();
    let mut curr = start;
    let mut fuel: usize = n;
    while fuel > 0 && curr != NIL && (curr as usize) < n
        invariant
            n == nodes@.len(),
            fuel <= n,
            out@ + walk(nodes@, curr, fuel as nat) == walk(nodes@, start, n as nat),
        decreases fuel,
    {
        let next = nodes[curr as usize].next;
        proof {
            assert(walk(nodes@, curr, fuel as nat) == seq![curr] + walk(
                nodes@,
                next,
                (fuel - 1) as nat,
            ));
            assert(out@.push(curr) + walk(nodes@, next, (fuel - 1) as nat) =~= out@ + walk(
                nodes@,
                curr,
                fuel as nat,
            ));
        }
        out.push(curr);
        curr = next;
        fuel = fuel - 1;
    }
    assert(walk(nodes@, curr, fuel as nat) == Seq::<SectorIndex>::empty());
    assert(out@ =~= out@ + Seq::<SectorIndex>::empty());
    out
}

/// A cursor over the nodes of a list: the sector index of the next node to visit and the nodes.
pub struct LinkedListIter<'a> {
    /// The sector index of the next node, or [`NIL`] when done.
    pub curr: SectorIndex,
    /// The nodes of the market.
    pub sectors: &'a [Node],
}

impl<'a> LinkedListIter<'a> {
    /// Returns the current index and node and moves to the node's `next`, or returns `None`
    /// once the current index is [`NIL`] (or past the last node).
    pub fn next(&mut self) -> (r: Option<(SectorIndex, &'a Node)>)
        ensures
            final(self).sectors == old(self).sectors,
            old(self).curr == NIL || old(self).curr >= old(self).sectors@.len() ==> (r is None
                && final(self).curr == old(self).curr),
            old(self).curr != NIL && old(self).curr < old(self).sectors@.len() ==> (r matches Some(
                (index, node),
            ) && index == old(self).curr && *node == old(self).sectors@[old(self).curr as int]
                && final(self).curr == node.next),
    {
        if self.curr == NIL || self.curr as usize >= self.sectors.len() {
            return None;
        }
        let sectors: &'a [Node] = self.sectors;
        let index = self.curr;
        let node: &'a Node = &sectors[index as usize];
        self.curr = node.next;
        Some((index, node))
    }
}

} // verus!
