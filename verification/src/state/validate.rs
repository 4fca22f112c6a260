//! Checking at run time that a market read from account data is well formed.

use vstd::prelude::*;

use crate::state::market::{
    collect_walk,
    disjoint,
    first_or_nil,
    indices_valid,
    last_or_nil,
    next_in,
    next_links,
    prev_in,
    prev_links,
    walk,
    ListKind,
    Market,
};
use crate::state::node::Node;
use crate::state::sector::{
    SectorIndex,
    NIL,
};

verus! {

/// The free stack and the lists of `m` are what their roots reach, as after reading account
/// data.
pub open spec fn lists_are_walks(m: Market) -> bool {
    &&& m.free@ == walk(m.sectors@, m.header.free_stack_top, m.sectors@.len())
    &&& m.seats@ == walk(m.sectors@, m.header.seats_dll_head, m.sectors@.len())
    &&& m.bids@ == walk(m.sectors@, m.header.bids_dll_head, m.sectors@.len())
    &&& m.asks@ == walk(m.sectors@, m.header.asks_dll_head, m.sectors@.len())
}

/// A walk starts at its root, visits in-bounds sectors and follows `next` links between them.
proof fn lemma_walk_shape(nodes: Seq<Node>, root: SectorIndex, fuel: nat)
    ensures
        ({
            let s = walk(nodes, root, fuel);
            &&& s.len() <= fuel
            &&& s.len() > 0 ==> s[0] == root
            &&& forall|k: int| 0 <= k < s.len() ==> #[trigger] s[k] < nodes.len() && s[k] != NIL
            &&& forall|k: int| 0 <= k < s.len() - 1 ==> nodes[#[trigger] s[k] as int].next == s[k + 1]
        }),
    decreases fuel,
{
    if !(fuel == 0 || root == NIL || root >= nodes.len()) {
        let next = nodes[root as int].next;
        lemma_walk_shape(nodes, next, (fuel - 1) as nat);
        let rest = walk(nodes, next, (fuel - 1) as nat);
        let s = walk(nodes, root, fuel);
        assert(s == seq![root] + rest);
        assert forall|k: int| 0 <= k < s.len() implies #[trigger] s[k] < nodes.len() && s[k] != NIL by {
            if k > 0 {
                assert(s[k] == rest[k - 1]);
            }
        }
        assert forall|k: int| 0 <= k < s.len() - 1 implies nodes[#[trigger] s[k] as int].next
            == s[k + 1] by {
            if k > 0 {
                assert(s[k] == rest[k - 1]);
                assert(s[k + 1] == rest[k]);
            } else {
                if rest.len() > 0 {
                    assert(rest[0] == next);
                }
            }
        }
    }
}

/// Whether the walk `s` from `root` ends properly: an empty walk starts from [`NIL`] and the last
/// node of a non-empty walk points to [`NIL`].
pub open spec fn walk_ends(s: Seq<SectorIndex>, root: SectorIndex, nodes: Seq<Node>) -> bool {
    if s.len() == 0 {
        root == NIL
    } else {
        nodes[s.last() as int].next == NIL
    }
}

/// A walk that ends properly is linked through `next` and starts at its root.
proof fn lemma_walk_links(nodes: Seq<Node>, root: SectorIndex)
    ensures
        ({
            let s = walk(nodes, root, nodes.len());
            walk_ends(s, root, nodes) <==> (next_links(s, nodes) && first_or_nil(s) == root)
        }),
{
    lemma_walk_shape(nodes, root, nodes.len());
    let s = walk(nodes, root, nodes.len());
    if walk_ends(s, root, nodes) {
        assert forall|k: int| 0 <= k < s.len() implies #[trigger] nodes[s[k] as int].next
            == next_in(s, k) by {
            if k < s.len() - 1 {
                assert(nodes[s[k] as int].next == s[k + 1]);
            }
        }
    }
    if next_links(s, nodes) && first_or_nil(s) == root && s.len() > 0 {
        assert(nodes[s[s.len() - 1] as int].next == next_in(s, s.len() - 1));
    }
}

/// Checks the `prev` links of a sequence of in-bounds sectors.
fn check_prev_links(nodes: &[Node], s: &Vec<SectorIndex>) -> (r: bool)
    requires
        forall|k: int| 0 <= k < s@.len() ==> #[trigger] s@[k] < nodes@.len(),
    ensures
        r == prev_links(s@, nodes@),
{
    let mut k: usize = 0;
    while k < s.len()
        invariant
            k <= s@.len(),
            forall|k: int| 0 <= k < s@.len() ==> #[trigger] s@[k] < nodes@.len(),
            forall|j: int| 0 <= j < k ==> #[trigger] nodes@[s@[j] as int].prev == prev_in(s@, j),
        decreases s@.len() - k,
    {
        let expected = if k == 0 {
            NIL
        } else {
            s[k - 1]
        };
        if nodes[s[k] as usize].prev != expected {
            return false;
        }
        k = k + 1;
    }
    true
}

/// Marks every sector of `s` with `tag` in `owner`, failing when a sector is already marked or
/// appears twice in `s`.
fn mark(owner: &mut Vec<u8>, s: &Vec<SectorIndex>, tag: u8) -> (r: bool)
    requires
        tag != 0,
        old(owner)@.len() < NIL,
        forall|k: int| 0 <= k < s@.len() ==> #[trigger] s@[k] < old(owner)@.len(),
    ensures
        final(owner)@.len() == old(owner)@.len(),
        r == (s@.no_duplicates() && forall|k: int|
            0 <= k < s@.len() ==> old(owner)@[#[trigger] s@[k] as int] == 0),
        r ==> forall|i: int|
            0 <= i < old(owner)@.len() ==> #[trigger] final(owner)@[i] == if s@.contains(
                i as SectorIndex,
            ) {
                tag
            } else {
                old(owner)@[i]
            },
{
    let ghost o = owner@;
    let mut k: usize = 0;
    while k < s.len()
        invariant
            tag != 0,
            o == old(owner)@,
            o.len() < NIL,
            k <= s@.len(),
            owner@.len() == o.len(),
            forall|k: int| 0 <= k < s@.len() ==> #[trigger] s@[k] < o.len(),
            s@.subrange(0, k as int).no_duplicates(),
            forall|j: int| 0 <= j < k ==> o[#[trigger] s@[j] as int] == 0,
            forall|i: int|
                0 <= i < o.len() ==> #[trigger] owner@[i] == if s@.subrange(0, k as int).contains(
                    i as SectorIndex,
                ) {
                    tag
                } else {
                    o[i]
                },
        decreases s@.len() - k,
    {
        let i = s[k];
        let ghost prefix = s@.subrange(0, k as int);
        if owner[i as usize] != 0 {
            proof {
                if prefix.contains(i) {
                    let j = choose|j: int| 0 <= j < prefix.len() && prefix[j] == i;
                    assert(s@[j] == s@[k as int]);
                    assert(!s@.no_duplicates());
                } else {
                    assert(o[i as int] != 0);
                }
            }
            return false;
        }
        owner.set(i as usize, tag);
        proof {
            let next = s@.subrange(0, k + 1);
            assert(next == prefix.push(i));
            assert(!prefix.contains(i)) by {
                if prefix.contains(i) {
                    assert(owner@[i as int] == tag);
                }
            }
            assert forall|a: int, b: int| 0 <= a < b < next.len() implies next[a] != next[b] by {
                if b < k {
                    assert(next[a] == prefix[a] && next[b] == prefix[b]);
                } else {
                    assert(next[a] == prefix[a]);
                }
            }
            assert forall|x: int| 0 <= x < o.len() implies #[trigger] owner@[x] == if next.contains(
                x as SectorIndex,
            ) {
                tag
            } else {
                o[x]
            } by {
                if x != i {
                    if next.contains(x as SectorIndex) {
                        let j = choose|j: int| 0 <= j < next.len() && next[j] == x as SectorIndex;
                        assert(j < k);
                        assert(prefix[j] == x as SectorIndex);
                    }
                    if prefix.contains(x as SectorIndex) {
                        let j = choose|j: int| 0 <= j < prefix.len() && prefix[j] == x as SectorIndex;
                        assert(next[j] == x as SectorIndex);
                    }
                } else {
                    assert(next[k as int] == i);
                }
            }
        }
        k = k + 1;
    }
    proof {
        assert(s@.subrange(0, s@.len() as int) =~= s@);
    }
    true
}

impl Market {
    /// Whether the market is well formed ([`Market::wf`]): fewer sectors than [`NIL`], a free
    /// stack and three lists whose roots, counts and links agree and that share no sector. The
    /// free stack and lists must be what their roots reach, as after reading account data.
    pub fn check_well_formed(&self) -> (r: bool)
        requires
            lists_are_walks(*self),
        ensures
            r == self.wf(),
    {
        let nodes = self.sectors.as_slice();
        let n = nodes.len();
        if n >= NIL as usize {
            return false;
        }
        let free = collect_walk(nodes, self.header.free_stack_top);
        let seats = collect_walk(nodes, self.header.seats_dll_head);
        let bids = collect_walk(nodes, self.header.bids_dll_head);
        let asks = collect_walk(nodes, self.header.asks_dll_head);
        proof {
            lemma_walk_shape(nodes@, self.header.free_stack_top, n as nat);
            lemma_walk_shape(nodes@, self.header.seats_dll_head, n as nat);
            lemma_walk_shape(nodes@, self.header.bids_dll_head, n as nat);
            lemma_walk_shape(nodes@, self.header.asks_dll_head, n as nat);
            lemma_walk_links(nodes@, self.header.free_stack_top);
            lemma_walk_links(nodes@, self.header.seats_dll_head);
            lemma_walk_links(nodes@, self.header.bids_dll_head);
            lemma_walk_links(nodes@, self.header.asks_dll_head);
            assert(self.list(ListKind::Seats) == seats@);
            assert(self.list(ListKind::Bids) == bids@);
            assert(self.list(ListKind::Asks) == asks@);
        }
        let ends = walk_ends_exec(nodes, &free, self.header.free_stack_top) && walk_ends_exec(
            nodes,
            &seats,
            self.header.seats_dll_head,
        ) && walk_ends_exec(nodes, &bids, self.header.bids_dll_head) && walk_ends_exec(
            nodes,
            &asks,
            self.header.asks_dll_head,
        );
        let free_count = self.header.num_free_sectors as usize == free.len();
        let counts = self.header.num_seats as usize == seats.len() && self.header.num_bids as usize
            == bids.len() && self.header.num_asks as usize == asks.len();
        let tails = self.header.seats_dll_tail == last_or_nil_exec(&seats)
            && self.header.bids_dll_tail == last_or_nil_exec(&bids) && self.header.asks_dll_tail
            == last_or_nil_exec(&asks);
        let prevs = check_prev_links(nodes, &seats) && check_prev_links(nodes, &bids)
            && check_prev_links(nodes, &asks);
        let mut owner: Vec<u8> = Vec::new();
        let mut i: usize = 0;
        while i < n
            invariant
                i <= n,
                owner@.len() == i,
                forall|j: int| 0 <= j < i ==> #[trigger] owner@[j] == 0u8,
            decreases n - i,
        {
            owner.push(0u8);
            i = i + 1;
        }
        let ghost o0 = owner@;
        let m1 = mark(&mut owner, &free, 1);
        let ghost o1 = owner@;
        let m2 = mark(&mut owner, &seats, 2);
        let ghost o2 = owner@;
        let m3 = mark(&mut owner, &bids, 3);
        let ghost o3 = owner@;
        let m4 = mark(&mut owner, &asks, 4);
        let r = ends && free_count && counts && tails && prevs && m1 && m2 && m3 && m4;
        proof {
            let f = free@;
            let se = seats@;
            let bi = bids@;
            let ask = asks@;
            let nn = n as nat;
            assert(forall|k: int| 0 <= k < f.len() ==> #[trigger] f[k] < nn);
            assert(forall|k: int| 0 <= k < se.len() ==> #[trigger] se[k] < nn);
            assert(forall|k: int| 0 <= k < bi.len() ==> #[trigger] bi[k] < nn);
            assert(forall|k: int| 0 <= k < ask.len() ==> #[trigger] ask[k] < nn);
            // What the marks record, when they succeed.
            if m1 {
                assert forall|x: SectorIndex| #[trigger] f.contains(x) implies o1[x as int] == 1 by {
                    let k = choose|k: int| 0 <= k < f.len() && f[k] == x;
                    assert(f[k] < nn);
                }
                assert forall|x: SectorIndex| x < nn && !f.contains(x) implies #[trigger] o1[x as int]
                    == 0 by {}
            }
            if m1 && m2 {
                assert forall|x: SectorIndex| #[trigger] se.contains(x) implies o2[x as int] == 2 by {
                    let k = choose|k: int| 0 <= k < se.len() && se[k] == x;
                    assert(se[k] < nn);
                }
                assert forall|x: SectorIndex| x < nn && !se.contains(x) implies #[trigger] o2[x as int]
                    == o1[x as int] by {}
                assert(disjoint(f, se)) by {
                    assert forall|x: SectorIndex| f.contains(x) implies !se.contains(x) by {
                        if se.contains(x) {
                            let k = choose|k: int| 0 <= k < se.len() && se[k] == x;
                            assert(o1[se[k] as int] == 0);
                        }
                    }
                }
            }
            if m1 && m2 && m3 {
                assert forall|x: SectorIndex| #[trigger] bi.contains(x) implies o3[x as int] == 3 by {
                    let k = choose|k: int| 0 <= k < bi.len() && bi[k] == x;
                    assert(bi[k] < nn);
                }
                assert forall|x: SectorIndex| x < nn && !bi.contains(x) implies #[trigger] o3[x as int]
                    == o2[x as int] by {}
                assert(disjoint(f, bi) && disjoint(se, bi)) by {
                    assert forall|x: SectorIndex| f.contains(x) implies !bi.contains(x) by {
                        if bi.contains(x) {
                            let k = choose|k: int| 0 <= k < bi.len() && bi[k] == x;
                            assert(o2[bi[k] as int] == 0);
                            assert(x < nn);
                            if se.contains(x) {
                            } else {
                                assert(o2[x as int] == o1[x as int]);
                            }
                        }
                    }
                    assert forall|x: SectorIndex| se.contains(x) implies !bi.contains(x) by {
                        if bi.contains(x) {
                            let k = choose|k: int| 0 <= k < bi.len() && bi[k] == x;
                            assert(o2[bi[k] as int] == 0);
                        }
                    }
                }
            }
            if m1 && m2 && m3 && m4 {
                assert(disjoint(f, ask) && disjoint(se, ask) && disjoint(bi, ask)) by {
                    assert forall|x: SectorIndex| f.contains(x) implies !ask.contains(x) by {
                        if ask.contains(x) {
                            let k = choose|k: int| 0 <= k < ask.len() && ask[k] == x;
                            assert(o3[ask[k] as int] == 0);
                            assert(x < nn);
                            if bi.contains(x) {
                            } else if se.contains(x) {
                                assert(o3[x as int] == o2[x as int]);
                            } else {
                                assert(o3[x as int] == o2[x as int]);
                                assert(o2[x as int] == o1[x as int]);
                            }
                        }
                    }
                    assert forall|x: SectorIndex| se.contains(x) implies !ask.contains(x) by {
                        if ask.contains(x) {
                            let k = choose|k: int| 0 <= k < ask.len() && ask[k] == x;
                            assert(o3[ask[k] as int] == 0);
                            assert(x < nn);
                            if bi.contains(x) {
                            } else {
                                assert(o3[x as int] == o2[x as int]);
                            }
                        }
                    }
                    assert forall|x: SectorIndex| bi.contains(x) implies !ask.contains(x) by {
                        if ask.contains(x) {
                            let k = choose|k: int| 0 <= k < ask.len() && ask[k] == x;
                            assert(o3[ask[k] as int] == 0);
                        }
                    }
                }
            }
            if r {
                assert(self.list_wf(ListKind::Seats));
                assert(self.list_wf(ListKind::Bids));
                assert(self.list_wf(ListKind::Asks));
                assert(self.free_wf());
            }
            if self.wf() {
                assert(self.list_wf(ListKind::Seats));
                assert(self.list_wf(ListKind::Bids));
                assert(self.list_wf(ListKind::Asks));
                assert(ends);
                assert(forall|k: int| 0 <= k < f.len() ==> o0[#[trigger] f[k] as int] == 0);
                assert(m1);
                assert forall|k: int| 0 <= k < se.len() implies o1[#[trigger] se[k] as int] == 0 by {
                    assert(se.contains(se[k]));
                    assert(!f.contains(se[k]));
                }
                assert(m2);
                assert forall|k: int| 0 <= k < bi.len() implies o2[#[trigger] bi[k] as int] == 0 by {
                    assert(bi.contains(bi[k]));
                    assert(!f.contains(bi[k]));
                    assert(!se.contains(bi[k]));
                }
                assert(m3);
                assert forall|k: int| 0 <= k < ask.len() implies o3[#[trigger] ask[k] as int] == 0 by {
                    assert(ask.contains(ask[k]));
                    assert(!f.contains(ask[k]));
                    assert(!se.contains(ask[k]));
                    assert(!bi.contains(ask[k]));
                }
                assert(m4);
            }
        }
        r
    }
}

/// Whether a walk ends properly ([`walk_ends`]).
fn walk_ends_exec(nodes: &[Node], s: &Vec<SectorIndex>, root: SectorIndex) -> (r: bool)
    requires
        forall|k: int| 0 <= k < s@.len() ==> #[trigger] s@[k] < nodes@.len(),
    ensures
        r == walk_ends(s@, root, nodes@),
{
    if s.len() == 0 {
        root == NIL
    } else {
        nodes[s[s.len() - 1] as usize].next == NIL
    }
}

/// The last index of `s`, or [`NIL`] when it is empty.
fn last_or_nil_exec(s: &Vec<SectorIndex>) -> (r: SectorIndex)
    ensures
        r == last_or_nil(s@),
{
    if s.len() == 0 {
        NIL
    } else {
        s[s.len() - 1]
    }
}

} // verus!
