//! The free stack: a singly linked stack of the sectors that hold no seat and no order, through
//! which sectors are reused.

use vstd::prelude::*;

use crate::error::{
    DropsetError,
    DropsetResult,
};
use crate::le_bytes::{
    array_from_seq,
    lemma_array_from_seq,
    read_array,
};
use crate::state::market::{
    disjoint,
    first_or_nil,
    indices_valid,
    lemma_contains_cons,
    lemma_indices_bounded,
    lemma_contains_drop_first,
    lemma_links_update_outside,
    next_in,
    next_links,
    prev_links,
    Market,
};
use crate::state::market_header::{
    saturating_dec,
    saturating_inc,
    MarketHeader,
};
use crate::state::node::{
    Node,
    NODE_PAYLOAD_SIZE,
};
use crate::state::sector::{
    SectorIndex,
    NIL,
};
use crate::state::transmutable::Transmutable;

verus! {

/// The payload of a free node. Only the node's `next` matters while it is free, so these bytes
/// are garbage (zero after a node is freed).
#[derive(Clone, Copy, Debug)]
pub struct FreeNodePayload(pub [u8; NODE_PAYLOAD_SIZE]);

impl Transmutable for FreeNodePayload {
    open spec fn byte_len() -> nat {
        NODE_PAYLOAD_SIZE as nat
    }

    fn len() -> (r: usize) {
        NODE_PAYLOAD_SIZE
    }

    open spec fn valid_bit_pattern(bytes: Seq<u8>) -> bool {
        true
    }

    open spec fn decode_spec(bytes: Seq<u8>) -> FreeNodePayload {
        FreeNodePayload(array_from_seq::<NODE_PAYLOAD_SIZE>(bytes))
    }

    open spec fn encode_spec(&self) -> Seq<u8> {
        self.0@
    }

    fn validate_bit_patterns(bytes: &[u8]) -> (r: DropsetResult) {
        // All bit patterns are valid.
        Ok(())
    }

    fn load_unchecked(bytes: &[u8]) -> (r: FreeNodePayload) {
        let a: [u8; NODE_PAYLOAD_SIZE] = read_array(bytes, 0);
        proof {
            lemma_array_from_seq(a);
            assert(bytes@.subrange(0, NODE_PAYLOAD_SIZE as int) =~= bytes@);
        }
        FreeNodePayload(a)
    }

    fn to_bytes(&self) -> (r: Vec<u8>) {
        let mut out: Vec<u8> = Vec::new();
        crate::le_bytes::push_bytes(&mut out, self.0.as_slice());
        out
    }
}

/// The sequence `start, start + 1, ..., end - 1`.
pub open spec fn index_range(start: SectorIndex, end: SectorIndex) -> Seq<SectorIndex> {
    Seq::new((end - start) as nat, |i: int| (start + i) as SectorIndex)
}

/// A sector off the free stack leaves the stack shorter than the market.
proof fn lemma_free_shorter(m: Market, index: SectorIndex)
    requires
        m.wf(),
        index < m.sectors@.len(),
        !m.free@.contains(index),
    ensures
        m.free@.len() < m.sectors@.len(),
{
    let f = m.free@;
    let t = seq![index] + f;
    assert(indices_valid(t, m.sectors@.len())) by {
        assert forall|i: int, j: int| 0 <= i < t.len() && 0 <= j < t.len() && i != j implies t[i]
            != t[j] by {
            if i > 0 && j > 0 {
                assert(t[i] == f[i - 1] && t[j] == f[j - 1]);
            } else if i == 0 {
                assert(f.contains(t[j]));
            } else {
                assert(f.contains(t[i]));
            }
        }
        assert forall|k: int| 0 <= k < t.len() implies t[k] < m.sectors@.len() by {
            if k > 0 {
                assert(t[k] == f[k - 1]);
            }
        }
    }
    lemma_indices_bounded(t, m.sectors@.len());
}

impl Market {
    /// The index at the top of the free stack.
    pub fn top(&self) -> (r: SectorIndex)
        ensures
            r == self.header.free_stack_top,
    {
        self.header.free_stack_top()
    }

    /// Overwrites the index at the top of the free stack; nothing else changes.
    pub fn set_top(&mut self, index: SectorIndex)
        ensures
            final(self).header == (MarketHeader { free_stack_top: index, ..old(self).header }),
            final(self).sectors@ == old(self).sectors@,
            final(self).free == old(self).free,
            final(self).seats == old(self).seats,
            final(self).bids == old(self).bids,
            final(self).asks == old(self).asks,
    {
        self.header.set_free_stack_top(index);
    }

    /// Links the unused sector `index` on top of the free stack and counts it, without touching
    /// its payload.
    fn link_free(&mut self, index: SectorIndex)
        requires
            old(self).wf(),
            index < old(self).sectors@.len(),
            !old(self).in_use(index),
        ensures
            final(self).wf(),
            final(self).free@ == seq![index] + old(self).free@,
            final(self).seats == old(self).seats,
            final(self).bids == old(self).bids,
            final(self).asks == old(self).asks,
            final(self).sectors@ == old(self).sectors@.update(
                index as int,
                Node { next: old(self).header.free_stack_top, ..old(self).sectors@[index as int] },
            ),
            final(self).header == (MarketHeader {
                free_stack_top: index,
                num_free_sectors: (old(self).header.num_free_sectors + 1) as u32,
                ..old(self).header
            }),
    {
        let ghost old_self = *self;
        proof {
            assert(!old_self.free@.contains(index));
            assert(old_self.free@.len() < old_self.sectors@.len()) by {
                lemma_free_shorter(old_self, index);
            }
        }
        let curr_top = self.top();
        let mut node = self.node(index);
        node.set_next(curr_top);
        self.set_node(index, node);
        self.header.set_free_stack_top(index);
        self.header.increment_num_free_sectors();
        self.free = Ghost(seq![index] + old_self.free@);
        proof {
            let n = old_self.sectors@.len();
            let nodes = self.sectors@;
            let f = self.free@;
            lemma_contains_cons(index, old_self.free@);
            lemma_links_update_outside(old_self.seats@, old_self.sectors@, index, node);
            lemma_links_update_outside(old_self.bids@, old_self.sectors@, index, node);
            lemma_links_update_outside(old_self.asks@, old_self.sectors@, index, node);
            assert(indices_valid(f, n)) by {
                assert forall|i: int, j: int| 0 <= i < f.len() && 0 <= j < f.len() && i != j implies f[i]
                    != f[j] by {
                    if i > 0 && j > 0 {
                        assert(f[i] == old_self.free@[i - 1]);
                        assert(f[j] == old_self.free@[j - 1]);
                    } else if i == 0 {
                        assert(old_self.free@.contains(f[j]));
                    } else {
                        assert(old_self.free@.contains(f[i]));
                    }
                }
            }
            assert(next_links(f, nodes)) by {
                assert forall|k: int| 0 <= k < f.len() implies #[trigger] nodes[f[k] as int].next
                    == next_in(f, k) by {
                    if k > 0 {
                        assert(f[k] == old_self.free@[k - 1]);
                        assert(old_self.free@.contains(f[k]));
                        assert(nodes[f[k] as int] == old_self.sectors@[f[k] as int]);
                    }
                }
            }
        }
    }

    /// Pushes the unused sector `index` onto the free stack: zeroes its payload, sets its
    /// `next` to the current top, makes it the top and counts it as free.
    pub fn push_free_node(&mut self, index: SectorIndex)
        requires
            old(self).wf(),
            index < old(self).sectors@.len(),
            !old(self).in_use(index),
        ensures
            final(self).wf(),
            final(self).free@ == seq![index] + old(self).free@,
            final(self).seats == old(self).seats,
            final(self).bids == old(self).bids,
            final(self).asks == old(self).asks,
            final(self).sectors@ == old(self).sectors@.update(
                index as int,
                Node {
                    next: old(self).header.free_stack_top,
                    payload: [0u8; NODE_PAYLOAD_SIZE],
                    ..old(self).sectors@[index as int]
                },
            ),
            final(self).header == (MarketHeader {
                free_stack_top: index,
                num_free_sectors: (old(self).header.num_free_sectors + 1) as u32,
                ..old(self).header
            }),
    {
        let ghost old_self = *self;
        let mut node = self.node(index);
        node.zero_out_payload();
        self.set_node(index, node);
        proof {
            lemma_links_update_outside(old_self.free@, old_self.sectors@, index, node);
            lemma_links_update_outside(old_self.seats@, old_self.sectors@, index, node);
            lemma_links_update_outside(old_self.bids@, old_self.sectors@, index, node);
            lemma_links_update_outside(old_self.asks@, old_self.sectors@, index, node);
        }
        self.link_free(index);
        proof {
            assert(self.sectors@ =~= old_self.sectors@.update(
                index as int,
                Node {
                    next: old_self.header.free_stack_top,
                    payload: [0u8; NODE_PAYLOAD_SIZE],
                    ..old_self.sectors@[index as int]
                },
            ));
        }
    }

    /// Pops the top of the free stack, sets its `next` to zero and returns its index, which is
    /// in bounds and not [`NIL`]. Fails with `NoFreeNodesLeft`, changing nothing, when the stack
    /// is empty.
    pub fn remove_free_node(&mut self) -> (r: Result<SectorIndex, DropsetError>)
        requires
            old(self).wf(),
        ensures
            final(self).wf(),
            final(self).seats == old(self).seats,
            final(self).bids == old(self).bids,
            final(self).asks == old(self).asks,
            old(self).free@.len() == 0 ==> r == Err::<SectorIndex, DropsetError>(
                DropsetError::NoFreeNodesLeft,
            ) && final(self).free == old(self).free && final(self).sectors@ == old(
                self,
            ).sectors@ && final(self).header == old(self).header,
            old(self).free@.len() > 0 ==> r == Ok::<SectorIndex, DropsetError>(old(self).free@[0])
                && final(self).free@ == old(self).free@.drop_first() && final(self).sectors@ == old(
                self,
            ).sectors@.update(
                old(self).free@[0] as int,
                Node { next: 0, ..old(self).sectors@[old(self).free@[0] as int] },
            ) && final(self).header == (MarketHeader {
                free_stack_top: next_in(old(self).free@, 0),
                num_free_sectors: saturating_dec(old(self).header.num_free_sectors),
                ..old(self).header
            }),
    {
        let ghost old_self = *self;
        let free_index = self.top();
        if free_index == NIL {
            return Err(DropsetError::NoFreeNodesLeft);
        }
        if free_index as usize >= self.sectors.len() {
            return Err(DropsetError::IndexOutOfBounds);
        }
        let mut node = self.node(free_index);
        let new_top = node.next();
        node.set_next(0);
        self.set_node(free_index, node);
        self.header.set_free_stack_top(new_top);
        self.header.decrement_num_free_sectors();
        self.free = Ghost(old_self.free@.drop_first());
        proof {
            let n = old_self.sectors@.len();
            let nodes = self.sectors@;
            let f = self.free@;
            let of = old_self.free@;
            assert(of[0] == free_index);
            lemma_contains_drop_first(of);
            assert(!old_self.seats@.contains(free_index));
            assert(!old_self.bids@.contains(free_index));
            assert(!old_self.asks@.contains(free_index));
            lemma_links_update_outside(old_self.seats@, old_self.sectors@, free_index, node);
            lemma_links_update_outside(old_self.bids@, old_self.sectors@, free_index, node);
            lemma_links_update_outside(old_self.asks@, old_self.sectors@, free_index, node);
            assert(indices_valid(f, n)) by {
                assert forall|i: int, j: int| 0 <= i < f.len() && 0 <= j < f.len() && i != j implies f[i]
                    != f[j] by {
                    assert(f[i] == of[i + 1]);
                    assert(f[j] == of[j + 1]);
                }
            }
            assert(next_links(f, nodes)) by {
                assert forall|k: int| 0 <= k < f.len() implies #[trigger] nodes[f[k] as int].next
                    == next_in(f, k) by {
                    assert(f[k] == of[k + 1]);
                    assert(of[k + 1] != of[0]);
                    assert(nodes[f[k] as int] == old_self.sectors@[of[k + 1] as int]);
                }
            }
            assert(new_top == next_in(of, 0));
        }
        Ok(free_index)
    }

    /// Turns the unused sectors `start..end` into free nodes: pushes them from `end - 1` down to
    /// `start`, so that `start` ends on top, linking each to the previous top and counting each
    /// as free (saturating). Payloads are left as they are; the sectors are expected to be fresh,
    /// zeroed account space.
    pub fn convert_zeroed_bytes_to_free_nodes(&mut self, start: u32, end: u32) -> (r: DropsetResult)
        requires
            old(self).wf(),
            start < end <= old(self).sectors@.len(),
            forall|i: SectorIndex| start <= i < end ==> !old(self).in_use(i),
        ensures
            r is Ok,
            final(self).wf(),
            final(self).free@ == index_range(start, end) + old(self).free@,
            final(self).seats == old(self).seats,
            final(self).bids == old(self).bids,
            final(self).asks == old(self).asks,
            final(self).sectors@.len() == old(self).sectors@.len(),
            forall|i: int|
                0 <= i < final(self).sectors@.len() ==> #[trigger] final(self).sectors@[i] == if start
                    <= i < end {
                    Node {
                        next: if i + 1 < end {
                            (i + 1) as SectorIndex
                        } else {
                            old(self).header.free_stack_top
                        },
                        ..old(self).sectors@[i]
                    }
                } else {
                    old(self).sectors@[i]
                },
            final(self).header == (MarketHeader {
                free_stack_top: start,
                num_free_sectors: if old(self).header.num_free_sectors + (end - start) > u32::MAX {
                    u32::MAX
                } else {
                    (old(self).header.num_free_sectors + (end - start)) as u32
                },
                ..old(self).header
            }),
    {
        let ghost old_self = *self;
        let mut index = end;
        while index > start
            invariant
                start <= index <= end <= self.sectors@.len(),
                self.wf(),
                old_self.wf(),
                self.free@ == index_range(index, end) + old_self.free@,
                self.seats == old_self.seats,
                self.bids == old_self.bids,
                self.asks == old_self.asks,
                self.sectors@.len() == old_self.sectors@.len(),
                forall|i: SectorIndex| start <= i < index ==> !self.in_use(i),
                forall|i: int|
                    0 <= i < self.sectors@.len() ==> #[trigger] self.sectors@[i] == if index <= i
                        < end {
                        Node {
                            next: if i + 1 < end {
                                (i + 1) as SectorIndex
                            } else {
                                old_self.header.free_stack_top
                            },
                            ..old_self.sectors@[i]
                        }
                    } else {
                        old_self.sectors@[i]
                    },
                self.header == (MarketHeader {
                    free_stack_top: first_or_nil(self.free@),
                    num_free_sectors: if old_self.header.num_free_sectors + (end - index)
                        > u32::MAX {
                        u32::MAX
                    } else {
                        (old_self.header.num_free_sectors + (end - index)) as u32
                    },
                    ..old_self.header
                }),
            decreases index - start,
        {
            let ghost before = *self;
            index = index - 1;
            proof {
                lemma_contains_cons(index, before.free@);
            }
            self.link_free(index);
            proof {
                assert(self.free@ =~= index_range(index, end) + old_self.free@);
                assert forall|i: SectorIndex| start <= i < index implies !self.in_use(i) by {
                    assert(!before.in_use(i));
                }
                if index + 1 < end {
                    assert(before.free@[0] == index + 1);
                } else {
                    assert(before.free@ =~= old_self.free@);
                }
                assert(before.header.free_stack_top == if index + 1 < end {
                    (index + 1) as SectorIndex
                } else {
                    old_self.header.free_stack_top
                });
                assert(before.sectors@[index as int] == old_self.sectors@[index as int]);
                assert forall|i: int| 0 <= i < self.sectors@.len() implies #[trigger] self.sectors@[i]
                    == if index <= i < end {
                    Node {
                        next: if i + 1 < end {
                            (i + 1) as SectorIndex
                        } else {
                            old_self.header.free_stack_top
                        },
                        ..old_self.sectors@[i]
                    }
                } else {
                    old_self.sectors@[i]
                } by {
                    if i != index {
                        assert(self.sectors@[i] == before.sectors@[i]);
                    }
                }
            }
        }
        proof {
            assert(index_range(start, end)[0] == start);
        }
        Ok(())
    }
}

impl crate::state::node::NodePayload for FreeNodePayload {}

impl crate::state::node::AllBitPatternsValid for FreeNodePayload {}

} // verus!
