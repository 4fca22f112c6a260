//! The node stored in each sector: the `next` and `prev` sector indices of the structure it
//! belongs to, and an opaque payload.

use vstd::prelude::*;

use crate::error::{
    DropsetError,
    DropsetResult,
};
use crate::le_bytes::{
    array_from_seq,
    lemma_array_from_seq,
    le_u32,
    le_u32_at,
    lemma_le_round_trip,
    push_bytes,
    push_u32,
    read_array,
    read_u32,
};
use crate::state::sector::{
    SectorIndex,
    SECTOR_SIZE,
};
use crate::state::transmutable::Transmutable;

verus! {

/// The size in bytes of a node's payload.
pub const NODE_PAYLOAD_SIZE: usize = 64;

/// A node stored in the sectors region, containing the previous and next sector indices and a
/// fixed-size payload buffer.
///
/// Higher-level structures (free stack, seat list, order lists) interpret the payload as their
/// own type. Encoded as `next`, `prev` (little-endian) and then the payload bytes.
#[derive(Clone, Copy, Debug, PartialEq, Eq)]
pub struct Node {
    /// The sector index of the next node.
    pub next: SectorIndex,
    /// The sector index of the previous node. Unused, and garbage, while the node is free.
    pub prev: SectorIndex,
    /// The raw payload bytes.
    pub payload: [u8; NODE_PAYLOAD_SIZE],
}

impl Node {
    /// A node with every byte zero.
    pub open spec fn zeroed_spec() -> Node {
        Node { next: 0, prev: 0, payload: [0u8; NODE_PAYLOAD_SIZE] }
    }

    /// Returns a node with every byte zero.
    pub fn zeroed() -> (r: Node)
        ensures
            r == Node::zeroed_spec(),
    {
        Node { next: 0, prev: 0, payload: [0u8; NODE_PAYLOAD_SIZE] }
    }

    pub fn prev(&self) -> (r: SectorIndex)
        ensures
            r == self.prev,
    {
        self.prev
    }

    pub fn set_prev(&mut self, index: SectorIndex)
        ensures
            *final(self) == (Node { prev: index, ..*old(self) }),
    {
        self.prev = index;
    }

    pub fn next(&self) -> (r: SectorIndex)
        ensures
            r == self.next,
    {
        self.next
    }

    pub fn set_next(&mut self, index: SectorIndex)
        ensures
            *final(self) == (Node { next: index, ..*old(self) }),
    {
        self.next = index;
    }

    /// Replaces the payload.
    pub fn set_payload(&mut self, payload: &[u8; NODE_PAYLOAD_SIZE])
        ensures
            *final(self) == (Node { payload: *payload, ..*old(self) }),
    {
        self.payload = *payload;
    }

    /// Sets every payload byte to zero.
    pub fn zero_out_payload(&mut self)
        ensures
            *final(self) == (Node { payload: [0u8; NODE_PAYLOAD_SIZE], ..*old(self) }),
    {
        self.payload = [0u8; NODE_PAYLOAD_SIZE];
    }

    /// The payload bytes.
    pub fn load_payload(&self) -> (r: &[u8; NODE_PAYLOAD_SIZE])
        ensures
            *r == self.payload,
    {
        &self.payload
    }

    /// Checks that `index` addresses a whole sector of the `sectors` bytes.
    pub fn check_in_bounds(sectors: &[u8], index: SectorIndex) -> (r: DropsetResult)
        ensures
            r is Ok <==> index < sectors@.len() / (SECTOR_SIZE as nat),
            r is Err ==> r == Err::<(), DropsetError>(DropsetError::IndexOutOfBounds),
    {
        let max_num_sectors = sectors.len() / SECTOR_SIZE;
        if index as usize >= max_num_sectors {
            return Err(DropsetError::IndexOutOfBounds);
        }
        Ok(())
    }

    /// Reads the node stored in sector `index` of the `sectors` bytes.
    pub fn from_sector_index(sectors: &[u8], index: SectorIndex) -> (r: Node)
        requires
            index < sectors@.len() / (SECTOR_SIZE as nat),
        ensures
            r == Node::decode_spec(
                sectors@.subrange(index * SECTOR_SIZE, index * SECTOR_SIZE + SECTOR_SIZE),
            ),
    {
        let len = sectors.len();
        let start = index as usize * SECTOR_SIZE;
        assert(index * SECTOR_SIZE + SECTOR_SIZE <= len) by (nonlinear_arith)
            requires
                index < (len as nat) / (SECTOR_SIZE as nat),
        ;
        Node::load_unchecked(vstd::slice::slice_subrange(sectors, start, start + SECTOR_SIZE))
    }
}

impl Transmutable for Node {
    open spec fn byte_len() -> nat {
        SECTOR_SIZE as nat
    }

    fn len() -> (r: usize) {
        SECTOR_SIZE
    }

    open spec fn valid_bit_pattern(bytes: Seq<u8>) -> bool {
        true
    }

    open spec fn decode_spec(bytes: Seq<u8>) -> Node {
        Node {
            next: le_u32_at(bytes, 0),
            prev: le_u32_at(bytes, 4),
            payload: array_from_seq::<NODE_PAYLOAD_SIZE>(bytes.subrange(8, 72)),
        }
    }

    open spec fn encode_spec(&self) -> Seq<u8> {
        le_u32(self.next) + le_u32(self.prev) + self.payload@
    }

    fn validate_bit_patterns(bytes: &[u8]) -> (r: DropsetResult) {
        // All bit patterns are valid: no enums, bools, or other types with invalid states.
        Ok(())
    }

    fn load_unchecked(bytes: &[u8]) -> (r: Node) {
        let next = read_u32(bytes, 0);
        let prev = read_u32(bytes, 4);
        let payload: [u8; NODE_PAYLOAD_SIZE] = read_array(bytes, 8);
        proof {
            lemma_array_from_seq(payload);
        }
        Node { next, prev, payload }
    }

    fn to_bytes(&self) -> (r: Vec<u8>) {
        let mut out: Vec<u8> = Vec::new();
        push_u32(&mut out, self.next);
        push_u32(&mut out, self.prev);
        push_bytes(&mut out, self.payload.as_slice());
        proof {
            lemma_le_round_trip();
        }
        out
    }
}

/// Decoding the bytes of a node gives the node back.
pub proof fn lemma_node_round_trip(node: Node)
    ensures
        node.encode_spec().len() == SECTOR_SIZE,
        Node::decode_spec(node.encode_spec()) == node,
{
    lemma_le_round_trip();
    let b = node.encode_spec();
    assert(b.subrange(0, 4) =~= le_u32(node.next));
    assert(b.subrange(4, 8) =~= le_u32(node.prev));
    assert(b.subrange(8, 72) =~= node.payload@);
    lemma_array_from_seq(node.payload);
}

/// Encoding the node that any 72 bytes decode to gives those bytes back.
pub proof fn lemma_node_bytes_round_trip(b: Seq<u8>)
    requires
        b.len() == SECTOR_SIZE,
    ensures
        Node::decode_spec(b).encode_spec() == b,
{
    vstd::bytes::lemma_auto_spec_u32_to_from_le_bytes();
    crate::le_bytes::lemma_array_from_seq_view::<64>(b.subrange(8, 72));
    let n = Node::decode_spec(b);
    assert(le_u32(n.next) == b.subrange(0, 4));
    assert(le_u32(n.prev) == b.subrange(4, 8));
    assert(n.encode_spec() =~= b);
}

/// A type that can be stored in the payload of a [`Node`]: its layout is exactly
/// [`NODE_PAYLOAD_SIZE`] bytes.
pub trait NodePayload: Transmutable {}

/// A type for which every bit pattern of its layout is a valid value, so that loading it needs no
/// check of the bytes.
pub trait AllBitPatternsValid: Transmutable {}

} // verus!
