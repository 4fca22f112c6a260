//! The instruction data that names a user's seat for closing it.

use vstd::prelude::*;

use crate::error::{
    DropsetError,
    DropsetResult,
};
use crate::le_bytes::{
    le_u32,
    lemma_le_round_trip,
    read_array,
};
use crate::state::sector::NonNilSectorIndex;
use crate::state::transmutable::Transmutable;

verus! {

/// A hint as to which sector the calling user's seat is in, as little-endian bytes.
pub struct CloseInstructionData {
    sector_index_hint: [u8; 4],
}

impl CloseInstructionData {
    /// The sector index held, as its little-endian bytes decode.
    pub closed spec fn hint(&self) -> Seq<u8> {
        self.sector_index_hint@
    }

    pub fn new(sector_index_hint: NonNilSectorIndex) -> (r: Self)
        ensures
            r.hint() == le_u32(sector_index_hint.value()),
    {
        let bytes = vstd::bytes::u32_to_le_bytes(sector_index_hint.get());
        proof {
            lemma_le_round_trip();
        }
        CloseInstructionData { sector_index_hint: read_array(bytes.as_slice(), 0) }
    }

    /// Packs the instruction data: writes the hint's four bytes at the start of `dst` (as far as
    /// `dst` reaches) and leaves the rest of `dst` as it is.
    pub fn pack_into_slice(&self, dst: &mut [u8])
        ensures
            final(dst)@.len() == old(dst)@.len(),
            forall|i: int|
                0 <= i < old(dst)@.len() ==> #[trigger] final(dst)@[i] == if i < 4 {
                    self.hint()[i]
                } else {
                    old(dst)@[i]
                },
    {
        crate::pack::write_bytes(dst, self.sector_index_hint.as_slice());
    }

    /// The hint, failing with `InvalidSectorIndex` when it is [`crate::state::sector::NIL`].
    pub fn try_sector_index_hint(&self) -> (r: Result<NonNilSectorIndex, DropsetError>)
        ensures
            vstd::bytes::spec_u32_from_le_bytes(self.hint()) != crate::state::sector::NIL ==> (
            r matches Ok(v) && v.value() == vstd::bytes::spec_u32_from_le_bytes(self.hint())),
            vstd::bytes::spec_u32_from_le_bytes(self.hint()) == crate::state::sector::NIL ==> r
                == Err::<NonNilSectorIndex, DropsetError>(DropsetError::InvalidSectorIndex),
    {
        let index = crate::le_bytes::read_u32(self.sector_index_hint.as_slice(), 0);
        assert(self.sector_index_hint@.subrange(0, 4) =~= self.sector_index_hint@);
        NonNilSectorIndex::new(index)
    }
}

impl Transmutable for CloseInstructionData {
    open spec fn byte_len() -> nat {
        4
    }

    fn len() -> (r: usize) {
        4
    }

    open spec fn valid_bit_pattern(bytes: Seq<u8>) -> bool {
        true
    }

    closed spec fn decode_spec(bytes: Seq<u8>) -> CloseInstructionData {
        CloseInstructionData { sector_index_hint: crate::le_bytes::array_from_seq::<4>(bytes) }
    }

    closed spec fn encode_spec(&self) -> Seq<u8> {
        self.sector_index_hint@
    }

    fn validate_bit_patterns(bytes: &[u8]) -> (r: DropsetResult) {
        // All bit patterns are valid: no enums, bools, or other types with invalid states.
        Ok(())
    }

    fn load_unchecked(bytes: &[u8]) -> (r: CloseInstructionData) {
        let a: [u8; 4] = read_array(bytes, 0);
        proof {
            assert(bytes@.subrange(0, 4) =~= bytes@);
            crate::le_bytes::lemma_array_from_seq(a);
        }
        CloseInstructionData { sector_index_hint: a }
    }

    fn to_bytes(&self) -> (r: Vec<u8>) {
        let mut out: Vec<u8> = Vec::new();
        crate::le_bytes::push_bytes(&mut out, self.sector_index_hint.as_slice());
        out
    }
}

} // verus!
