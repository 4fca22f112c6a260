//! The instruction data that carries a number of sectors.

use vstd::prelude::*;

use crate::error::DropsetResult;
use crate::le_bytes::{
    le_u16,
    lemma_le_round_trip,
    read_array,
    read_u16,
};
use crate::state::transmutable::Transmutable;

verus! {

/// A number of sectors, as little-endian bytes.
pub struct NumSectorsInstructionData {
    num_sectors: [u8; 2],
}

impl NumSectorsInstructionData {
    /// The little-endian bytes held.
    pub closed spec fn bytes(&self) -> Seq<u8> {
        self.num_sectors@
    }

    pub fn new(num_sectors: u16) -> (r: Self)
        ensures
            r.bytes() == le_u16(num_sectors),
    {
        let bytes = vstd::bytes::u16_to_le_bytes(num_sectors);
        proof {
            lemma_le_round_trip();
        }
        NumSectorsInstructionData { num_sectors: read_array(bytes.as_slice(), 0) }
    }

    /// The number of sectors.
    pub fn num_sectors(&self) -> (r: u16)
        ensures
            r == vstd::bytes::spec_u16_from_le_bytes(self.bytes()),
    {
        assert(self.num_sectors@.subrange(0, 2) =~= self.num_sectors@);
        read_u16(self.num_sectors.as_slice(), 0)
    }

    /// The instruction data bytes.
    pub fn pack(&self) -> (r: [u8; 2])
        ensures
            r@ == self.bytes(),
    {
        self.num_sectors
    }
}

/// Law: the number of sectors a value is made with is the number it reads back.
pub proof fn lemma_num_sectors_round_trip(n: u16)
    ensures
        vstd::bytes::spec_u16_from_le_bytes(le_u16(n)) == n,
{
    lemma_le_round_trip();
    assert(le_u16(n).len() == 2);
}

/// Law: a value loaded from two bytes holds exactly those bytes, so its number of sectors is the
/// number they encode little-endian and it packs back to them.
pub proof fn lemma_num_sectors_load(b: Seq<u8>)
    requires
        b.len() == 2,
    ensures
        NumSectorsInstructionData::decode_spec(b).bytes() == b,
{
    crate::le_bytes::lemma_array_from_seq_view::<2>(b);
}

impl Transmutable for NumSectorsInstructionData {
    open spec fn byte_len() -> nat {
        2
    }

    fn len() -> (r: usize) {
        2
    }

    open spec fn valid_bit_pattern(bytes: Seq<u8>) -> bool {
        true
    }

    closed spec fn decode_spec(bytes: Seq<u8>) -> NumSectorsInstructionData {
        NumSectorsInstructionData { num_sectors: crate::le_bytes::array_from_seq::<2>(bytes) }
    }

    closed spec fn encode_spec(&self) -> Seq<u8> {
        self.num_sectors@
    }

    fn validate_bit_patterns(bytes: &[u8]) -> (r: DropsetResult) {
        // All bit patterns are valid: no enums, bools, or other types with invalid states.
        Ok(())
    }

    fn load_unchecked(bytes: &[u8]) -> (r: NumSectorsInstructionData) {
        let a: [u8; 2] = read_array(bytes, 0);
        proof {
            assert(bytes@.subrange(0, 2) =~= bytes@);
            crate::le_bytes::lemma_array_from_seq(a);
        }
        NumSectorsInstructionData { num_sectors: a }
    }

    fn to_bytes(&self) -> (r: Vec<u8>) {
        let mut out: Vec<u8> = Vec::new();
        crate::le_bytes::push_bytes(&mut out, self.num_sectors.as_slice());
        out
    }
}

} // verus!
