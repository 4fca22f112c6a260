//! Sector indices: strides into the `sectors` region of a market account.

use vstd::prelude::*;

use crate::error::DropsetError;

verus! {

/// The size in bytes of one sector, i.e. of one [`crate::state::node::Node`].
pub const SECTOR_SIZE: usize = 72;

/// A stride-based index into an array of sectors.
///
/// Index `i` maps to byte offset `i * SECTOR_SIZE` of the raw `sectors` bytes.
pub type SectorIndex = u32;

/// An alias type for a sector index stored as little-endian bytes.
pub type LeSectorIndex = [u8; 4];

/// A sentinel that marks the absence of a sector: one past the last valid sector index. It never
/// appears as a real index since account data is far smaller than `u32::MAX` sectors.
pub const NIL: SectorIndex = 0xffff_ffff;

/// [`NIL`] as little-endian bytes.
pub const LE_NIL: LeSectorIndex = [0xff, 0xff, 0xff, 0xff];

/// A sector index that is known not to be [`NIL`].
#[derive(Clone, Copy, Debug, PartialEq, Eq, Structural)]
pub struct NonNilSectorIndex(SectorIndex);

impl NonNilSectorIndex {
    #[verifier::type_invariant]
    spec fn not_nil(self) -> bool {
        self.0 != NIL
    }

    /// The index held.
    pub closed spec fn value(self) -> SectorIndex {
        self.0
    }

    /// Accepts any index but [`NIL`].
    pub fn new(index: SectorIndex) -> (r: Result<NonNilSectorIndex, DropsetError>)
        ensures
            index != NIL ==> (r matches Ok(v) && v.value() == index),
            index == NIL ==> r == Err::<NonNilSectorIndex, DropsetError>(
                DropsetError::InvalidSectorIndex,
            ),
    {
        if index == NIL {
            Err(DropsetError::InvalidSectorIndex)
        } else {
            Ok(NonNilSectorIndex(index))
        }
    }

    /// The index held, which is never [`NIL`].
    pub fn get(&self) -> (r: SectorIndex)
        ensures
            r == self.value(),
            r != NIL,
    {
        proof {
            use_type_invariant(self);
        }
        self.0
    }
}

} // verus!
