//! Packing and unpacking little-endian instruction data.

use vstd::prelude::*;

use crate::error::DropsetError;
use crate::le_bytes::{
    le_u16_at,
    le_u32_at,
    le_u64_at,
    read_u16,
    read_u32,
    read_u64,
};
use crate::state::sector::{
    SectorIndex,
    NIL,
};

verus! {

/// Copies `src` into `dst` byte by byte, as far as the shorter of the two reaches; the rest of
/// `dst` is left as it is. Callers pass slices of equal length.
pub fn write_bytes(dst: &mut [u8], src: &[u8])
    ensures
        final(dst)@.len() == old(dst)@.len(),
        forall|i: int|
            0 <= i < old(dst)@.len() ==> #[trigger] final(dst)@[i] == if i < src@.len() {
                src@[i]
            } else {
                old(dst)@[i]
            },
{
    let n = if dst.len() < src.len() {
        dst.len()
    } else {
        src.len()
    };
    let mut i: usize = 0;
    while i < n
        invariant
            n <= dst@.len(),
            n <= src@.len(),
            n == dst@.len() || n == src@.len(),
            i <= n,
            dst@.len() == old(dst)@.len(),
            forall|j: int|
                0 <= j < old(dst)@.len() ==> #[trigger] dst@[j] == if j < i {
                    src@[j]
                } else {
                    old(dst)@[j]
                },
        decreases n - i,
    {
        dst[i] = src[i];
        i = i + 1;
    }
}

/// The `u16` at the start of `instruction_data`; fails with `InvalidInstructionData` when it has
/// fewer than two bytes.
pub fn unpack_u16(instruction_data: &[u8]) -> (r: Result<u16, DropsetError>)
    ensures
        instruction_data@.len() >= 2 ==> r == Ok::<u16, DropsetError>(
            le_u16_at(instruction_data@, 0),
        ),
        instruction_data@.len() < 2 ==> r == Err::<u16, DropsetError>(
            DropsetError::InvalidInstructionData,
        ),
{
    if instruction_data.len() >= 2 {
        Ok(read_u16(instruction_data, 0))
    } else {
        Err(DropsetError::InvalidInstructionData)
    }
}

/// The `u32` at the start of `instruction_data`; fails with `InvalidInstructionData` when it has
/// fewer than four bytes.
pub fn unpack_u32(instruction_data: &[u8]) -> (r: Result<u32, DropsetError>)
    ensures
        instruction_data@.len() >= 4 ==> r == Ok::<u32, DropsetError>(
            le_u32_at(instruction_data@, 0),
        ),
        instruction_data@.len() < 4 ==> r == Err::<u32, DropsetError>(
            DropsetError::InvalidInstructionData,
        ),
{
    if instruction_data.len() >= 4 {
        Ok(read_u32(instruction_data, 0))
    } else {
        Err(DropsetError::InvalidInstructionData)
    }
}

/// The `u64` at the start of `instruction_data`; fails with `InvalidInstructionData` when it has
/// fewer than eight bytes.
pub fn unpack_u64(instruction_data: &[u8]) -> (r: Result<u64, DropsetError>)
    ensures
        instruction_data@.len() >= 8 ==> r == Ok::<u64, DropsetError>(
            le_u64_at(instruction_data@, 0),
        ),
        instruction_data@.len() < 8 ==> r == Err::<u64, DropsetError>(
            DropsetError::InvalidInstructionData,
        ),
{
    if instruction_data.len() >= 8 {
        Ok(read_u64(instruction_data, 0))
    } else {
        Err(DropsetError::InvalidInstructionData)
    }
}

/// An amount (`u64`) followed by a sector index (`u32`) that may be [`NIL`], which reads as
/// `None`; fails with `InvalidInstructionData` when there are fewer than twelve bytes.
pub fn unpack_amount_and_optional_sector_index(instruction_data: &[u8]) -> (r: Result<
    (u64, Option<SectorIndex>),
    DropsetError,
>)
    ensures
        instruction_data@.len() >= 12 ==> r == Ok::<(u64, Option<SectorIndex>), DropsetError>(
            (
                le_u64_at(instruction_data@, 0),
                if le_u32_at(instruction_data@, 8) == NIL {
                    None
                } else {
                    Some(le_u32_at(instruction_data@, 8))
                },
            ),
        ),
        instruction_data@.len() < 12 ==> r == Err::<(u64, Option<SectorIndex>), DropsetError>(
            DropsetError::InvalidInstructionData,
        ),
{
    if instruction_data.len() >= 12 {
        let amount = read_u64(instruction_data, 0);
        let index = read_u32(instruction_data, 8);
        let optional_index = if index != NIL {
            Some(index)
        } else {
            None
        };
        Ok((amount, optional_index))
    } else {
        Err(DropsetError::InvalidInstructionData)
    }
}

/// An amount (`u64`) followed by a sector index (`u32`), which may be [`NIL`]; fails with
/// `InvalidInstructionData` when there are fewer than twelve bytes.
pub fn unpack_amount_and_sector_index(instruction_data: &[u8]) -> (r: Result<
    (u64, SectorIndex),
    DropsetError,
>)
    ensures
        instruction_data@.len() >= 12 ==> r == Ok::<(u64, SectorIndex), DropsetError>(
            (le_u64_at(instruction_data@, 0), le_u32_at(instruction_data@, 8)),
        ),
        instruction_data@.len() < 12 ==> r == Err::<(u64, SectorIndex), DropsetError>(
            DropsetError::InvalidInstructionData,
        ),
{
    if instruction_data.len() >= 12 {
        Ok((read_u64(instruction_data, 0), read_u32(instruction_data, 8)))
    } else {
        Err(DropsetError::InvalidInstructionData)
    }
}

} // verus!
