//! The program's instructions: their tags and the layouts of their instruction data.

pub mod close;
pub mod num_sectors;
pub mod data;

use vstd::prelude::*;

use crate::error::DropsetError;

verus! {

/// Every instruction of the program, tagged by its position in this list.
#[derive(Clone, Copy, Debug, PartialEq, Eq, Structural)]
pub enum DropsetInstruction {
    CloseSeat,
    Deposit,
    RegisterMarket,
    Withdraw,
    PostOrder,
    CancelOrder,
    BatchReplace,
    MarketOrder,
    FlushEvents,
}

/// The tag byte of an instruction.
pub open spec fn instruction_tag_spec(i: DropsetInstruction) -> u8 {
    match i {
        DropsetInstruction::CloseSeat => 0,
        DropsetInstruction::Deposit => 1,
        DropsetInstruction::RegisterMarket => 2,
        DropsetInstruction::Withdraw => 3,
        DropsetInstruction::PostOrder => 4,
        DropsetInstruction::CancelOrder => 5,
        DropsetInstruction::BatchReplace => 6,
        DropsetInstruction::MarketOrder => 7,
        DropsetInstruction::FlushEvents => 8,
    }
}

impl DropsetInstruction {
    /// The tag byte of the instruction.
    pub fn tag(self) -> (r: u8)
        ensures
            r == instruction_tag_spec(self),
    {
        match self {
            DropsetInstruction::CloseSeat => 0,
            DropsetInstruction::Deposit => 1,
            DropsetInstruction::RegisterMarket => 2,
            DropsetInstruction::Withdraw => 3,
            DropsetInstruction::PostOrder => 4,
            DropsetInstruction::CancelOrder => 5,
            DropsetInstruction::BatchReplace => 6,
            DropsetInstruction::MarketOrder => 7,
            DropsetInstruction::FlushEvents => 8,
        }
    }

    /// The instruction with tag byte `tag`; fails with `InvalidInstructionTag` for any other byte.
    pub fn try_from(tag: u8) -> (r: Result<DropsetInstruction, DropsetError>)
        ensures
            tag <= 8 ==> (r matches Ok(i) && instruction_tag_spec(i) == tag),
            tag > 8 ==> r == Err::<DropsetInstruction, DropsetError>(
                DropsetError::InvalidInstructionTag,
            ),
    {
        match tag {
            0 => Ok(DropsetInstruction::CloseSeat),
            1 => Ok(DropsetInstruction::Deposit),
            2 => Ok(DropsetInstruction::RegisterMarket),
            3 => Ok(DropsetInstruction::Withdraw),
            4 => Ok(DropsetInstruction::PostOrder),
            5 => Ok(DropsetInstruction::CancelOrder),
            6 => Ok(DropsetInstruction::BatchReplace),
            7 => Ok(DropsetInstruction::MarketOrder),
            8 => Ok(DropsetInstruction::FlushEvents),
            _ => Err(DropsetError::InvalidInstructionTag),
        }
    }
}

/// Law: an instruction's tag byte reads back as the same instruction, and distinct
/// instructions have distinct tags.
pub proof fn lemma_instruction_tag_round_trip(a: DropsetInstruction, b: DropsetInstruction)
    ensures
        instruction_tag_spec(a) <= 8,
        instruction_tag_spec(a) == instruction_tag_spec(b) ==> a == b,
{
}

} // verus!
