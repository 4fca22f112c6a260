//! Error types of the market program and their codes and messages.

use vstd::prelude::*;

use crate::price::OrderInfoError;

verus! {

/// Every error the market logic can report.
#[derive(Clone, Copy, Debug, PartialEq, Eq, Structural)]
pub enum DropsetError {
    InvalidInstructionTag,
    InvalidInstructionEventTag,
    InsufficientByteLength,
    InvalidSectorIndex,
    NoFreeNodesLeft,
    InvalidAccountDiscriminant,
    IndexOutOfBounds,
    InvalidIndexHint,
    UnalignedData,
    UnallocatedAccountData,
    UserAlreadyExists,
    InvalidTokenProgram,
    AlreadyInitializedAccount,
    AccountNotInitialized,
    NotOwnedBySystemProgram,
    AddressDerivationFailed,
    AmountCannotBeZero,
    InsufficientUserBalance,
    OwnerNotTokenProgram,
    MintAccountMismatch,
    IncorrectTokenAccountOwner,
    InvalidMintAccount,
    InvalidMarketAccountOwner,
    MissingIndexHint,
    InvalidNonZeroInteger,
    InvalidInstructionData,
    IncorrectEventAuthority,
    EventAuthorityMustBeSigner,
    OrderWithPriceAlreadyExists,
    UserHasMaxOrders,
    OrderNotFound,
    ExponentUnderflow,
    ArithmeticOverflow,
    InvalidPriceMantissa,
    InvalidBiasedExponent,
    InfinityIsNotAFloat,
    PostOnlyWouldImmediatelyFill,
    AmountFilledVsTransferredMismatch,
}

/// The numeric code of an error: its position in the declaration of [`DropsetError`].
pub open spec fn error_code_spec(e: DropsetError) -> u32 {
    match e {
        DropsetError::InvalidInstructionTag => 0,
        DropsetError::InvalidInstructionEventTag => 1,
        DropsetError::InsufficientByteLength => 2,
        DropsetError::InvalidSectorIndex => 3,
        DropsetError::NoFreeNodesLeft => 4,
        DropsetError::InvalidAccountDiscriminant => 5,
        DropsetError::IndexOutOfBounds => 6,
        DropsetError::InvalidIndexHint => 7,
        DropsetError::UnalignedData => 8,
        DropsetError::UnallocatedAccountData => 9,
        DropsetError::UserAlreadyExists => 10,
        DropsetError::InvalidTokenProgram => 11,
        DropsetError::AlreadyInitializedAccount => 12,
        DropsetError::AccountNotInitialized => 13,
        DropsetError::NotOwnedBySystemProgram => 14,
        DropsetError::AddressDerivationFailed => 15,
        DropsetError::AmountCannotBeZero => 16,
        DropsetError::InsufficientUserBalance => 17,
        DropsetError::OwnerNotTokenProgram => 18,
        DropsetError::MintAccountMismatch => 19,
        DropsetError::IncorrectTokenAccountOwner => 20,
        DropsetError::InvalidMintAccount => 21,
        DropsetError::InvalidMarketAccountOwner => 22,
        DropsetError::MissingIndexHint => 23,
        DropsetError::InvalidNonZeroInteger => 24,
        DropsetError::InvalidInstructionData => 25,
        DropsetError::IncorrectEventAuthority => 26,
        DropsetError::EventAuthorityMustBeSigner => 27,
        DropsetError::OrderWithPriceAlreadyExists => 28,
        DropsetError::UserHasMaxOrders => 29,
        DropsetError::OrderNotFound => 30,
        DropsetError::ExponentUnderflow => 31,
        DropsetError::ArithmeticOverflow => 32,
        DropsetError::InvalidPriceMantissa => 33,
        DropsetError::InvalidBiasedExponent => 34,
        DropsetError::InfinityIsNotAFloat => 35,
        DropsetError::PostOnlyWouldImmediatelyFill => 36,
        DropsetError::AmountFilledVsTransferredMismatch => 37,
    }
}

/// The human readable message of an error.
pub open spec fn error_message_spec(e: DropsetError) -> Seq<char> {
    match e {
        DropsetError::InvalidInstructionTag => "Invalid instruction tag"@,
        DropsetError::InvalidInstructionEventTag => "Invalid instruction event tag"@,
        DropsetError::InsufficientByteLength => "Not enough bytes passed"@,
        DropsetError::InvalidSectorIndex => "Invalid sector index passed"@,
        DropsetError::NoFreeNodesLeft => "There are no free stack nodes left"@,
        DropsetError::InvalidAccountDiscriminant => "Invalid account discriminant"@,
        DropsetError::IndexOutOfBounds => "Index is out of bounds"@,
        DropsetError::InvalidIndexHint => "Index hint is invalid"@,
        DropsetError::UnalignedData => "Account data is unaligned"@,
        DropsetError::UnallocatedAccountData => "Account data hasn't been properly allocated"@,
        DropsetError::UserAlreadyExists => "User already has an existing seat"@,
        DropsetError::InvalidTokenProgram => "Invalid token program ID"@,
        DropsetError::AlreadyInitializedAccount => "Account has already been initialized"@,
        DropsetError::AccountNotInitialized => "Account hasn't been initialized"@,
        DropsetError::NotOwnedBySystemProgram => "Account is not owned by the system program"@,
        DropsetError::AddressDerivationFailed => "PDA derivation failed"@,
        DropsetError::AmountCannotBeZero => "Amount can't be zero"@,
        DropsetError::InsufficientUserBalance => "Insufficient user balance"@,
        DropsetError::OwnerNotTokenProgram => "Account owner must be a valid token program"@,
        DropsetError::MintAccountMismatch => "Mint account does not match"@,
        DropsetError::IncorrectTokenAccountOwner => "Incorrect associated token account owner"@,
        DropsetError::InvalidMintAccount => "Invalid mint account"@,
        DropsetError::InvalidMarketAccountOwner => "Invalid market account owner"@,
        DropsetError::MissingIndexHint => "Instruction data must include an index hint"@,
        DropsetError::InvalidNonZeroInteger => "Value passed must be greater than zero"@,
        DropsetError::InvalidInstructionData => "Instruction data is invalid"@,
        DropsetError::IncorrectEventAuthority => "The event authority passed isn't correct"@,
        DropsetError::EventAuthorityMustBeSigner => "The event authority isn't a signer"@,
        DropsetError::OrderWithPriceAlreadyExists => "An order with this price already exists"@,
        DropsetError::UserHasMaxOrders => "User already has the max number of open orders"@,
        DropsetError::OrderNotFound => "Order not found"@,
        DropsetError::ExponentUnderflow => "Order exponent underflow"@,
        DropsetError::ArithmeticOverflow => "Order arithmetic overflow"@,
        DropsetError::InvalidPriceMantissa => "Invalid price mantissa in price calculation"@,
        DropsetError::InvalidBiasedExponent => "Invalid biased exponent in price calculation"@,
        DropsetError::InfinityIsNotAFloat => "Can't convert infinity to a float value"@,
        DropsetError::PostOnlyWouldImmediatelyFill => "Post only order would immediately fill"@,
        DropsetError::AmountFilledVsTransferredMismatch => "The amount filled doesn't match the amount transferred."@,
    }
}

impl DropsetError {
    /// The code carried by the program error that this error converts into.
    pub fn code(&self) -> (r: u32)
        ensures
            r == error_code_spec(*self),
    {
        match self {
            DropsetError::InvalidInstructionTag => 0,
            DropsetError::InvalidInstructionEventTag => 1,
            DropsetError::InsufficientByteLength => 2,
            DropsetError::InvalidSectorIndex => 3,
            DropsetError::NoFreeNodesLeft => 4,
            DropsetError::InvalidAccountDiscriminant => 5,
            DropsetError::IndexOutOfBounds => 6,
            DropsetError::InvalidIndexHint => 7,
            DropsetError::UnalignedData => 8,
            DropsetError::UnallocatedAccountData => 9,
            DropsetError::UserAlreadyExists => 10,
            DropsetError::InvalidTokenProgram => 11,
            DropsetError::AlreadyInitializedAccount => 12,
            DropsetError::AccountNotInitialized => 13,
            DropsetError::NotOwnedBySystemProgram => 14,
            DropsetError::AddressDerivationFailed => 15,
            DropsetError::AmountCannotBeZero => 16,
            DropsetError::InsufficientUserBalance => 17,
            DropsetError::OwnerNotTokenProgram => 18,
            DropsetError::MintAccountMismatch => 19,
            DropsetError::IncorrectTokenAccountOwner => 20,
            DropsetError::InvalidMintAccount => 21,
            DropsetError::InvalidMarketAccountOwner => 22,
            DropsetError::MissingIndexHint => 23,
            DropsetError::InvalidNonZeroInteger => 24,
            DropsetError::InvalidInstructionData => 25,
            DropsetError::IncorrectEventAuthority => 26,
            DropsetError::EventAuthorityMustBeSigner => 27,
            DropsetError::OrderWithPriceAlreadyExists => 28,
            DropsetError::UserHasMaxOrders => 29,
            DropsetError::OrderNotFound => 30,
            DropsetError::ExponentUnderflow => 31,
            DropsetError::ArithmeticOverflow => 32,
            DropsetError::InvalidPriceMantissa => 33,
            DropsetError::InvalidBiasedExponent => 34,
            DropsetError::InfinityIsNotAFloat => 35,
            DropsetError::PostOnlyWouldImmediatelyFill => 36,
            DropsetError::AmountFilledVsTransferredMismatch => 37,
        }
    }

    /// The human readable message of this error.
    pub fn message(&self) -> (r: &'static str)
        ensures
            r@ == error_message_spec(*self),
    {
        match self {
            DropsetError::InvalidInstructionTag => "Invalid instruction tag",
            DropsetError::InvalidInstructionEventTag => "Invalid instruction event tag",
            DropsetError::InsufficientByteLength => "Not enough bytes passed",
            DropsetError::InvalidSectorIndex => "Invalid sector index passed",
            DropsetError::NoFreeNodesLeft => "There are no free stack nodes left",
            DropsetError::InvalidAccountDiscriminant => "Invalid account discriminant",
            DropsetError::IndexOutOfBounds => "Index is out of bounds",
            DropsetError::InvalidIndexHint => "Index hint is invalid",
            DropsetError::UnalignedData => "Account data is unaligned",
            DropsetError::UnallocatedAccountData => "Account data hasn't been properly allocated",
            DropsetError::UserAlreadyExists => "User already has an existing seat",
            DropsetError::InvalidTokenProgram => "Invalid token program ID",
            DropsetError::AlreadyInitializedAccount => "Account has already been initialized",
            DropsetError::AccountNotInitialized => "Account hasn't been initialized",
            DropsetError::NotOwnedBySystemProgram => "Account is not owned by the system program",
            DropsetError::AddressDerivationFailed => "PDA derivation failed",
            DropsetError::AmountCannotBeZero => "Amount can't be zero",
            DropsetError::InsufficientUserBalance => "Insufficient user balance",
            DropsetError::OwnerNotTokenProgram => "Account owner must be a valid token program",
            DropsetError::MintAccountMismatch => "Mint account does not match",
            DropsetError::IncorrectTokenAccountOwner => "Incorrect associated token account owner",
            DropsetError::InvalidMintAccount => "Invalid mint account",
            DropsetError::InvalidMarketAccountOwner => "Invalid market account owner",
            DropsetError::MissingIndexHint => "Instruction data must include an index hint",
            DropsetError::InvalidNonZeroInteger => "Value passed must be greater than zero",
            DropsetError::InvalidInstructionData => "Instruction data is invalid",
            DropsetError::IncorrectEventAuthority => "The event authority passed isn't correct",
            DropsetError::EventAuthorityMustBeSigner => "The event authority isn't a signer",
            DropsetError::OrderWithPriceAlreadyExists => "An order with this price already exists",
            DropsetError::UserHasMaxOrders => "User already has the max number of open orders",
            DropsetError::OrderNotFound => "Order not found",
            DropsetError::ExponentUnderflow => "Order exponent underflow",
            DropsetError::ArithmeticOverflow => "Order arithmetic overflow",
            DropsetError::InvalidPriceMantissa => "Invalid price mantissa in price calculation",
            DropsetError::InvalidBiasedExponent => "Invalid biased exponent in price calculation",
            DropsetError::InfinityIsNotAFloat => "Can't convert infinity to a float value",
            DropsetError::PostOnlyWouldImmediatelyFill => "Post only order would immediately fill",
            DropsetError::AmountFilledVsTransferredMismatch => "The amount filled doesn't match the amount transferred.",
        }
    }
}

/// The error that an [`OrderInfoError`] maps to.
pub open spec fn from_order_info_error_spec(e: OrderInfoError) -> DropsetError {
    match e {
        OrderInfoError::ExponentUnderflow => DropsetError::ExponentUnderflow,
        OrderInfoError::ArithmeticOverflow => DropsetError::ArithmeticOverflow,
        OrderInfoError::InvalidPriceMantissa => DropsetError::InvalidPriceMantissa,
        OrderInfoError::InvalidBiasedExponent => DropsetError::InvalidBiasedExponent,
        OrderInfoError::InfinityIsNotAFloat => DropsetError::InfinityIsNotAFloat,
        OrderInfoError::AmountCannotBeZero => DropsetError::AmountCannotBeZero,
    }
}

impl From<OrderInfoError> for DropsetError {
    fn from(order_error: OrderInfoError) -> (r: Self) {
        match order_error {
            OrderInfoError::ExponentUnderflow => DropsetError::ExponentUnderflow,
            OrderInfoError::ArithmeticOverflow => DropsetError::ArithmeticOverflow,
            OrderInfoError::InvalidPriceMantissa => DropsetError::InvalidPriceMantissa,
            OrderInfoError::InvalidBiasedExponent => DropsetError::InvalidBiasedExponent,
            OrderInfoError::InfinityIsNotAFloat => DropsetError::InfinityIsNotAFloat,
            OrderInfoError::AmountCannotBeZero => DropsetError::AmountCannotBeZero,
        }
    }
}

impl vstd::std_specs::convert::FromSpecImpl<OrderInfoError> for DropsetError {
    open spec fn obeys_from_spec() -> bool {
        true
    }

    open spec fn from_spec(v: OrderInfoError) -> Self {
        from_order_info_error_spec(v)
    }
}

/// The result of a market operation that returns nothing.
pub type DropsetResult = Result<(), DropsetError>;

} // verus!
