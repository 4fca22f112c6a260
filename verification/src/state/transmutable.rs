//! Fixed-size byte layouts: decoding a value from exactly `byte_len()` bytes and encoding it back.

use vstd::prelude::*;

use crate::error::{
    DropsetError,
    DropsetResult,
};

verus! {

/// A value with a fixed little-endian byte layout of `byte_len()` bytes.
pub trait Transmutable: Sized {
    /// The cumulative size in bytes of all fields.
    spec fn byte_len() -> nat;

    /// The cumulative size in bytes of all fields.
    fn len() -> (r: usize)
        ensures
            r == Self::byte_len(),
    ;

    /// Whether `bytes` (of length `byte_len()`) is a valid representation of `Self`.
    spec fn valid_bit_pattern(bytes: Seq<u8>) -> bool;

    /// The value that `bytes` (of length `byte_len()`) represents.
    spec fn decode_spec(bytes: Seq<u8>) -> Self;

    /// The bytes that represent `self`.
    spec fn encode_spec(&self) -> Seq<u8>;

    /// Checks that `bytes` represents a valid `Self`.
    fn validate_bit_patterns(bytes: &[u8]) -> (r: DropsetResult)
        requires
            bytes@.len() == Self::byte_len(),
        ensures
            r is Ok <==> Self::valid_bit_pattern(bytes@),
    ;

    /// Reads `Self` from exactly `byte_len()` bytes, without validating them.
    fn load_unchecked(bytes: &[u8]) -> (r: Self)
        requires
            bytes@.len() == Self::byte_len(),
        ensures
            r == Self::decode_spec(bytes@),
    ;

    /// Writes `self` as `byte_len()` bytes.
    fn to_bytes(&self) -> (r: Vec<u8>)
        ensures
            r@ == self.encode_spec(),
            r@.len() == Self::byte_len(),
    ;

    /// Reads `Self` from `bytes` after checking the length and the bit pattern.
    fn load(bytes: &[u8]) -> (r: Result<Self, DropsetError>)
        ensures
            bytes@.len() != Self::byte_len() ==> r == Err::<Self, DropsetError>(
                DropsetError::InsufficientByteLength,
            ),
            bytes@.len() == Self::byte_len() && Self::valid_bit_pattern(bytes@) ==> r == Ok::<
                Self,
                DropsetError,
            >(Self::decode_spec(bytes@)),
            bytes@.len() == Self::byte_len() && !Self::valid_bit_pattern(bytes@) ==> r is Err,
    {
        if bytes.len() != Self::len() {
            return Err(DropsetError::InsufficientByteLength);
        }
        match Self::validate_bit_patterns(bytes) {
            Ok(()) => Ok(Self::load_unchecked(bytes)),
            Err(e) => Err(e),
        }
    }
}

} // verus!
