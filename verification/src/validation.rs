//! Checks on the accounts an instruction is given: the market account and the mints.

use vstd::prelude::*;

use crate::error::{
    DropsetError,
    DropsetResult,
};
use crate::pubkey::pubkey_eq;
use crate::state::market_header::{
    MarketHeader,
    MARKET_ACCOUNT_DISCRIMINANT,
    MARKET_HEADER_SIZE,
};
use crate::state::transmutable::Transmutable;
use crate::state::Pubkey;

verus! {

/// Checks that an account is a market: owned by the program (`owned_by_program`), long enough
/// for a header and carrying the market discriminant. Fails with `InvalidMarketAccountOwner`,
/// then with `AccountNotInitialized`.
pub fn check_market_account(owned_by_program: bool, data: &[u8]) -> (r: DropsetResult)
    ensures
        !owned_by_program ==> r == Err::<(), DropsetError>(DropsetError::InvalidMarketAccountOwner),
        owned_by_program && data@.len() < MARKET_HEADER_SIZE ==> r == Err::<(), DropsetError>(
            DropsetError::AccountNotInitialized,
        ),
        owned_by_program && data@.len() >= MARKET_HEADER_SIZE ==> r == if MarketHeader::decode_spec(
            data@.subrange(0, MARKET_HEADER_SIZE as int),
        ).discriminant == MARKET_ACCOUNT_DISCRIMINANT {
            Ok::<(), DropsetError>(())
        } else {
            Err(DropsetError::AccountNotInitialized)
        },
{
    if !owned_by_program {
        return Err(DropsetError::InvalidMarketAccountOwner);
    }
    if data.len() < MARKET_HEADER_SIZE {
        return Err(DropsetError::AccountNotInitialized);
    }
    let header = MarketHeader::load_unchecked(
        vstd::slice::slice_subrange(data, 0, MARKET_HEADER_SIZE),
    );
    if header.discriminant() != MARKET_ACCOUNT_DISCRIMINANT {
        return Err(DropsetError::AccountNotInitialized);
    }
    Ok(())
}

/// Which mint of the market `mint` is: `true` for the base mint, `false` for the quote mint;
/// fails with `InvalidMintAccount` when it is neither.
pub fn mint_side(mint: &Pubkey, header: &MarketHeader) -> (r: Result<bool, DropsetError>)
    ensures
        mint@ == header.base_mint@ ==> r == Ok::<bool, DropsetError>(true),
        mint@ != header.base_mint@ && mint@ == header.quote_mint@ ==> r == Ok::<bool, DropsetError>(
            false,
        ),
        mint@ != header.base_mint@ && mint@ != header.quote_mint@ ==> r == Err::<bool, DropsetError>(
            DropsetError::InvalidMintAccount,
        ),
{
    if pubkey_eq(mint, &header.base_mint) {
        Ok(true)
    } else if pubkey_eq(mint, &header.quote_mint) {
        Ok(false)
    } else {
        Err(DropsetError::InvalidMintAccount)
    }
}

/// Checks that `base` and `quote` are the market's base and quote mints; fails with
/// `InvalidMintAccount` otherwise.
pub fn check_base_and_quote(base: &Pubkey, quote: &Pubkey, header: &MarketHeader) -> (r:
    DropsetResult)
    ensures
        r == if base@ == header.base_mint@ && quote@ == header.quote_mint@ {
            Ok::<(), DropsetError>(())
        } else {
            Err(DropsetError::InvalidMintAccount)
        },
{
    if pubkey_eq(base, &header.base_mint) && pubkey_eq(quote, &header.quote_mint) {
        Ok(())
    } else {
        Err(DropsetError::InvalidMintAccount)
    }
}

/// Checks that a token account holds `expected_mint` and belongs to `expected_owner`; fails with
/// `MintAccountMismatch`, then with `IncorrectTokenAccountOwner`.
pub fn check_token_account(
    mint: &Pubkey,
    owner: &Pubkey,
    expected_mint: &Pubkey,
    expected_owner: &Pubkey,
) -> (r: DropsetResult)
    ensures
        mint@ != expected_mint@ ==> r == Err::<(), DropsetError>(DropsetError::MintAccountMismatch),
        mint@ == expected_mint@ && owner@ != expected_owner@ ==> r == Err::<(), DropsetError>(
            DropsetError::IncorrectTokenAccountOwner,
        ),
        mint@ == expected_mint@ && owner@ == expected_owner@ ==> r is Ok,
{
    if !pubkey_eq(mint, expected_mint) {
        return Err(DropsetError::MintAccountMismatch);
    }
    if !pubkey_eq(owner, expected_owner) {
        return Err(DropsetError::IncorrectTokenAccountOwner);
    }
    Ok(())
}

} // verus!
