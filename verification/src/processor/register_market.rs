//! The market-state part of registering a market: the size of the account to create, and laying
//! out the created account with the event that announces the market.

use vstd::prelude::*;

use crate::error::DropsetError;
use crate::events::DropsetEvent;
use crate::shared::market_operations::{
    initialize_market_account_data,
    initialized_market,
};
use crate::state::market::Market;
use crate::state::market_header::MARKET_HEADER_SIZE;
use crate::state::sector::{
    NIL,
    SECTOR_SIZE,
};
use crate::state::Pubkey;

verus! {

/// The size in bytes of a market account with `num_sectors` sectors: the header and the sectors.
pub fn market_account_space(num_sectors: u16) -> (r: usize)
    ensures
        r == MARKET_HEADER_SIZE + SECTOR_SIZE * num_sectors,
{
    MARKET_HEADER_SIZE + SECTOR_SIZE * (num_sectors as usize)
}

/// Lays out the created account of the market at address `market` for the two mints, as
/// [`initialize_market_account_data`] does, and records the market's registration.
pub fn register_market(
    zeroed_market_account_data: &[u8],
    market: &Pubkey,
    base_mint: &Pubkey,
    quote_mint: &Pubkey,
    market_bump: u8,
    events: &mut Vec<DropsetEvent>,
) -> (r: Result<Market, DropsetError>)
    requires
        zeroed_market_account_data@.len() < NIL,
    ensures
        initialized_market(zeroed_market_account_data@, *base_mint, *quote_mint, market_bump, r),
        r is Ok ==> final(events)@ == old(events)@.push(DropsetEvent::RegisterMarket { market: *market }),
        r is Err ==> final(events)@ == old(events)@,
{
    let r = initialize_market_account_data(
        zeroed_market_account_data,
        base_mint,
        quote_mint,
        market_bump,
    );
    if r.is_ok() {
        events.push(DropsetEvent::RegisterMarket { market: *market });
    }
    r
}

} // verus!
