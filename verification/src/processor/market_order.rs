//! The decisions around the token transfers of a filled market order.

use vstd::prelude::*;

use crate::error::{
    DropsetError,
    DropsetResult,
};
use crate::events::DropsetEvent;

verus! {

/// The taker's transfers for a filled market order, as `(pays_in_base, amount_paid,
/// amount_received)`: a buy pays the quote filled into the market and receives the base filled; a
/// sell pays the base filled and receives the quote filled.
pub fn taker_transfers(is_buy: bool, base_filled: u64, quote_filled: u64) -> (r: (bool, u64, u64))
    ensures
        is_buy ==> r == (false, quote_filled, base_filled),
        !is_buy ==> r == (true, base_filled, quote_filled),
{
    if is_buy {
        (false, quote_filled, base_filled)
    } else {
        (true, base_filled, quote_filled)
    }
}

/// Checks that the amount the taker's transfer actually moved into the market equals the amount
/// filled; fails with `AmountFilledVsTransferredMismatch` otherwise.
pub fn check_taker_payment(amount_filled: u64, amount_transferred: u64) -> (r: DropsetResult)
    ensures
        r == if amount_filled == amount_transferred {
            Ok::<(), DropsetError>(())
        } else {
            Err(DropsetError::AmountFilledVsTransferredMismatch)
        },
{
    if amount_filled != amount_transferred {
        return Err(DropsetError::AmountFilledVsTransferredMismatch);
    }
    Ok(())
}

/// The amount a transfer into the market account actually delivered, from the account's balance
/// before and after it (transfer fees and hooks may deliver less than asked); `None` when the
/// balance went down.
pub fn deposited_amount(balance_before: u64, balance_after: u64) -> (r: Option<u64>)
    ensures
        balance_after >= balance_before ==> r == Some((balance_after - balance_before) as u64),
        balance_after < balance_before ==> r is None,
{
    balance_after.checked_sub(balance_before)
}

/// The end of a filled market order: checks that the taker's transfer moved into the market
/// exactly what the taker pays (the quote filled for a buy, the base filled for a sell), failing
/// with `AmountFilledVsTransferredMismatch` otherwise, and records the fill.
pub fn complete_market_order(
    order_size: u64,
    is_buy: bool,
    is_base: bool,
    base_filled: u64,
    quote_filled: u64,
    amount_transferred: u64,
    events: &mut Vec<DropsetEvent>,
) -> (r: DropsetResult)
    ensures
        ({
            let paid = if is_buy {
                quote_filled
            } else {
                base_filled
            };
            r == if paid == amount_transferred {
                Ok::<(), DropsetError>(())
            } else {
                Err(DropsetError::AmountFilledVsTransferredMismatch)
            }
        }),
        r is Ok ==> final(events)@ == old(events)@.push(
            DropsetEvent::MarketOrder { order_size, is_buy, is_base, base_filled, quote_filled },
        ),
        r is Err ==> final(events)@ == old(events)@,
{
    let (_, amount_paid, _) = taker_transfers(is_buy, base_filled, quote_filled);
    check_taker_payment(amount_paid, amount_transferred)?;
    events.push(
        DropsetEvent::MarketOrder { order_size, is_buy, is_base, base_filled, quote_filled },
    );
    Ok(())
}

} // verus!
