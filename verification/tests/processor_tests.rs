use dropset::client_helpers::to_biased_exponent;
use dropset::error::DropsetError;
use dropset::price::OrderInfoArgs;
use dropset::processor::cancel_order::apply_cancel_order;
use dropset::processor::close_seat::apply_close_seat;
use dropset::processor::deposit::apply_deposit;
use dropset::events::{
    DropsetEvent,
    DropsetEventTag,
};
use dropset::processor::market_order::{
    check_taker_payment,
    complete_market_order,
    deposited_amount,
    taker_transfers,
};
use dropset::processor::post_order::apply_post_order;
use dropset::processor::register_market::{
    market_account_space,
    register_market,
};
use dropset::processor::withdraw::apply_withdraw;
use dropset::shared::market_operations::initialize_market_account_data;
use dropset::shared::order_operations::load_order_from_sector_index;
use dropset::shared::seat_operations::find_seat_with_hint;
use dropset::state::market::{
    ListKind,
    Market,
};
use dropset::state::market_seat::MarketSeat;
use dropset::state::order::Order;
use dropset::state::sector::{
    SectorIndex,
    NIL,
};
use dropset::state::Pubkey;
use dropset::validation::{
    check_base_and_quote,
    check_market_account,
    mint_side,
};
use dropset::views::{
    try_market_view_all_from_owner_and_data,
    MarketViewAll,
    ViewError,
};

const BASE: Pubkey = [1u8; 32];
const QUOTE: Pubkey = [2u8; 32];

fn new_market(n: u16) -> Market {
    let bytes = vec![0u8; market_account_space(n)];
    initialize_market_account_data(&bytes, &BASE, &QUOTE, 7).unwrap()
}

fn user(b: u8) -> Pubkey {
    [b; 32]
}

fn seat(market: &Market, index: SectorIndex, who: &Pubkey) -> MarketSeat {
    find_seat_with_hint(market, index, who).unwrap()
}

/// Order args for `base_scalar` base atoms at `mantissa * 10^-7` quote atoms per base atom.
fn args(mantissa: u32, base_scalar: u64) -> OrderInfoArgs {
    OrderInfoArgs::new(mantissa, base_scalar, to_biased_exponent(0), to_biased_exponent(-7))
}

/// The encoded price of [`args`]: biased exponent `-7 + 16`.
fn enc(mantissa: u32) -> u32 {
    (9 << 27) | mantissa
}

#[test]
fn deposit_registers_then_credits() {
    let mut market = new_market(2);
    let alice = user(9);
    let index = apply_deposit(&mut market, &alice, true, 100, NIL, &mut Vec::new()).unwrap();
    assert_eq!(seat(&market, index, &alice), MarketSeat::new(alice, 100, 0));
    assert_eq!(apply_deposit(&mut market, &alice, false, 40, index, &mut Vec::new()), Ok(index));
    assert_eq!(apply_deposit(&mut market, &alice, true, 5, index, &mut Vec::new()), Ok(index));
    assert_eq!(seat(&market, index, &alice), MarketSeat::new(alice, 105, 40));
    assert_eq!(market.header.num_seats(), 1);
}

#[test]
fn deposit_errors() {
    let mut market = new_market(2);
    let alice = user(9);
    let index = apply_deposit(&mut market, &alice, true, u64::MAX, NIL, &mut Vec::new()).unwrap();
    let before = market.to_bytes();
    assert_eq!(apply_deposit(&mut market, &alice, true, 1, index, &mut Vec::new()), Err(DropsetError::ArithmeticOverflow));
    assert_eq!(apply_deposit(&mut market, &alice, true, 1, 99, &mut Vec::new()), Err(DropsetError::IndexOutOfBounds));
    assert_eq!(apply_deposit(&mut market, &user(3), true, 1, index, &mut Vec::new()), Err(DropsetError::InvalidIndexHint));
    assert_eq!(market.to_bytes(), before);
    assert_eq!(apply_deposit(&mut market, &alice, false, 1, NIL, &mut Vec::new()), Err(DropsetError::UserAlreadyExists));
}

#[test]
fn deposit_grows_the_market_when_no_sector_is_free() {
    let mut market = new_market(1);
    let first = apply_deposit(&mut market, &user(1), true, 1, NIL, &mut Vec::new()).unwrap();
    assert_eq!(market.header.num_free_sectors(), 0);
    let second = apply_deposit(&mut market, &user(2), true, 1, NIL, &mut Vec::new()).unwrap();
    assert_ne!(first, second);
    assert_eq!(market.get_capacity(), 2);
    assert_eq!(market.list_indices(ListKind::Seats), vec![first, second]);
}

#[test]
fn withdraw_debits_and_checks_balance() {
    let mut market = new_market(2);
    let alice = user(9);
    let index = apply_deposit(&mut market, &alice, false, 50, NIL, &mut Vec::new()).unwrap();
    assert_eq!(apply_withdraw(&mut market, &alice, false, 20, index, &mut Vec::new()), Ok(()));
    assert_eq!(seat(&market, index, &alice).quote_available(), 30);
    assert_eq!(
        apply_withdraw(&mut market, &alice, false, 31, index, &mut Vec::new()),
        Err(DropsetError::InsufficientUserBalance)
    );
    assert_eq!(apply_withdraw(&mut market, &alice, true, 1, index, &mut Vec::new()), Err(DropsetError::InsufficientUserBalance));
    assert_eq!(apply_withdraw(&mut market, &user(1), false, 1, index, &mut Vec::new()), Err(DropsetError::InvalidIndexHint));
    assert_eq!(apply_withdraw(&mut market, &alice, false, 1, 2, &mut Vec::new()), Err(DropsetError::IndexOutOfBounds));
    // Withdrawing what was just deposited gives the seat back.
    let before = seat(&market, index, &alice);
    apply_deposit(&mut market, &alice, false, 12, index, &mut Vec::new()).unwrap();
    apply_withdraw(&mut market, &alice, false, 12, index, &mut Vec::new()).unwrap();
    assert_eq!(seat(&market, index, &alice), before);
}

#[test]
fn close_seat_returns_what_is_owed_and_frees_the_sector() {
    let mut market = new_market(3);
    let alice = user(9);
    let index = apply_deposit(&mut market, &alice, true, 10, NIL, &mut Vec::new()).unwrap();
    apply_deposit(&mut market, &alice, false, 20, index, &mut Vec::new()).unwrap();
    assert_eq!(apply_close_seat(&mut market, &user(4), index, &mut Vec::new()), Err(DropsetError::InvalidIndexHint));
    assert_eq!(apply_close_seat(&mut market, &alice, 3, &mut Vec::new()), Err(DropsetError::IndexOutOfBounds));
    assert_eq!(apply_close_seat(&mut market, &alice, index, &mut Vec::new()), Ok((7, 10, 20)));
    assert!(market.list_indices(ListKind::Seats).is_empty());
    assert_eq!(market.free_indices()[0], index);
    assert_eq!(market.sectors[index as usize].payload, [0u8; 64]);
    // The user can register again.
    assert!(apply_deposit(&mut market, &alice, true, 1, NIL, &mut Vec::new()).is_ok());
}

#[test]
fn close_right_after_register_hands_back_the_deposit_and_restores_the_lists() {
    let mut market = new_market(5);
    let bob = user(3);
    let carol = user(12);
    apply_deposit(&mut market, &bob, true, 8, NIL, &mut Vec::new()).unwrap();
    apply_deposit(&mut market, &carol, false, 9, NIL, &mut Vec::new()).unwrap();
    let seats = market.list_indices(ListKind::Seats);
    let free = market.free_indices();
    let alice = user(7);
    let index = apply_deposit(&mut market, &alice, false, 42, NIL, &mut Vec::new()).unwrap();
    assert_eq!(index, free[0]);
    // Alice sorts between Bob and Carol.
    assert_eq!(market.list_indices(ListKind::Seats), vec![seats[0], index, seats[1]]);
    assert_eq!(apply_close_seat(&mut market, &alice, index, &mut Vec::new()), Ok((7, 0, 42)));
    assert_eq!(market.list_indices(ListKind::Seats), seats);
    assert_eq!(market.free_indices(), free);
    assert_eq!(seat(&market, seats[0], &bob).base_available(), 8);
    assert_eq!(seat(&market, seats[1], &carol).quote_available(), 9);
}

#[test]
fn post_order_locks_collateral() {
    let mut market = new_market(4);
    let alice = user(9);
    let seat_index = apply_deposit(&mut market, &alice, false, 1_000_000_000, NIL, &mut Vec::new()).unwrap();
    // A bid of 3 base atoms at 2 quote atoms per base atom.
    let order_index = apply_post_order(&mut market, &alice, args(20_000_000, 3), true, seat_index, &mut Vec::new()).unwrap();
    assert_eq!(market.list_indices(ListKind::Bids), vec![order_index]);
    let s = seat(&market, seat_index, &alice);
    assert_eq!(s.quote_available(), 1_000_000_000 - 6);
    let order = Order::from_payload(market.sectors[order_index as usize].load_payload());
    assert_eq!(order.encoded_price(), enc(20_000_000));
    assert_eq!(order.user_seat(), seat_index);
    assert_eq!(order.base_remaining(), 3);
    assert_eq!(order.quote_remaining(), 6);
}

#[test]
fn post_order_errors() {
    let mut market = new_market(4);
    let alice = user(9);
    let seat_index = apply_deposit(&mut market, &alice, true, 10, NIL, &mut Vec::new()).unwrap();
    assert_eq!(
        apply_post_order(&mut market, &alice, args(1, 1), false, seat_index, &mut Vec::new()),
        Err(DropsetError::InvalidPriceMantissa)
    );
    let mut m = market.clone_for_test();
    assert_eq!(
        apply_post_order(&mut m, &alice, args(30_000_000, 11), false, seat_index, &mut Vec::new()),
        Err(DropsetError::InsufficientUserBalance)
    );
    let mut m = market.clone_for_test();
    assert_eq!(apply_post_order(&mut m, &user(2), args(30_000_000, 1), false, seat_index, &mut Vec::new()), Err(DropsetError::InvalidIndexHint));
    let mut m = market.clone_for_test();
    assert_eq!(apply_post_order(&mut m, &alice, args(30_000_000, 1), false, 40, &mut Vec::new()), Err(DropsetError::IndexOutOfBounds));
    // An ask resting at 30_000_000 blocks bids at or above it.
    apply_post_order(&mut market, &alice, args(30_000_000, 1), false, seat_index, &mut Vec::new()).unwrap();
    assert_eq!(
        apply_post_order(&mut market, &alice, args(30_000_000, 1), true, seat_index, &mut Vec::new()),
        Err(DropsetError::PostOnlyWouldImmediatelyFill)
    );
}

#[test]
fn cancel_order_releases_collateral() {
    let mut market = new_market(4);
    let alice = user(9);
    let seat_index = apply_deposit(&mut market, &alice, true, 10, NIL, &mut Vec::new()).unwrap();
    apply_post_order(&mut market, &alice, args(30_000_000, 4), false, seat_index, &mut Vec::new()).unwrap();
    assert_eq!(seat(&market, seat_index, &alice).base_available(), 6);
    assert_eq!(
        apply_cancel_order(&mut market, &alice, enc(31_000_000), false, seat_index, &mut Vec::new()),
        Err(DropsetError::OrderNotFound)
    );
    assert_eq!(
        apply_cancel_order(&mut market, &alice, enc(30_000_000), true, seat_index, &mut Vec::new()),
        Err(DropsetError::OrderNotFound)
    );
    assert_eq!(apply_cancel_order(&mut market, &alice, enc(30_000_000), false, seat_index, &mut Vec::new()), Ok(()));
    assert_eq!(seat(&market, seat_index, &alice).base_available(), 10);
    assert!(market.list_indices(ListKind::Asks).is_empty());
}

#[test]
fn cancel_right_after_post_restores_book_free_stack_and_seat() {
    let mut market = new_market(6);
    let alice = user(9);
    let bob = user(4);
    let carol = user(6);
    let alice_seat = apply_deposit(&mut market, &alice, false, 500, NIL, &mut Vec::new()).unwrap();
    let bob_seat = apply_deposit(&mut market, &bob, false, 500, NIL, &mut Vec::new()).unwrap();
    let carol_seat = apply_deposit(&mut market, &carol, false, 500, NIL, &mut Vec::new()).unwrap();
    apply_post_order(&mut market, &bob, args(20_000_000, 3), true, bob_seat, &mut Vec::new()).unwrap();
    apply_post_order(&mut market, &carol, args(10_000_000, 3), true, carol_seat, &mut Vec::new()).unwrap();
    let bids = market.list_indices(ListKind::Bids);
    let asks = market.list_indices(ListKind::Asks);
    let seats = market.list_indices(ListKind::Seats);
    let free = market.free_indices();
    let alice_before = seat(&market, alice_seat, &alice);
    let bob_before = seat(&market, bob_seat, &bob);

    let order_index =
        apply_post_order(&mut market, &alice, args(15_000_000, 2), true, alice_seat, &mut Vec::new()).unwrap();
    assert_eq!(order_index, free[0]);
    assert_ne!(market.list_indices(ListKind::Bids), bids);
    assert_ne!(seat(&market, alice_seat, &alice), alice_before);
    assert_eq!(apply_cancel_order(&mut market, &alice, enc(15_000_000), true, alice_seat, &mut Vec::new()), Ok(()));

    assert_eq!(market.list_indices(ListKind::Bids), bids);
    assert_eq!(market.list_indices(ListKind::Asks), asks);
    assert_eq!(market.list_indices(ListKind::Seats), seats);
    assert_eq!(market.free_indices(), free);
    assert_eq!(seat(&market, alice_seat, &alice), alice_before);
    assert_eq!(seat(&market, bob_seat, &bob), bob_before);
}

/// The best price on a side, if any order rests there.
fn best_price(market: &Market, kind: ListKind) -> Option<u32> {
    market
        .list_indices(kind)
        .first()
        .map(|&i| load_order_from_sector_index(market, i).encoded_price())
}

fn uncrossed(market: &Market) -> bool {
    match (best_price(market, ListKind::Bids), best_price(market, ListKind::Asks)) {
        (Some(bid), Some(ask)) => bid < ask,
        _ => true,
    }
}

#[test]
fn the_book_never_crosses() {
    let mut market = new_market(10);
    let mut seats = Vec::new();
    for b in 1..=4u8 {
        let seat_index = apply_deposit(&mut market, &user(b), true, 1_000, NIL, &mut Vec::new()).unwrap();
        apply_deposit(&mut market, &user(b), false, 1_000, seat_index, &mut Vec::new()).unwrap();
        seats.push(seat_index);
    }
    let (alice, bob) = (user(1), user(2));
    apply_post_order(&mut market, &alice, args(30_000_000, 1), false, seats[0], &mut Vec::new()).unwrap();
    assert!(uncrossed(&market));
    apply_post_order(&mut market, &alice, args(20_000_000, 1), true, seats[0], &mut Vec::new()).unwrap();
    assert!(uncrossed(&market));
    // A bid at or above the best ask, or an ask at or below the best bid, would fill.
    for (mantissa, is_bid) in [(30_000_000, true), (31_000_000, true), (20_000_000, false), (10_000_000, false)] {
        assert_eq!(
            apply_post_order(&mut market, &bob, args(mantissa, 1), is_bid, seats[1], &mut Vec::new()),
            Err(DropsetError::PostOnlyWouldImmediatelyFill)
        );
    }
    apply_post_order(&mut market, &bob, args(29_000_000, 1), true, seats[1], &mut Vec::new()).unwrap();
    apply_post_order(&mut market, &user(3), args(21_000_000, 1), false, seats[2], &mut Vec::new()).unwrap_err();
    apply_post_order(&mut market, &user(3), args(29_500_000, 1), false, seats[2], &mut Vec::new()).unwrap();
    assert!(uncrossed(&market));
    assert_eq!(best_price(&market, ListKind::Bids), Some(enc(29_000_000)));
    assert_eq!(best_price(&market, ListKind::Asks), Some(enc(29_500_000)));
    assert_eq!(apply_cancel_order(&mut market, &user(3), enc(29_500_000), false, seats[2], &mut Vec::new()), Ok(()));
    assert!(uncrossed(&market));
    assert_eq!(best_price(&market, ListKind::Asks), Some(enc(30_000_000)));
}

#[test]
fn each_order_of_a_seat_on_a_side_has_its_own_price() {
    let mut market = new_market(8);
    let alice = user(9);
    let seat_index = apply_deposit(&mut market, &alice, true, 1_000, NIL, &mut Vec::new()).unwrap();
    apply_deposit(&mut market, &alice, false, 1_000, seat_index, &mut Vec::new()).unwrap();
    let bid = apply_post_order(&mut market, &alice, args(20_000_000, 1), true, seat_index, &mut Vec::new()).unwrap();
    let map = seat(&market, seat_index, &alice).user_order_sectors;
    assert_eq!((map.bids.price, map.bids.sector), (enc(20_000_000), bid));
    assert_eq!((map.asks.price, map.asks.sector), (0, 0));
    // A refused post leaves a market the runtime discards: try it on copies.
    assert_eq!(
        apply_post_order(&mut market.clone_for_test(), &alice, args(20_000_000, 2), true, seat_index, &mut Vec::new()),
        Err(DropsetError::OrderWithPriceAlreadyExists)
    );
    assert_eq!(
        apply_post_order(&mut market.clone_for_test(), &alice, args(19_000_000, 1), true, seat_index, &mut Vec::new()),
        Err(DropsetError::UserHasMaxOrders)
    );
    let ask = apply_post_order(&mut market, &alice, args(30_000_000, 1), false, seat_index, &mut Vec::new()).unwrap();
    let map = seat(&market, seat_index, &alice).user_order_sectors;
    assert_eq!((map.asks.price, map.asks.sector), (enc(30_000_000), ask));
    // Cancel looks the order up in the map and takes it out.
    assert_eq!(
        apply_cancel_order(&mut market, &alice, enc(21_000_000), true, seat_index, &mut Vec::new()),
        Err(DropsetError::OrderNotFound)
    );
    assert_eq!(apply_cancel_order(&mut market, &alice, enc(20_000_000), true, seat_index, &mut Vec::new()), Ok(()));
    let map = seat(&market, seat_index, &alice).user_order_sectors;
    assert_eq!((map.bids.price, map.bids.sector), (0, 0));
    assert!(market.list_indices(ListKind::Bids).is_empty());
    assert_eq!(market.list_indices(ListKind::Asks), vec![ask]);
}

#[test]
fn freed_sectors_are_counted_and_reused_before_growing() {
    let mut market = new_market(2);
    let alice = user(9);
    let bob = user(4);
    let a = apply_deposit(&mut market, &alice, true, 5, NIL, &mut Vec::new()).unwrap();
    apply_deposit(&mut market, &bob, true, 5, NIL, &mut Vec::new()).unwrap();
    assert_eq!(market.header.num_free_sectors(), 0);
    apply_close_seat(&mut market, &alice, a, &mut Vec::new()).unwrap();
    assert_eq!(market.header.num_free_sectors() as usize, market.free_indices().len());
    assert_eq!(market.header.num_free_sectors(), 1);
    let capacity = market.get_capacity();
    let again = apply_deposit(&mut market, &alice, true, 7, NIL, &mut Vec::new()).unwrap();
    assert_eq!(again, a);
    assert_eq!(market.get_capacity(), capacity);
    assert_eq!(market.header.num_free_sectors(), 0);
}

#[test]
fn market_order_decisions() {
    assert_eq!(taker_transfers(true, 5, 70), (false, 70, 5));
    assert_eq!(taker_transfers(false, 5, 70), (true, 5, 70));
    assert_eq!(check_taker_payment(5, 5), Ok(()));
    assert_eq!(check_taker_payment(5, 4), Err(DropsetError::AmountFilledVsTransferredMismatch));
    assert_eq!(deposited_amount(100, 175), Some(75));
    assert_eq!(deposited_amount(100, 99), None);
}

#[test]
fn register_space() {
    assert_eq!(market_account_space(0), 128);
    assert_eq!(market_account_space(10), 128 + 720);
}

#[test]
fn account_validation() {
    let market = new_market(1);
    let bytes = market.to_bytes();
    assert_eq!(check_market_account(true, &bytes), Ok(()));
    assert_eq!(check_market_account(false, &bytes), Err(DropsetError::InvalidMarketAccountOwner));
    assert_eq!(check_market_account(true, &bytes[..100]), Err(DropsetError::AccountNotInitialized));
    assert_eq!(check_market_account(true, &[0u8; 200]), Err(DropsetError::AccountNotInitialized));
    assert_eq!(mint_side(&BASE, &market.header), Ok(true));
    assert_eq!(mint_side(&QUOTE, &market.header), Ok(false));
    assert_eq!(mint_side(&user(3), &market.header), Err(DropsetError::InvalidMintAccount));
    assert_eq!(check_base_and_quote(&BASE, &QUOTE, &market.header), Ok(()));
    assert_eq!(check_base_and_quote(&QUOTE, &BASE, &market.header), Err(DropsetError::InvalidMintAccount));
}

#[test]
fn views_of_a_market() {
    let mut market = new_market(4);
    let alice = user(9);
    let seat_index = apply_deposit(&mut market, &alice, true, 10, NIL, &mut Vec::new()).unwrap();
    let ask = apply_post_order(&mut market, &alice, args(30_000_000, 2), false, seat_index, &mut Vec::new()).unwrap();
    let view = MarketViewAll::from_market(&market);
    assert_eq!(view.header.num_seats, 1);
    assert_eq!(view.header.num_asks, 1);
    assert_eq!(view.seats.len(), 1);
    assert_eq!(view.seats[0].index, seat_index);
    assert_eq!(view.seats[0].user, alice);
    assert_eq!(view.seats[0].base_available, 8);
    assert_eq!(view.asks.len(), 1);
    assert_eq!(view.asks[0].index, ask);
    assert_eq!(view.asks[0].encoded_price, enc(30_000_000));
    assert!(view.bids.is_empty());

    let program = [5u8; 32];
    let bytes = market.to_bytes();
    let parsed = try_market_view_all_from_owner_and_data(&program, &program, &bytes).unwrap();
    assert_eq!(parsed.seats, view.seats);
    assert_eq!(parsed.asks, view.asks);
    assert_eq!(
        try_market_view_all_from_owner_and_data(&[6u8; 32], &program, &bytes).unwrap_err(),
        ViewError::NotOwnedByProgram
    );
    assert_eq!(
        try_market_view_all_from_owner_and_data(&program, &program, &bytes[..64]).unwrap_err(),
        ViewError::Uninitialized
    );
    assert_eq!(ViewError::Uninitialized.message(), "Account is uninitialized");
}

trait CloneForTest {
    fn clone_for_test(&self) -> Market;
}

impl CloneForTest for Market {
    fn clone_for_test(&self) -> Market {
        Market::from_bytes(&self.to_bytes())
    }
}

#[test]
fn instructions_record_their_events() {
    let mut events = Vec::new();
    let bytes = vec![0u8; market_account_space(4)];
    let market_address = [5u8; 32];
    let mut market = register_market(&bytes, &market_address, &BASE, &QUOTE, 7, &mut events).unwrap();
    assert_eq!(events, vec![DropsetEvent::RegisterMarket { market: market_address }]);
    assert!(register_market(&bytes[..10], &market_address, &BASE, &QUOTE, 7, &mut events).is_err());
    assert_eq!(events.len(), 1);

    let alice = user(9);
    let mut events = Vec::new();
    let seat_index = apply_deposit(&mut market, &alice, true, 50, NIL, &mut events).unwrap();
    apply_deposit(&mut market, &alice, false, 60, seat_index, &mut events).unwrap();
    apply_withdraw(&mut market, &alice, true, 10, seat_index, &mut events).unwrap();
    // A refused withdrawal records nothing.
    assert!(apply_withdraw(&mut market, &alice, true, 1_000, seat_index, &mut events).is_err());
    let order = apply_post_order(&mut market, &alice, args(20_000_000, 3), true, seat_index, &mut events).unwrap();
    apply_cancel_order(&mut market, &alice, enc(20_000_000), true, seat_index, &mut events).unwrap();
    apply_close_seat(&mut market, &alice, seat_index, &mut events).unwrap();
    assert_eq!(
        events,
        vec![
            DropsetEvent::Deposit { amount: 50, is_base: true, seat_sector_index: seat_index },
            DropsetEvent::Deposit { amount: 60, is_base: false, seat_sector_index: seat_index },
            DropsetEvent::Withdraw { amount: 10, is_base: true },
            DropsetEvent::PostOrder {
                is_bid: true,
                user_seat_sector_index: seat_index,
                order_sector_index: order,
                base_atoms: 3,
                quote_atoms: 6,
            },
            DropsetEvent::CancelOrder { is_bid: true, user_seat_sector_index: seat_index },
            DropsetEvent::CloseSeat { user_seat_sector_index: seat_index },
        ]
    );

    let mut events = Vec::new();
    assert_eq!(
        complete_market_order(9, true, true, 9, 18, 17, &mut events),
        Err(DropsetError::AmountFilledVsTransferredMismatch)
    );
    assert!(events.is_empty());
    assert_eq!(complete_market_order(9, true, true, 9, 18, 18, &mut events), Ok(()));
    let fill = DropsetEvent::MarketOrder { order_size: 9, is_buy: true, is_base: true, base_filled: 9, quote_filled: 18 };
    assert_eq!(events, vec![fill]);
    assert_eq!(fill.tag(), DropsetEventTag::MarketOrderEvent);
    assert_eq!(
        fill.pack(),
        vec![6, 9, 0, 0, 0, 0, 0, 0, 0, 1, 1, 9, 0, 0, 0, 0, 0, 0, 0, 18, 0, 0, 0, 0, 0, 0, 0]
    );
    assert_eq!(
        DropsetEvent::Deposit { amount: 258, is_base: false, seat_sector_index: 3 }.pack(),
        vec![1, 2, 1, 0, 0, 0, 0, 0, 0, 0, 3, 0, 0, 0]
    );
}
