use dropset::state::transmutable::Transmutable;
use dropset::validation::check_token_account;
use dropset::error::DropsetError;
use dropset::shared::market_operations::initialize_market_account_data;
use dropset::shared::seat_operations::{
    find_seat_with_hint,
    try_insert_market_seat,
};
use dropset::state::market::{
    ListKind,
    Market,
};
use dropset::state::market_header::{
    MarketHeader,
    MARKET_ACCOUNT_DISCRIMINANT,
};
use dropset::state::market_seat::MarketSeat;
use dropset::state::node::Node;
use dropset::state::sector::{
    SectorIndex,
    NIL,
    SECTOR_SIZE,
};
use dropset::state::Pubkey;

const N_SECTORS: usize = 10;

fn new_market(n_sectors: usize) -> Market {
    let bytes = vec![0u8; 128 + SECTOR_SIZE * n_sectors];
    initialize_market_account_data(&bytes, &[1u8; 32], &[2u8; 32], 254)
        .expect("Should initialize market data")
}

fn key(last: u8) -> Pubkey {
    let mut k = [0u8; 32];
    k[31] = last;
    k
}

fn seats_in_order(market: &Market) -> Vec<(SectorIndex, MarketSeat)> {
    let mut it = market.iter_seats();
    let mut out = Vec::new();
    while let Some((i, node)) = it.next() {
        out.push((i, MarketSeat::from_payload(node.load_payload())));
    }
    out
}

#[test]
fn market_insert_users() {
    let mut market = new_market(N_SECTORS);

    let [zero, one, two, three, ten, forty]: [MarketSeat; 6] = [0u8, 1, 2, 3, 10, 40]
        .iter()
        .enumerate()
        .map(|(i, last)| MarketSeat::new(key(*last), i as u64, (i + 2) as u64))
        .collect::<Vec<MarketSeat>>()
        .try_into()
        .unwrap();

    let seats: Vec<MarketSeat> = vec![three, two, forty, zero, ten, one];

    for seat in seats.into_iter() {
        assert!(try_insert_market_seat(&mut market, seat).is_ok());
    }

    let resulting_seat_list = seats_in_order(&market);
    let expected_order = vec![zero, one, two, three, ten, forty];

    assert_eq!(expected_order.len(), resulting_seat_list.len());

    for (expected, actual) in expected_order.iter().zip(resulting_seat_list.iter()) {
        assert_eq!(expected, &actual.1);
    }
}

#[test]
fn initialized_market_is_all_free() {
    let market = new_market(N_SECTORS);
    assert!(market.is_initialized());
    assert_eq!(market.get_capacity(), N_SECTORS as u32);
    assert_eq!(market.header.num_free_sectors(), N_SECTORS as u32);
    assert_eq!(market.header.discriminant(), MARKET_ACCOUNT_DISCRIMINANT);
    assert_eq!(market.header.market_bump, 254);
    assert_eq!(market.free_indices(), (0..N_SECTORS as u32).collect::<Vec<_>>());
    for kind in [ListKind::Seats, ListKind::Bids, ListKind::Asks] {
        assert_eq!(market.head(kind), NIL);
        assert_eq!(market.tail(kind), NIL);
        assert!(market.list_indices(kind).is_empty());
    }
}

#[test]
fn initialize_rejects_bad_lengths() {
    assert!(matches!(
        initialize_market_account_data(&[0u8; 127], &[1u8; 32], &[2u8; 32], 1),
        Err(DropsetError::UnallocatedAccountData)
    ));
    assert!(matches!(
        initialize_market_account_data(&[0u8; 128 + 71], &[1u8; 32], &[2u8; 32], 1),
        Err(DropsetError::UnalignedData)
    ));
    let empty = initialize_market_account_data(&[0u8; 128], &[1u8; 32], &[2u8; 32], 1).unwrap();
    assert_eq!(empty.get_capacity(), 0);
    assert_eq!(empty.header.free_stack_top(), NIL);
}

#[test]
fn duplicate_user_is_refused() {
    let mut market = new_market(N_SECTORS);
    let seat = MarketSeat::new(key(5), 1, 2);
    assert_eq!(try_insert_market_seat(&mut market, seat), Ok(0));
    let before = market.to_bytes();
    assert_eq!(
        try_insert_market_seat(&mut market, MarketSeat::new(key(5), 9, 9)),
        Err(DropsetError::UserAlreadyExists)
    );
    assert_eq!(market.to_bytes(), before);
    assert_eq!(market.header.num_seats(), 1);
}

#[test]
fn seat_insert_fails_without_free_sector() {
    let mut market = new_market(1);
    assert!(try_insert_market_seat(&mut market, MarketSeat::new(key(1), 0, 0)).is_ok());
    assert_eq!(
        try_insert_market_seat(&mut market, MarketSeat::new(key(2), 0, 0)),
        Err(DropsetError::NoFreeNodesLeft)
    );
}

#[test]
fn find_seat_with_hint_checks_the_user() {
    let mut market = new_market(N_SECTORS);
    let seat = MarketSeat::new(key(3), 11, 22);
    let index = try_insert_market_seat(&mut market, seat).unwrap();
    assert_eq!(find_seat_with_hint(&market, index, &key(3)), Ok(seat));
    assert_eq!(find_seat_with_hint(&market, index, &key(4)), Err(DropsetError::InvalidIndexHint));
}

#[test]
fn resize_grows_the_free_stack() {
    let mut market = new_market(2);
    assert_eq!(market.resize(0), Err(DropsetError::InvalidNonZeroInteger));
    assert_eq!(market.get_capacity(), 2);
    assert_eq!(market.resize(3), Ok(()));
    assert_eq!(market.get_capacity(), 5);
    assert_eq!(market.header.num_free_sectors(), 5);
    assert_eq!(market.free_indices(), vec![2, 3, 4, 0, 1]);
}

#[test]
fn market_bytes_round_trip() {
    let mut market = new_market(4);
    try_insert_market_seat(&mut market, MarketSeat::new(key(9), 3, 4)).unwrap();
    let bytes = market.to_bytes();
    assert_eq!(bytes.len(), 128 + 4 * SECTOR_SIZE);
    let again = Market::from_bytes(&bytes);
    assert_eq!(again.to_bytes(), bytes);
    assert_eq!(again.header, market.header);
    assert_eq!(again.list_indices(ListKind::Seats), market.list_indices(ListKind::Seats));
    assert_eq!(again.free_indices(), market.free_indices());
}

#[test]
fn node_accessors_and_bounds() {
    let mut node = Node::zeroed();
    node.set_next(3);
    node.set_prev(7);
    assert_eq!(node.next(), 3);
    assert_eq!(node.prev(), 7);
    let sectors = vec![0u8; SECTOR_SIZE * 2 + 5];
    assert_eq!(Node::check_in_bounds(&sectors, 1), Ok(()));
    assert_eq!(Node::check_in_bounds(&sectors, 2), Err(DropsetError::IndexOutOfBounds));
}

#[test]
fn header_counters_saturate() {
    let mut header = MarketHeader::init(1, &[1u8; 32], &[2u8; 32]);
    header.decrement_num_seats();
    assert_eq!(header.num_seats(), 0);
    header.increment_num_bids();
    header.increment_num_bids();
    assert_eq!(header.num_bids(), 2);
    header.increment_num_events_by(5);
    assert_eq!(header.num_events(), 5);
}

#[test]
fn well_formedness_check() {
    let mut market = new_market(4);
    try_insert_market_seat(&mut market, MarketSeat::new(key(2), 0, 0)).unwrap();
    try_insert_market_seat(&mut market, MarketSeat::new(key(1), 0, 0)).unwrap();
    let bytes = market.to_bytes();
    assert!(Market::from_bytes(&bytes).check_well_formed());

    // A wrong seat count.
    let mut bad = bytes.clone();
    bad[8] = 5;
    assert!(!Market::from_bytes(&bad).check_well_formed());

    // A free stack that runs into the seat list.
    let mut bad = bytes.clone();
    let top = market.header.free_stack_top() as usize;
    let seat_head = market.head(ListKind::Seats);
    bad[128 + top * SECTOR_SIZE..128 + top * SECTOR_SIZE + 4].copy_from_slice(&seat_head.to_le_bytes());
    assert!(!Market::from_bytes(&bad).check_well_formed());

    // A broken `prev` link.
    let mut bad = bytes.clone();
    let tail = market.tail(ListKind::Seats) as usize;
    bad[128 + tail * SECTOR_SIZE + 4..128 + tail * SECTOR_SIZE + 8].copy_from_slice(&NIL.to_le_bytes());
    assert!(!Market::from_bytes(&bad).check_well_formed());
}

#[test]
fn loading_checks_length_and_discriminant() {
    assert_eq!(
        MarketHeader::load(&[0u8; 127]).unwrap_err(),
        DropsetError::InsufficientByteLength
    );
    let header = MarketHeader::load(&[0u8; 128]).unwrap();
    assert_eq!(header.verify_discriminant(), Err(DropsetError::InvalidAccountDiscriminant));
    let good = MarketHeader::init(3, &[1u8; 32], &[2u8; 32]);
    assert_eq!(good.verify_discriminant(), Ok(()));
    assert_eq!(MarketHeader::load(&good.to_bytes()).unwrap(), good);
}

#[test]
fn token_account_checks() {
    let (mint, owner) = ([1u8; 32], [2u8; 32]);
    assert_eq!(check_token_account(&mint, &owner, &mint, &owner), Ok(()));
    assert_eq!(
        check_token_account(&[9u8; 32], &owner, &mint, &owner),
        Err(DropsetError::MintAccountMismatch)
    );
    assert_eq!(
        check_token_account(&mint, &[9u8; 32], &mint, &owner),
        Err(DropsetError::IncorrectTokenAccountOwner)
    );
}

#[test]
fn seat_balance_updates() {
    let mut seat = MarketSeat::new(key(1), 10, 20);
    assert_eq!(seat.try_decrement_base_available(11), Err(DropsetError::InsufficientUserBalance));
    assert_eq!(seat, MarketSeat::new(key(1), 10, 20));
    assert_eq!(seat.try_decrement_quote_available(5), Ok(()));
    assert_eq!(seat.quote_available(), 15);
    seat.set_base_available(u64::MAX);
    assert_eq!(seat.try_increment_base_available(1), Err(DropsetError::ArithmeticOverflow));
    assert_eq!(seat.try_increment_quote_available(5), Ok(()));
    assert_eq!(seat.quote_available(), 20);
    let bytes = seat.as_bytes();
    assert_eq!(MarketSeat::from_payload(&bytes), seat);
}
