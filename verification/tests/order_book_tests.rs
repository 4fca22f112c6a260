use dropset::client_helpers::to_biased_exponent;
use dropset::error::DropsetError;
use dropset::price::{
    to_order_info,
    OrderInfoArgs,
    UNBIASED_MAX,
};
use dropset::shared::market_operations::initialize_market_account_data;
use dropset::shared::order_operations::{
    insert_order,
    load_order_from_sector_index,
};
use dropset::state::asks_dll::AskOrders;
use dropset::state::bids_dll::BidOrders;
use dropset::state::market::{
    LinkedListIter,
    ListKind,
    Market,
};
use dropset::state::order::{
    Order,
    OrdersCollection,
};
use dropset::state::sector::{
    SectorIndex,
    NIL,
    SECTOR_SIZE,
};

const N_SECTORS: usize = 10;
const MARKET_LEN: usize = 128 + SECTOR_SIZE * N_SECTORS;

fn insert_helper<T: OrdersCollection>(market: &mut Market, order: &Order) -> SectorIndex {
    insert_order::<T>(market, *order).expect("Should insert order")
}

fn create_simple_market() -> Market {
    let bytes = [0u8; MARKET_LEN];
    initialize_market_account_data(&bytes, &[1u8; 32], &[2u8; 32], 254)
        .expect("Should initialize market data")
}

fn create_test_order(price_mantissa: u32, user_seat: SectorIndex) -> Order {
    let order_info = to_order_info(OrderInfoArgs::new(
        price_mantissa,
        1,
        to_biased_exponent(UNBIASED_MAX),
        to_biased_exponent(-1),
    ))
    .expect("The unit test should pass a valid price mantissa");
    assert_eq!(order_info.encoded_price.as_u32(), price_mantissa);
    assert_ne!(user_seat, NIL);
    Order::new(order_info, user_seat)
}

fn collect(mut it: LinkedListIter<'_>) -> Vec<(u32, u32)> {
    let mut out = Vec::new();
    while let Some((_, node)) = it.next() {
        let order = Order::from_payload(node.load_payload());
        out.push((order.encoded_price(), order.user_seat()));
    }
    out
}

fn asks(market: &Market) -> Vec<(u32, u32)> {
    collect(market.iter_asks())
}

fn bids(market: &Market) -> Vec<(u32, u32)> {
    collect(market.iter_bids())
}

fn prices(v: Vec<(u32, u32)>) -> Vec<u32> {
    v.into_iter().map(|(p, _)| p).collect()
}

fn count(mut it: LinkedListIter<'_>) -> usize {
    let mut n = 0;
    while it.next().is_some() {
        n += 1;
    }
    n
}

fn head_price(mut it: LinkedListIter<'_>) -> u32 {
    let (_, node) = it.next().unwrap();
    Order::from_payload(node.load_payload()).encoded_price()
}

#[test]
fn test_simple_order_infos() {
    const ZERO: u32 = 0;
    let get_encoded_price_u32 = |price_mantissa| create_test_order(price_mantissa, ZERO).encoded_price();
    assert_eq!(get_encoded_price_u32(10_000_000), 10_000_000);
    assert_eq!(get_encoded_price_u32(10_000_001), 10_000_001);
    assert_eq!(get_encoded_price_u32(10_000_002), 10_000_002);
    assert_eq!(get_encoded_price_u32(20_000_000), 20_000_000);
    assert_eq!(get_encoded_price_u32(99_999_999), 99_999_999);
}

#[test]
fn test_time_order_precedence() {
    let mut market = create_simple_market();

    let (low, mid, high) = (11_111_111, 22_222_222, 33_333_333);

    let orders = [
        create_test_order(mid, 2),
        create_test_order(high, 5),
        create_test_order(mid, 3),
        create_test_order(low, 1),
        create_test_order(mid, 4),
    ];

    for order in orders.iter() {
        insert_helper::<AskOrders>(&mut market, order);
    }
    assert_eq!(asks(&market), vec![(low, 1), (mid, 2), (mid, 3), (mid, 4), (high, 5)]);

    for order in orders.iter() {
        insert_helper::<BidOrders>(&mut market, order);
    }
    assert_eq!(bids(&market), vec![(high, 5), (mid, 2), (mid, 3), (mid, 4), (low, 1)]);
}

#[test]
fn test_price_order_precedence() {
    let mut market = create_simple_market();

    let [order_1, order_2, order_3] = [
        create_test_order(10_000_000, 1),
        create_test_order(20_000_000, 2),
        create_test_order(30_000_000, 1),
    ];

    insert_helper::<AskOrders>(&mut market, &order_2);
    insert_helper::<AskOrders>(&mut market, &order_1);
    insert_helper::<AskOrders>(&mut market, &order_3);
    let expected_ask_prices_and_seats = vec![(10_000_000, 1), (20_000_000, 2), (30_000_000, 1)];
    assert_eq!(asks(&market), expected_ask_prices_and_seats);

    insert_helper::<BidOrders>(&mut market, &order_2);
    insert_helper::<BidOrders>(&mut market, &order_1);
    insert_helper::<BidOrders>(&mut market, &order_3);
    let expected_bid_prices_and_seats = vec![(30_000_000, 1), (20_000_000, 2), (10_000_000, 1)];
    assert_eq!(bids(&market), expected_bid_prices_and_seats);
}

#[test]
fn test_insert_head_mid_and_tail_asks() {
    let mut market = create_simple_market();

    let [order_10, order_20, order_30, order_40] = [
        create_test_order(10_000_000, 1),
        create_test_order(20_000_000, 2),
        create_test_order(30_000_000, 3),
        create_test_order(40_000_000, 4),
    ];

    assert_eq!(insert_helper::<AskOrders>(&mut market, &order_20), market.head(ListKind::Asks));
    assert_eq!(market.head(ListKind::Asks), market.tail(ListKind::Asks));
    assert_eq!(prices(asks(&market)), [20_000_000]);

    assert_eq!(insert_helper::<AskOrders>(&mut market, &order_10), market.head(ListKind::Asks));
    assert_eq!(prices(asks(&market)), [10_000_000, 20_000_000]);

    assert_eq!(insert_helper::<AskOrders>(&mut market, &order_40), market.tail(ListKind::Asks));
    assert_eq!(prices(asks(&market)), [10_000_000, 20_000_000, 40_000_000]);

    let neither_head_nor_tail = insert_helper::<AskOrders>(&mut market, &order_30);
    assert_ne!(market.head(ListKind::Asks), neither_head_nor_tail);
    assert_ne!(market.tail(ListKind::Asks), neither_head_nor_tail);
    assert_eq!(prices(asks(&market)), [10_000_000, 20_000_000, 30_000_000, 40_000_000]);
}

#[test]
fn test_insert_head_mid_and_tail_bids() {
    let mut market = create_simple_market();

    let [order_10, order_20, order_30, order_40] = [
        create_test_order(10_000_000, 1),
        create_test_order(20_000_000, 2),
        create_test_order(30_000_000, 3),
        create_test_order(40_000_000, 4),
    ];

    assert_eq!(insert_helper::<BidOrders>(&mut market, &order_20), market.head(ListKind::Bids));
    assert_eq!(market.head(ListKind::Bids), market.tail(ListKind::Bids));
    assert_eq!(prices(bids(&market)), [20_000_000]);

    assert_eq!(insert_helper::<BidOrders>(&mut market, &order_40), market.head(ListKind::Bids));
    assert_eq!(prices(bids(&market)), [40_000_000, 20_000_000]);

    assert_eq!(insert_helper::<BidOrders>(&mut market, &order_10), market.tail(ListKind::Bids));
    assert_eq!(prices(bids(&market)), [40_000_000, 20_000_000, 10_000_000]);

    let neither_head_nor_tail = insert_helper::<BidOrders>(&mut market, &order_30);
    assert_ne!(market.head(ListKind::Bids), neither_head_nor_tail);
    assert_ne!(market.tail(ListKind::Bids), neither_head_nor_tail);
    assert_eq!(prices(bids(&market)), [40_000_000, 30_000_000, 20_000_000, 10_000_000]);
}

#[test]
fn test_post_only_crossing_check_asks() {
    let mut market = create_simple_market();

    let [order_1, order_2, order_3] = [
        create_test_order(10_000_000, 1),
        create_test_order(20_000_000, 2),
        create_test_order(30_000_000, 3),
    ];

    assert_eq!(count(market.iter_bids()), 0);
    assert!(AskOrders::post_only_crossing_check(&order_1, &market).is_ok());
    assert!(AskOrders::post_only_crossing_check(&order_2, &market).is_ok());
    assert!(AskOrders::post_only_crossing_check(&order_3, &market).is_ok());

    insert_helper::<BidOrders>(&mut market, &order_2);

    assert!(order_3.encoded_price() > head_price(market.iter_bids()));
    assert!(AskOrders::post_only_crossing_check(&order_3, &market).is_ok());

    assert_eq!(order_2.encoded_price(), head_price(market.iter_bids()));
    assert!(AskOrders::post_only_crossing_check(&order_2, &market).is_err());

    assert!(order_1.encoded_price() < head_price(market.iter_bids()));
    assert!(AskOrders::post_only_crossing_check(&order_1, &market).is_err());
}

#[test]
fn test_post_only_crossing_check_bids() {
    let mut market = create_simple_market();

    let [order_1, order_2, order_3] = [
        create_test_order(10_000_000, 1),
        create_test_order(20_000_000, 2),
        create_test_order(30_000_000, 3),
    ];

    assert_eq!(count(market.iter_asks()), 0);
    assert!(BidOrders::post_only_crossing_check(&order_1, &market).is_ok());
    assert!(BidOrders::post_only_crossing_check(&order_2, &market).is_ok());
    assert!(BidOrders::post_only_crossing_check(&order_3, &market).is_ok());

    insert_helper::<AskOrders>(&mut market, &order_2);

    assert!(order_1.encoded_price() < head_price(market.iter_asks()));
    assert!(BidOrders::post_only_crossing_check(&order_1, &market).is_ok());

    assert_eq!(order_2.encoded_price(), head_price(market.iter_asks()));
    assert!(BidOrders::post_only_crossing_check(&order_2, &market).is_err());

    assert!(order_3.encoded_price() > head_price(market.iter_asks()));
    assert!(BidOrders::post_only_crossing_check(&order_3, &market).is_err());
}

#[test]
fn crossing_check_error_is_post_only() {
    let mut market = create_simple_market();
    let bid = create_test_order(20_000_000, 1);
    insert_helper::<BidOrders>(&mut market, &bid);
    assert_eq!(
        AskOrders::post_only_crossing_check(&bid, &market),
        Err(DropsetError::PostOnlyWouldImmediatelyFill)
    );
}

#[test]
fn insert_fails_when_no_sector_is_free() {
    let mut market = create_simple_market();
    let order = create_test_order(10_000_000, 1);
    for _ in 0..N_SECTORS {
        insert_helper::<AskOrders>(&mut market, &order);
    }
    let before = market.to_bytes();
    assert_eq!(insert_order::<AskOrders>(&mut market, order), Err(DropsetError::NoFreeNodesLeft));
    assert_eq!(market.to_bytes(), before);
    assert_eq!(count(market.iter_asks()), N_SECTORS);
}

#[test]
fn inserted_order_reads_back() {
    let mut market = create_simple_market();
    let order = create_test_order(12_345_678, 7);
    let index = insert_helper::<AskOrders>(&mut market, &order);
    // The first insertion takes the top of the free stack: sector 0.
    assert_eq!(index, 0);
    assert_eq!(load_order_from_sector_index(&market, index), order);
    assert_eq!(market.list_indices(ListKind::Asks), vec![0]);
    assert_eq!(market.free_indices(), (1..N_SECTORS as u32).collect::<Vec<_>>());
}

#[test]
fn removing_an_inserted_order_restores_list_and_free_stack() {
    let mut market = create_simple_market();
    for (i, p) in [10_000_000u32, 30_000_000].iter().enumerate() {
        insert_helper::<AskOrders>(&mut market, &create_test_order(*p, i as u32));
    }
    let list_before = market.list_indices(ListKind::Asks);
    let free_before = market.free_indices();
    let index = insert_helper::<AskOrders>(&mut market, &create_test_order(20_000_000, 9));
    assert_eq!(market.list_indices(ListKind::Asks).len(), 3);
    market.remove_at(ListKind::Asks, index);
    assert_eq!(market.list_indices(ListKind::Asks), list_before);
    assert_eq!(market.free_indices(), free_before);
}

#[test]
fn books_stay_sorted_under_many_inserts() {
    let mut market = create_simple_market();
    let prices_in = [55_000_000u32, 12_000_000, 99_000_000, 12_000_000, 40_000_000];
    for (i, p) in prices_in.iter().enumerate() {
        insert_helper::<AskOrders>(&mut market, &create_test_order(*p, i as u32));
    }
    let a = prices(asks(&market));
    assert!(a.windows(2).all(|w| w[0] <= w[1]));
    assert_eq!(a.len(), prices_in.len());
}
