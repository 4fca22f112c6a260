pub mod order_operations;
pub mod seat_operations;
pub mod market_operations;
