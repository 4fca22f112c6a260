pub mod deposit;
pub mod withdraw;
pub mod close_seat;
pub mod post_order;
pub mod cancel_order;
pub mod register_market;
pub mod market_order;
