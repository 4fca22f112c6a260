pub mod sector;
pub mod transmutable;
pub mod node;
pub mod free_stack;
pub mod linked_list;
pub mod market;
pub mod market_header;
pub mod market_seat;
pub mod user_order_sectors;
pub mod order;
pub mod asks_dll;
pub mod bids_dll;
pub mod seats_dll;
pub mod validate;

pub use crate::pubkey::Pubkey;
