//! A verified model of the `dropset` on-chain order book: price encoding, the market account
//! layout and its free stack and sorted doubly linked lists.

pub mod price;
pub mod pubkey;
pub mod decimal;
pub mod client_helpers;
pub mod error;
pub mod state;
pub mod le_bytes;
pub mod pack;
pub mod events;
pub mod validation;
pub mod views;
pub mod instructions;
pub mod shared;
pub mod processor;
