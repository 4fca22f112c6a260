# dropset

An order book for Solana whose market logic is verified with Verus.

A market account holds a header followed by fixed-size sectors. Every sector is a node of one of
four intrusive structures: the stack of free sectors, the list of user seats (sorted by user key),
and the bid and ask sides of the book (bids highest price first, asks lowest price first, equal
prices in arrival order).

## Layout

- `src/` is the verified library.
  - `state/` models the account: the header, the nodes, the seats and orders they carry, the free
    stack and the three lists, their byte encodings and the well-formedness of a market.
  - `shared/` and `processor/` hold the instruction logic: deposits, withdrawals, closing a seat,
    posting and cancelling orders, and the market-order transfer checks.
  - `price.rs`, `decimal.rs` and `client_helpers.rs` encode prices and compute order sizes;
    `instructions/` and `pack.rs` hold the instruction data formats; `events.rs` the events each
    instruction records; `validation.rs` and `views.rs` check and read accounts.
- `app/` is the on-chain entry point: it reads accounts, calls the library and makes the token
  transfers and account changes the library decides on.
- `tests/` runs the library on concrete markets and instruction data.
