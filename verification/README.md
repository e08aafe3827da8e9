# nft_arb

An NFT arbitrage searcher: it follows sudoswap pairs, NFTX vaults and
LooksRare asks, keeps the best bid and ask of every collection, finds the
collections whose best bid exceeds their best ask, sizes each trade, and
prices the bundle that carries it.

## Layout

- `src/` — the verified library (Verus):
  - `uint.rs`, `address.rs` — 256-bit amounts and 20-byte addresses, with
    their value models; the arithmetic goes through `ethers-core`'s `U256`.
  - `marketplace.rs`, `calls.rs`, `events.rs` — marketplaces, the calls a
    trade is made of, and the factory events that announce new marketplaces.
  - `pricing.rs`, `looks.rs` — the quotes and the calls of sudoswap pools,
    NFTX vaults and LooksRare orders.
  - `market.rs` — the book of best quotes per collection, the arbitrage
    opportunities it holds, and their ranking.
  - `search.rs` — the search for the most profitable trade size, and the gas
    pricing of a backrun.
  - `blocks.rs` — the block ranges in which events and logs are fetched.
  - `state_diff.rs` — applying a traced state diff to simulated account state.
  - `bot.rs` — the searcher's state and its decisions per block, pending
    transaction and LooksRare poll.
- `tests/` — tests of the library on concrete values.
- `app/` — the program around the library: configuration, the node and relay
  connections, the database, and the event loop.
