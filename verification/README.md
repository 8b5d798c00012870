# perp_dex

The verified core of a perpetual-futures exchange on Soroban (Stellar): a
pair registry with rollover and funding accumulators, an LP vault whose shares
are a SEP-41 token, and a position manager that opens, closes and liquidates
leveraged trades against oracle prices.

Everything the exchange decides is written as functions over plain values and
proved with Verus against contracts stated over mathematical integers. The
Soroban contracts around it only read storage, check authorization, hand the
values to the library, and carry out what it returns.

## Layout

- `src/arith.rs` — checked, floor-rounded `a * b / d` on `i128` and the integer vocabulary
- `src/scale.rs`, `src/types.rs` — fixed-point scales and quantity newtypes
- `src/fees.rs` — rollover and funding accumulators, per-trade fees, price impact, spread, PnL percentage
- `src/liq.rs` — liquidation price and settlement payout with the insolvency waiver
- `src/oracle.rs` — oracle assets, observations, subscriptions and price normalization
- `src/registry.rs`, `src/vault.rs`, `src/position.rs` — the three contracts' entry points over the records they read and write, with their laws
- `src/mock.rs` — in-memory oracle and subscription sources and a stand-in oracle contract
- `tests/` — fixtures and scenarios run against the library
- `app/` — the Soroban contracts: storage, auth, events, token transfers and cross-contract calls

## Checking

The library verifies with Verus; `tests/` runs with `cargo test`.
