# defa_protocol

Verified core of a liquidity-facility protocol on CosmWasm: an LP vault with
time-locked, first-in-first-out withdrawals, a credit manager that lends pool
liquidity to a payment service provider (PSP) against a fee, a yield distributor
and a yield reserve that pay LP holders, and a factory that instantiates and wires
the four contracts of a pool.

## Layout

- `src/` — the library, verified with Verus. The contracts' decisions are
  functions here with `requires`/`ensures` contracts over mathematical models;
  the cross-function properties are stated and proved as `law_*` proof functions.
  Which handler stores which result is the entry points' dispatch, in `app/`.
  - `math`, `shares`, `vault`: share pricing and the vault accounting common to the
    pools.
  - `token_vault`: the stand-alone LP vault.
  - `psp_pool`: the pool's lifecycle, deposits with backfill, the Monday-only
    withdrawal queue and its claims.
  - `credit_manager`: drawdowns, fees with a penalty past the tenor, overdue
    tracking and the drawdown block.
  - `yield_distributor`, `yield_reserve`: yield cycles paid in batches, and the
    reserve's ledger of fees, top-ups, payouts and protocol revenue.
  - `pool_factory`: pool creation and the reply chain that registers a pool.
  - `token_factory`: protobuf encoding of the token-factory messages.
  - `mock_vault`: a self-contained vault model for differential and scenario tests.
- `app/` — the contracts' entry points: storage, chain queries, JSON messages and
  responses, and the dispatch from messages to library calls. Not verified.
- `tests/` — scenario and regression tests run against the compiled library.
