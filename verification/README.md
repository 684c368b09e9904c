# aleo_pool

A stratum-style mining pool for Aleo and the device that proves for it.

`src/` is the verified library (Verus):

- `rpc` — the endpoint's client registry (peer → worker), the answers to
  `subscribe` and `submit`, and the notices sent to the other services.
- `node` — the steps a submitted block takes (transfers, then one block),
  the record a transaction spends, and the report sent after a block.
- `shares` — block accounting, the rows written to the database, and the
  database settings.
- `device`, `prover` — connection retries, the device's parameters and
  messages, the host name, the puzzle degree, the proving round and the
  window of proof totals that rates are reported from.
- `decimal` — decimal text of integers, both ways; `json` — the JSON reads.
- `pool` — the pool's status line.

`app/` holds the two programs (`pool` and `device` subcommands): the
websocket server and client, the database, the ledger and the puzzle, which
hand plain values to the library and act on what it decides.

The ledger, keys and puzzle of `app/node.rs` and `app/prover.rs` are snarkvm
values. snarkvm is not among the crate's dependencies (with it the
dependency tree grows past four hundred packages), so these two files name a
crate that the build does not provide.
