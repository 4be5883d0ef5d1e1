# psp_coin

A PSP22 fungible token (balances, allowances, metadata, mint and burn) as a
Verus-verified library.

- `src/u256.rs`: 256-bit amounts as two 128-bit limbs, viewed as `nat`.
- `src/address.rs`: 20-byte account addresses.
- `src/table.rs`: a key-to-amount table with distinct keys, viewed as a `Map`,
  and `map_sum`, the sum of a finite map.
- `src/model.rs`: the abstract state `CoinView` and what each operation does to it.
- `src/coin.rs`: `PspCoin`, whose operations are proved to do exactly what
  `model.rs` says and to keep the total supply equal to the sum of the balances.
- `src/laws.rs`: properties that span operations (round trips, refusals,
  conservation).
- `app/`: the chain side: caller from the contract environment, conversions
  to and from ink's `H160`/`U256`, and event emission.
