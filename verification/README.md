# zerodao

The logic of the ZeroDAO reputation system, verified with Verus: social currency, trust
between users, seeds, reputations refreshed once per round, and the challenge games that
keep refreshed reputations honest. Seed candidates can be added, challenged and harvested,
but the game that settles a challenged seed score (examining sums of scores, replying with
hashes, paths and numbers of shortest paths, evidence) is not here: the helper functions it
rests on are not part of this code base, so only the weights of its calls are.

Each pallet is a module of `src/` with its storage, a model of that storage for contracts
(`view`, written `@`), and its calls. The calls take the whole runtime (`runtime::Runtime`)
and are specified over its model (`runtime::RuntimeModel`): a call either succeeds with the
state that a spec function gives, or fails with the error that the spec function gives and
leaves the state as it was.

- `storage`, `ordered_set` - key-value storage and ordered sets of accounts;
- `system`, `currency`, `perbill`, `primitives`, `per_social_currency` - blocks, events,
  errors, the ledger of the base token, ratios and shared types;
- `tokens` - social balances, staking and the bonus;
- `reputation`, `seeds`, `trust` - rounds of reputation, seeds, trust lists and paths of
  trust;
- `challenges` - the challenge games;
- `refresh_reputation`, `refresh_seeds` - refreshing reputations and selecting seeds
  (adding, challenging and harvesting candidates);
- `user_set` - sets of users and their difference;
- `weights` and the `weights` modules of the pallets - the weights of the calls.

The library uses no outside crate. Storage maps (`storage::StorageMap`, an association list
with distinct keys seen as a `Map`), the ledger of the base token (`currency`), ratios
(`perbill`) and origins and events (`system`) are its own types, and ordered sets hold
accounts (`u64`).

The tests in `tests/` build a runtime by hand and call the library as a user would.
