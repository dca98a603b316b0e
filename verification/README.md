# sorosim

Verified state machines for a family of Soroban smart contracts: a counter, a
fungible token, an NFT registry, voting, escrow, a multisig wallet, a price
oracle, a constant-product AMM, role-based authorisation, event payloads, a
pair of cross-contract callee/caller contracts and a storage showcase.

- `src/` is the library, written in Verus. Each contract is a plain Rust value
  (its persistent state) whose entry points take the caller's addresses and the
  ledger time as arguments and return the new state, the result, or the error
  the contract raises. Every entry point has a contract over a mathematical
  view of the state, and the properties that span several calls (conservation
  of balances, a transfer to oneself included, one vote per voter, settled escrows stay settled, no gain from
  adding then removing liquidity, ...) are proved as lemmas beside them.
- `app/` wraps the library as Soroban contracts: host storage, `require_auth`,
  the ledger clock, event publication and cross-contract clients live there.
- `tests/` runs the library on concrete scenarios.
