# ouro_contracts

Bookkeeping for trading agents on Arbitrum, as a verified Verus library:

- `agent_registry`: who owns an agent, what it may do and how it is rated;
- `liquidation_monitor`: which accounts are close to being liquidated;
- `route_optimizer`: which registered exchange gives the most for a swap;
- `timeboost_vault`: bidding capital, won rounds and the resale of express lane
  access.

## Layout

- `src/` is the library. A contract is a plain value; a call takes the message that
  reached it and, where other contracts are asked something, their answers. Every
  function carries a contract, and the laws of the library stand beside the
  functions they speak of, as proof functions whose names start with `law_`.
- `app/` puts the contracts on a Stylus host: storage, calls to other contracts and
  log entries.
- `tests/` calls the library as a host would.

What the library takes from alloy and stylus (256-bit arithmetic, address parsing,
Keccak-256, the ABI encoding, the data of a failed call) stands behind small
functions in `src/word.rs`, `src/address.rs` and `src/abi.rs` that are marked
`#[verifier::external_body]`; their doc comments say what is taken on trust.
