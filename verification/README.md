# stello_contracts

The contracts of the sXLM protocol as verified state machines: a constant-product liquidity
pool with a TWAP oracle and liquidity mining, a multi-collateral lending market, parameter
governance, and the timelock between a vote and its effect.

A contract is a value that holds what the contract keeps in storage. A call is a method: it
checks the request, moves the state and returns a receipt that names who has to authorize the
call, which tokens to transfer and what to report. A rejected call returns an error and leaves
the state as it was.

## Layout

| Path | Contents |
|---|---|
| `src/arith.rs` | checked products and quotients, integer square root |
| `src/bytes.rs` | byte strings, big-endian numbers, a table keyed by bytes |
| `src/host.rs` | addresses, invocations, receipts, transfers |
| `src/sdk.rs` | what is taken from the Soroban SDK, and trusted |
| `src/sums.rs` | sums over maps |
| `src/lp_pool/` | the pool |
| `src/lending/` | the lending market |
| `src/governance/` | governance |
| `src/timelock/` | the timelock |
| `src/protocol.rs` | governance and timelock together |
| `tests/` | scenarios, edge cases and rejections |
| `app/` | the contracts on Soroban: storage, authorization, tokens, events |

Each contract has a `model.rs`, which says what every call makes of a mathematical state, a
`mod.rs`, whose methods are proved to do exactly that, and files of laws: what holds whatever
calls come, such as that LP tokens add up to the supply, that the books follow the transfers,
that a position is liquidated only when it is unhealthy, and that no parameter changes before
its delay is over.

Addresses are indices into a directory of the host; prices, rates and reward indices are
scaled by `10^7`, factors and fees are in basis points.
