# quorum_credit

A credit protocol in which vouchers stake behind borrowers. When a loan
defaults, a share of every stake behind it is slashed; when it merely expires,
the stakes go back. Admins can disburse pools of small loans, and withdraw what
was slashed.

`src/` is the verified library. It holds the contract's state and requests as
plain values (`env`, `types`), and states every entry point over a mathematical
view of them:

- `contract`: setup, parameters and views of the contract;
- `settlement`: slashing, claiming, and the treasury of slashed funds;
- `pool`: loan pools, and `host` for pools whose amounts come in a host vector;
- `helpers`: shared checks, the protocol's health, and the dynamic penalty;
- `arith`: amounts in `i128`, shares in basis points, and sums;
- `errors`: errors that are returned, and traps that abort;
- `laws`: what holds across operations.

An entry point that can abort requires that it does not; the function beside it
whose name ends in `_trap` tells whether it would, and why.

`app/` runs the library on a Soroban host: it authorizes, reads the ledger into
an `Env`, and stores and performs what the library decides.
