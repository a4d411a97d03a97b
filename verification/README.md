# solana-quadratic-funding

A verified library for quadratic funding rounds, with the Solana program and the
command-line client around it.

Many donors give to many projects in a round, and a shared pool tops up the
projects that have the broadest support. The score of a project is the square of
the sum of the square roots of what each donor gave in all; the pool is shared
out in proportion to the scores.

- `src/` is the library, verified with Verus. Each instruction is a function on
  the accounts that it is handed, as plain values.
  - `sqrt`: the integer square root.
  - `key`, `address`, `state`, `accounts`, `error`: the data.
  - `create`, `register`, `fund`, `donate`, `finalize`, `claim`: the instructions.
  - `books`: the figures of a project are those of its donors, splitting a
    donation gains nothing, and breadth pays.
  - `solvency`: a round can always pay what it owes.
  - `lifecycle`: what may happen when, and what happens once.
  - `history`: what a round holds after any course of instructions.
- `tests/` runs the library.
- `app/` holds what touches the chain: `program.rs` is the Anchor program,
  `cli.rs` the client, `convert.rs` the conversions.

The one thing taken on trust is `Pubkey::try_find_program_address` of the Solana
SDK, in `address`: that it is a function of its seeds and of the program.

`app/cli.rs` also needs the crate `anchor-client`.
