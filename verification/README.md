# kolo_savings

The rules of the Kolo rotational savings (Ajo/Esusu) contracts on Stellar,
written in Verus and proved against their specifications.

- `src/` is the verified library. Each contract entry point is a step of a
  state machine over the group's ledger state: it names the authorization it
  demands, and either refuses with a `GroupError` (leaving the state as it
  was) or moves to a new state and leaves a token transfer and an event to be
  carried out.
  - `contract.rs`: the full group (rotational and goal-based savings,
    member removal, withdrawals, emergency pause, payout reentrancy guard);
    `ContractView` and its `*_step` functions state every entry point.
  - `savings_group.rs`: the basic group (fixed contributions, admin-directed
    payouts).
  - `well_formed.rs`: every accepted step keeps the group's invariant.
  - `calls.rs`: sequences of calls, and what stays true along them.
  - `laws.rs`: properties that span several steps.
  - `account.rs`, `effects.rs`, `error.rs`, `ttl.rs`: addresses, ledger
    effects, refusals, entry lifetimes.
- `app/` is the Soroban contract around the library: it loads the group from
  contract storage, demands the authorization, stores the new state, extends
  entry lifetimes, moves tokens and publishes events.
- `tests/` runs the library on concrete groups.
