# rebond

Verified core of the Rebond green bond contracts on Stellar: the KYC
whitelist registry, the green bond security token and the coupon and
redemption module.

- `src/` — the contracts as state machines over plain values, verified with
  Verus: each call either moves the contract to its specified next state or
  returns the error the call is reverted with. Each module also proves the
  laws of its contract (supply cap, exact whitelist count, who must sign
  each call, compliance of every receipt, immutability of the bond terms,
  calls that undo each other).
- `tests/` — the contracts' scenarios on concrete values.
- `app/` — the Soroban entry points: they load the state from ledger
  storage, check the required signatures, ask the whitelist contract, run
  the verified transition, store the result and publish the events.
