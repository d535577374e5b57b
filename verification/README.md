# veritasor

Verified core of the Veritasor revenue-attestation protocol: attestations
and their fee schedule, revenue-based settlement, portfolio aggregation,
the audit log, the upgrade registry, attestor staking and slashing, the
integration and lender registries, the protocol DAO, the revenue pricing
curve, and the shared helpers (access control, multisig, key rotation,
governance gating, disputes, rate limits, replay protection).

Layout:

- `src/` — the library, written in Verus. Each contract is a state value
  with methods that take the caller's arguments and the ledger readings
  (time, sequence number, token balances, answers of other contracts) as
  plain values, and return the new state with a result, or an error that
  leaves the state unchanged. Token movements are returned as
  `TokenTransfer` values for the host to carry out. Every public function
  has a contract over spec functions and views; the properties that span
  several calls are stated and proved as `law_*` proof functions.
- `tests/` — tests of the library on concrete values.
- `app/` — the ledger hosts: thin Soroban code that authenticates callers,
  reads the ledger, converts between ledger values and the library's
  plain values, performs transfers and cross-contract reads, and publishes
  events.
